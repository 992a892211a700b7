use dat0_ui::about;
use dat0_ui::i18n::Catalog;
use dat0_ui::modals::{
    cancel_effect, closes_after, scrim_dismissable, slug, trap_action, BoundAction, CancelEffect, ModalKind,
    PanelAnswer, TrapAction,
};

const ALL: [ModalKind; 14] = [
    ModalKind::About,
    ModalKind::Onboarding,
    ModalKind::NamePrompt,
    ModalKind::Export,
    ModalKind::Connections,
    ModalKind::CrashReport,
    ModalKind::WorkspaceInUse,
    ModalKind::LiveRefresh,
    ModalKind::SavedQueries,
    ModalKind::QueryLibrary,
    ModalKind::ImportWizard,
    ModalKind::Recovery,
    ModalKind::Ai,
    ModalKind::Update,
];

#[test]
fn every_modal_has_its_own_slug() {
    let mut slugs: Vec<&str> = ALL.iter().map(|k| slug(*k)).collect();
    slugs.sort_unstable();
    slugs.dedup();
    assert_eq!(slugs.len(), ALL.len());
    assert_eq!(slug(ModalKind::Onboarding), "tour");
}

#[test]
fn forms_and_confirmations_ignore_a_stray_click() {
    assert!(!scrim_dismissable(ModalKind::NamePrompt));
    assert!(!scrim_dismissable(ModalKind::LiveRefresh));
    assert!(!scrim_dismissable(ModalKind::Onboarding));
    assert!(scrim_dismissable(ModalKind::About));
    assert!(scrim_dismissable(ModalKind::QueryLibrary));
}

#[test]
fn escape_on_the_tour_marks_it_seen() {
    assert_eq!(cancel_effect(ModalKind::Onboarding), CancelEffect::MarkTourSeen);
    assert_eq!(cancel_effect(ModalKind::CrashReport), CancelEffect::ClearStagedCrash);
    assert_eq!(cancel_effect(ModalKind::Export), CancelEffect::ReplyCancelled);
    assert_eq!(cancel_effect(ModalKind::About), CancelEffect::Nothing);
}

#[test]
fn focus_stays_in_the_modal() {
    assert_eq!(trap_action(Some(BoundAction::Escape)), TrapAction::Close);
    assert_eq!(trap_action(Some(BoundAction::Tab)), TrapAction::Cycle(1));
    assert_eq!(trap_action(Some(BoundAction::TabPrev)), TrapAction::Cycle(-1));
    assert_eq!(trap_action(None), TrapAction::Fallthrough);
}

#[test]
fn the_about_title_comes_from_the_catalog() {
    let mut cat = Catalog::new();
    cat.insert("about.title", "About dat0");
    assert_eq!(about::title(&cat), "About dat0");
}

#[test]
fn browsing_connecting_and_deleting_keep_the_modal_open() {
    assert!(!closes_after(PanelAnswer::BrowseDestination));
    assert!(!closes_after(PanelAnswer::Connections));
    assert!(!closes_after(PanelAnswer::QueryDeleted));
    for a in [
        PanelAnswer::Finished,
        PanelAnswer::Confirmed,
        PanelAnswer::Cancelled,
        PanelAnswer::Export,
        PanelAnswer::Import,
        PanelAnswer::QueryPicked,
        PanelAnswer::SqlPicked,
        PanelAnswer::RecoveryOpen,
        PanelAnswer::RecoveryResume,
        PanelAnswer::Install,
    ] {
        assert!(closes_after(a), "{a:?}");
    }
}
