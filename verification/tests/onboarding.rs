use dat0_ui::i18n::Catalog;
use dat0_ui::onboarding::{illustration_path, Tour, TourMove, SCRIM_DISMISSABLE};

#[test]
fn an_out_of_range_initial_step_clamps_rather_than_panicking() {
    let t = Tour::new(99, 5);
    assert_eq!(t.step, 4);
    assert!(t.is_last());
}

#[test]
fn every_panel_has_an_illustration_path() {
    assert_eq!(illustration_path(0), "onboarding/p1.png");
    assert_eq!(illustration_path(4), "onboarding/p5.png");
}

#[test]
fn the_tour_steps_and_finishes_on_the_last_panel() {
    let mut t = Tour::new(0, 3);
    assert!(!t.shows_back());
    t.back();
    assert_eq!(t.step, 0);
    assert_eq!(t.next_id(), "tour-next");
    assert_eq!(t.advance(), TourMove::Moved);
    assert_eq!(t.advance(), TourMove::Moved);
    assert!(t.shows_back());
    assert_eq!(t.next_id(), "tour-get-started");
    assert_eq!(t.advance(), TourMove::Finished);
    assert_eq!(t.step, 2);
    assert!(!SCRIM_DISMISSABLE);
}

#[test]
fn the_pager_names_the_panel_and_the_count() {
    let mut cat = Catalog::new();
    cat.insert("onboarding.tour.pager", "Step {n} of {total}");
    cat.insert("onboarding.tour.get_started", "Get started");
    let t = Tour::new(1, 4);
    assert_eq!(t.pager_label(&cat), "Step 2 of 4");
    assert_eq!(t.next_label(&cat), "onboarding.tour.next");
    assert_eq!(Tour::new(3, 4).next_label(&cat), "Get started");
}
