use dat0_ui::empty_state::{
    active_recent, band_visible, hero_copy_keys, hero_mode, recents_key, sample_static_id,
    should_auto_tour, HeroMode, ListKey, RecentEntry, SampleKind,
};

fn list() -> Vec<RecentEntry> {
    vec![
        RecentEntry::Package { path: "/a".to_string() },
        RecentEntry::Workspace { path: "/b".to_string() },
    ]
}

#[test]
fn enriched_only_before_first_run_done() {
    assert_eq!(hero_mode(false), HeroMode::Enriched);
    assert_eq!(hero_mode(true), HeroMode::Plain);
    assert!(band_visible(HeroMode::Enriched));
    assert!(!band_visible(HeroMode::Plain));
}

#[test]
fn auto_tour_only_before_first_run_done() {
    assert!(should_auto_tour(false));
    assert!(!should_auto_tour(true));
}

#[test]
fn active_recent_selects_in_range_and_none_otherwise() {
    let list = list();
    assert_eq!(active_recent(&list, 0), Some(list[0].clone()));
    assert_eq!(active_recent(&list, 1), Some(list[1].clone()));
    assert_eq!(active_recent(&list, 2), None);
    assert_eq!(active_recent(&[], 0), None);
}

#[test]
fn sample_ids_are_unique_per_entry() {
    let all = [SampleKind::BundledCsv, SampleKind::BundledSqlite, SampleKind::Remote];
    let mut ids: Vec<&str> = all.iter().map(|k| sample_static_id(*k)).collect();
    ids.sort_unstable();
    ids.dedup();
    assert_eq!(ids.len(), 3, "each sample card needs its own id");
}

#[test]
fn the_hero_copy_has_nine_keys() {
    let keys = hero_copy_keys();
    assert_eq!(keys.len(), 9);
    assert_eq!(keys[0], "hero.title");
    assert_eq!(keys[8], "hero.take_tour");
}

#[test]
fn the_recents_cursor_stops_at_the_ends_and_opens_the_selection() {
    let list = list();
    assert_eq!(recents_key(&list, 0, ListKey::Up), (0, None));
    assert_eq!(recents_key(&list, 0, ListKey::Down), (1, None));
    assert_eq!(recents_key(&list, 1, ListKey::Down), (1, None));
    assert_eq!(recents_key(&list, 7, ListKey::Activate), (7, Some(list[1].clone())));
    assert_eq!(recents_key(&[], 0, ListKey::Activate), (0, None));
    assert_eq!(list[1].path(), "/b");
}
