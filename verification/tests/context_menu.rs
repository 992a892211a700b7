use dat0_ui::context_menu::{entries, step, MenuItem};
use dat0_ui::i18n::Catalog;

#[test]
fn the_seven_items_are_always_present() {
    let cat = Catalog::new();
    assert_eq!(entries(&cat, false, false).len(), 7);
    assert_eq!(entries(&cat, true, true).len(), 7);
}

#[test]
fn selection_scoped_items_are_disabled_without_one() {
    let cat = Catalog::new();
    let none = entries(&cat, false, false);
    let find = |item| none.iter().find(|e| e.item == item).unwrap();
    assert!(!find(MenuItem::DeleteRows).enabled);
    assert!(!find(MenuItem::FillDown).enabled);
    assert!(!find(MenuItem::SetNull).enabled);
    assert!(find(MenuItem::Copy).enabled);
}

#[test]
fn a_read_only_workspace_disables_every_mutation_but_not_copy() {
    let cat = Catalog::new();
    let ro = entries(&cat, true, true);
    for e in &ro {
        if e.item == MenuItem::Copy {
            assert!(e.enabled, "copy is not a mutation");
        } else {
            assert!(!e.enabled, "{:?} must be refused when read-only", e.item);
        }
    }
}

#[test]
fn arrow_navigation_skips_disabled_entries() {
    let enabled = vec![true, false, false, true];
    assert_eq!(step(0, 1, &enabled), 3, "down skips the two disabled rows");
    assert_eq!(step(3, 1, &enabled), 0, "and wraps");
    assert_eq!(step(0, -1, &enabled), 3, "up wraps the other way");
}

#[test]
fn navigation_terminates_when_nothing_is_enabled() {
    let enabled = vec![false, false, false];
    assert_eq!(step(1, 1, &enabled), 1);
    assert_eq!(step(4, 1, &[]), 4);
}

#[test]
fn separators_group_the_menu_the_way_the_gpui_one_did() {
    let cat = Catalog::new();
    let e = entries(&cat, true, false);
    let sep_before: Vec<MenuItem> = e.iter().filter(|i| i.separator_before).map(|i| i.item).collect();
    assert_eq!(sep_before, vec![MenuItem::FillDown, MenuItem::DeleteRows, MenuItem::DeleteColumn]);
}

#[test]
fn labels_come_from_the_catalog() {
    let mut cat = Catalog::new();
    cat.insert("menu.copy", "Copy");
    let e = entries(&cat, false, false);
    assert_eq!(e[0].label, "Copy");
    assert_eq!(e[1].label, "menu.cut");
}
