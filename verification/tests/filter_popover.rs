use dat0_ui::filter_popover::{
    add_entry, banner_needed, chips, op_key, op_label, toggle_value, truncation_notice, value_shape,
    FilterOp, ValueShape, TOP_N,
};
use dat0_ui::i18n::Catalog;

const ALL_OPS: [FilterOp; 17] = [
    FilterOp::Eq,
    FilterOp::Neq,
    FilterOp::Lt,
    FilterOp::Lte,
    FilterOp::Gt,
    FilterOp::Gte,
    FilterOp::Between,
    FilterOp::Contains,
    FilterOp::NotContains,
    FilterOp::StartsWith,
    FilterOp::EndsWith,
    FilterOp::In,
    FilterOp::Regex,
    FilterOp::IsEmpty,
    FilterOp::IsNotEmpty,
    FilterOp::IsTrue,
    FilterOp::IsFalse,
];

fn strings(v: &[&str]) -> Vec<String> {
    v.iter().map(|s| s.to_string()).collect()
}

#[test]
fn every_operator_label_resolves() {
    let mut cat = Catalog::new();
    for op in ALL_OPS {
        cat.insert(op_key(op), &format!("label of {:?}", op));
    }
    for op in ALL_OPS {
        let label = op_label(&cat, op);
        assert!(!label.starts_with("filter.op."), "{op:?} has no entry");
        assert!(!label.is_empty(), "{op:?} resolves to an empty label");
    }
}

#[test]
fn each_operator_has_its_own_key() {
    let mut keys: Vec<&str> = ALL_OPS.iter().map(|op| op_key(*op)).collect();
    keys.sort_unstable();
    keys.dedup();
    assert_eq!(keys.len(), ALL_OPS.len());
}

#[test]
fn the_value_shape_follows_the_operator() {
    assert_eq!(value_shape(FilterOp::IsEmpty), ValueShape::NoValue);
    assert_eq!(value_shape(FilterOp::IsTrue), ValueShape::NoValue);
    assert_eq!(value_shape(FilterOp::Between), ValueShape::Range);
    assert_eq!(value_shape(FilterOp::In), ValueShape::List);
    assert_eq!(value_shape(FilterOp::Contains), ValueShape::Single);
    assert_eq!(value_shape(FilterOp::Regex), ValueShape::Single);
}

#[test]
fn the_truncation_notice_names_both_counts() {
    let mut cat = Catalog::new();
    cat.insert("filter.list.truncated", "Showing {shown} of {total} values");
    let notice = truncation_notice(&cat, 1204);
    assert!(notice.contains("50"), "{notice:?} must name the cap");
    assert!(notice.contains("1204"), "{notice:?} must name the total");
    assert_eq!(notice, "Showing 50 of 1204 values");
    assert!(banner_needed(TOP_N as u64 + 1));
    assert!(!banner_needed(TOP_N as u64));
}

#[test]
fn a_chip_toggles_on_and_off() {
    let mut list = strings(&["a", "b"]);
    toggle_value(&mut list, "c");
    assert_eq!(list, strings(&["a", "b", "c"]));
    toggle_value(&mut list, "a");
    assert_eq!(list, strings(&["b", "c"]));
}

#[test]
fn typed_values_are_trimmed_and_not_repeated() {
    let mut list = strings(&["a"]);
    assert!(!add_entry(&mut list, "   "));
    assert!(!add_entry(&mut list, " a "));
    assert!(add_entry(&mut list, " z "));
    assert_eq!(list, strings(&["a", "z"]));
}

#[test]
fn selected_values_not_on_offer_still_show_as_chips() {
    let got = chips(&strings(&["x", "y"]), &strings(&["q", "y"]));
    assert_eq!(
        got,
        vec![("x".to_string(), false), ("y".to_string(), true), ("q".to_string(), true)]
    );
}
