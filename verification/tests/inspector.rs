use dat0_ui::i18n::Catalog;
use dat0_ui::import_wizard::quote_ident;
use dat0_ui::inspector::{
    card_header, edge_label, escape_xml, header_meta, lineage_indent, node_glyph, open_target, overview_line, unquote,
    EdgeKind, InspectorState, NodeKind, OpenTarget, ProfileMode,
};

fn pairs(v: &[(&str, &str)]) -> Vec<(String, String)> {
    v.iter().map(|(a, b)| (a.to_string(), b.to_string())).collect()
}

#[test]
fn edge_labels_are_human_readable() {
    let mut cat = Catalog::new();
    cat.insert("inspector.edge.transform", "transform");
    assert_eq!(edge_label(&cat, EdgeKind::FileImport), cat.t("inspector.edge.file"));
    assert_eq!(edge_label(&cat, EdgeKind::Transform(2)), format!("{} (2 ops)", cat.t("inspector.edge.transform")));
    assert_eq!(edge_label(&cat, EdgeKind::Transform(2)), "transform (2 ops)");
}

#[test]
fn the_indent_stops_growing_at_depth_six() {
    assert_eq!(lineage_indent(0), 0);
    assert_eq!(lineage_indent(3), 36);
    assert_eq!(lineage_indent(6), 72);
    assert_eq!(lineage_indent(7), 72);
    assert_eq!(lineage_indent(200), 72);
}

#[test]
fn header_meta_names_the_focus_column_and_its_type() {
    let cols = pairs(&[("id", "BIGINT"), ("price", "DOUBLE")]);
    let cards = pairs(&[("id", "id"), ("price", "price")]);
    assert_eq!(header_meta(Some(&cols), &cards, Some("price")), "price · DOUBLE");
    assert_eq!(header_meta(Some(&cols), &cards, None), "");
    assert_eq!(header_meta(None, &cards, Some("price")), "");
    assert_eq!(header_meta(Some(&cols), &cards, Some("nope")), "");
}

#[test]
fn header_meta_uses_the_renamed_label_but_the_base_column_s_type() {
    let cols = pairs(&[("price", "DOUBLE")]);
    let cards = pairs(&[("price", "Unit price")]);
    assert_eq!(header_meta(Some(&cols), &cards, Some("price")), "Unit price · DOUBLE");
    assert_eq!(header_meta(Some(&cols), &cards, Some("Unit price")), "Unit price · DOUBLE");
}

#[test]
fn topn_labels_are_escaped_because_they_are_data() {
    assert_eq!(escape_xml("<script>"), "&lt;script&gt;");
    assert_eq!(escape_xml("a&b"), "a&amp;b");
    assert_eq!(escape_xml("\"'x"), "&quot;&apos;x");
}

#[test]
fn a_quoted_name_reads_as_the_name_it_quotes() {
    assert_eq!(unquote("\"sales\""), "sales");
    assert_eq!(unquote(&quote_ident("a\"b")), "a\"b");
    assert_eq!(unquote("plain"), "plain");
}

#[test]
fn a_card_says_what_a_renamed_column_was() {
    let mut cat = Catalog::new();
    cat.insert("inspector.col.was", "was");
    assert_eq!(card_header(&cat, "Unit price", "DOUBLE", Some("price")), "Unit price · DOUBLE  ·  was price");
    assert_eq!(card_header(&cat, "id", "BIGINT", None), "id · BIGINT");
}

#[test]
fn a_lineage_row_opens_what_it_names() {
    assert_eq!(open_target(NodeKind::Chart), OpenTarget::SavedChart);
    assert_eq!(open_target(NodeKind::External), OpenTarget::Tab);
    assert_eq!(open_target(NodeKind::File), OpenTarget::Nothing);
    assert_eq!(node_glyph(NodeKind::Table), "▦");
}

#[test]
fn a_slow_profile_never_lands_under_a_newer_load() {
    let mut s: InspectorState<&str, u64> = InspectorState::new();
    let a = s.begin_load();
    let b = s.begin_load();
    assert!(!s.put_profile(a, "table A"));
    assert_eq!(s.shown_profile(), None);
    assert!(!s.put_extra(a, "price", 1));
    assert!(s.put_profile(b, "table B"));
    assert_eq!(s.shown_profile(), Some(&"table B"));
    assert!(s.put_extra(b, "price", 2));
    assert_eq!(s.extra_count(), 1);
}

#[test]
fn flipping_the_mode_drops_the_extras() {
    let mut s: InspectorState<&str, u64> = InspectorState::new();
    let id = s.begin_load();
    assert!(s.put_extra(id, "price", 2));
    assert_eq!(s.mode(), ProfileMode::WholeTable);
    s.toggle_mode();
    assert_eq!(s.mode(), ProfileMode::CurrentView);
    assert_eq!(s.extra_count(), 0);
    assert!(!s.hidden_expanded());
    s.toggle_hidden();
    assert!(s.hidden_expanded());
}

#[test]
fn unquoting_undoes_quoting_for_awkward_names() {
    for name in ["", "\"", "\"\"", "a\"\"b", "\"x", "y\"", "two words", "é\"ü"] {
        assert_eq!(unquote(&quote_ident(name)), name);
    }
}

#[test]
fn the_overview_line_counts_rows_and_columns_once_profiled() {
    let mut cat = Catalog::new();
    cat.insert("inspector.loading", "Profiling…");
    cat.insert("inspector.empty", "Nothing selected");
    assert_eq!(overview_line(&cat, Some("sales"), Some((1200, 7))), "sales — 1200 rows · 7 cols");
    assert_eq!(overview_line(&cat, Some("sales"), Some((0, 0))), "sales — 0 rows · 0 cols");
    assert_eq!(overview_line(&cat, Some("sales"), None), "sales — Profiling…");
    assert_eq!(overview_line(&cat, None, Some((3, 2))), "Nothing selected");
}
