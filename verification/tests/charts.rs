use dat0_ui::charts::{save_step, saved_name, SaveStep,
    axis_field, axis_required, chart_for, chartable, cycle_axis, next_type, picked, render_of,
    set_axis_field, source_label, unbound, AxisRole, ChartLoad, ChartRender, ChartSpec, ChartType,
};

const ALL: [ChartType; 5] = [
    ChartType::Bar,
    ChartType::Line,
    ChartType::Scatter,
    ChartType::Heatmap,
    ChartType::BoxPlot,
];

fn spec(t: ChartType) -> ChartSpec {
    ChartSpec {
        chart_type: t,
        source: "\"t\"".into(),
        x: None,
        y: None,
        group: None,
        color: None,
        title: String::new(),
    }
}

fn cols(pairs: &[(&str, &str)]) -> Vec<(String, String)> {
    pairs
        .iter()
        .map(|(n, t)| (n.to_string(), t.to_string()))
        .collect()
}

#[test]
fn required_axis_cycles_over_options_only() {
    let opts = vec!["a".to_string(), "b".to_string()];
    assert_eq!(cycle_axis(None, &opts, true), Some("a".into()));
    assert_eq!(cycle_axis(Some("a"), &opts, true), Some("b".into()));
    assert_eq!(cycle_axis(Some("b"), &opts, true), Some("a".into()));
    assert_eq!(cycle_axis(Some("zzz"), &opts, true), Some("a".into()));
    assert_eq!(cycle_axis(None, &[], true), None);
}

#[test]
fn optional_axis_passes_through_none() {
    let opts = vec!["a".to_string(), "b".to_string()];
    assert_eq!(cycle_axis(None, &opts, false), Some("a".into()));
    assert_eq!(cycle_axis(Some("a"), &opts, false), Some("b".into()));
    assert_eq!(cycle_axis(Some("b"), &opts, false), None);
}

#[test]
fn value_axis_maps_to_the_field_each_type_reads() {
    let mut bx = spec(ChartType::BoxPlot);
    set_axis_field(&mut bx, AxisRole::Value, Some("amt".into()));
    assert_eq!(bx.y.as_deref(), Some("amt"));
    assert_eq!(bx.color, None);
    assert_eq!(axis_field(&bx, AxisRole::Value), Some("amt"));

    let mut hm = spec(ChartType::Heatmap);
    set_axis_field(&mut hm, AxisRole::Value, Some("cnt".into()));
    assert_eq!(hm.color.as_deref(), Some("cnt"));
    assert_eq!(hm.y, None);
    assert_eq!(axis_field(&hm, AxisRole::Value), Some("cnt"));
}

#[test]
fn required_axes_classification() {
    assert!(axis_required(AxisRole::X));
    assert!(axis_required(AxisRole::Y));
    assert!(axis_required(AxisRole::Value));
    assert!(!axis_required(AxisRole::Group));
    assert!(!axis_required(AxisRole::Color));
}

#[test]
fn every_chart_type_is_reachable_by_cycling() {
    let mut t = ALL[0];
    let mut seen = vec![t];
    for _ in 1..ALL.len() {
        t = next_type(&ALL, t);
        seen.push(t);
    }
    assert_eq!(seen, ALL.to_vec());
    assert_eq!(next_type(&ALL, t), ALL[0], "the cycle must wrap");
}

#[test]
fn a_type_outside_the_cycle_moves_to_the_second() {
    assert_eq!(next_type(&ALL[..2], ChartType::Heatmap), ChartType::Line);
}

#[test]
fn a_stale_completion_never_overwrites_a_newer_one() {
    let mut load = ChartLoad::ready(ChartRender::Svg("first".into()));
    let a = load.begin();
    let b = load.begin();
    assert!(!load.apply(a, ChartRender::Svg("slow".into())));
    assert_eq!(load.render(), &ChartRender::Svg("first".into()));
    assert!(load.apply(b, ChartRender::Svg("fresh".into())));
    assert_eq!(load.render(), &ChartRender::Svg("fresh".into()));
}

#[test]
fn a_quoted_source_reads_as_a_plain_name_in_the_header() {
    assert_eq!(source_label("\"orders\""), "orders");
}

#[test]
fn a_new_table_gets_the_type_its_columns_suggest_and_no_picks() {
    let c = chart_for(
        "sales",
        &cols(&[("region", "VARCHAR"), ("amt", "BIGINT")]),
        None,
        ChartType::Bar,
    );
    assert_eq!(c.source, "\"sales\"");
    assert_eq!(c.chart_type, ChartType::Bar);
    assert!(!picked(&c));

    let c = chart_for("xy", &cols(&[("x", "DOUBLE"), ("y", "DOUBLE")]), None, ChartType::Scatter);
    assert_eq!(c.chart_type, ChartType::Scatter);
}

#[test]
fn a_table_keeps_its_chart_less_the_columns_that_went() {
    let had = ChartSpec {
        chart_type: ChartType::Heatmap,
        x: Some("region".into()),
        y: Some("gone".into()),
        color: Some("amt".into()),
        title: "Sales".into(),
        ..chart_for("sales", &[], None, ChartType::Bar)
    };
    let c = chart_for(
        "sales",
        &cols(&[("region", "VARCHAR"), ("amt", "BIGINT")]),
        Some(&had),
        ChartType::Bar,
    );
    assert_eq!(c.chart_type, ChartType::Heatmap);
    assert_eq!(c.x.as_deref(), Some("region"));
    assert_eq!(c.y, None, "its column went");
    assert_eq!(c.color.as_deref(), Some("amt"));
    assert_eq!(c.title, "Sales");
}

#[test]
fn the_row_id_is_not_a_column_to_chart() {
    let found = chartable(cols(&[
        ("__dat0_rowid", "BIGINT"),
        ("region", "VARCHAR"),
        ("amt", "BIGINT"),
    ]));
    assert_eq!(found, cols(&[("region", "VARCHAR"), ("amt", "BIGINT")]));
    assert_eq!(chart_for("sales", &found, None, ChartType::Bar).chart_type, ChartType::Bar);
}

#[test]
fn a_table_name_is_quoted_as_an_identifier() {
    assert_eq!(chart_for("a\"b", &[], None, ChartType::Bar).source, "\"a\"\"b\"");
}

#[test]
fn a_plot_that_fails_says_why() {
    let failed = Some(Err("Catalog Error: t does not exist".to_string()));
    assert_eq!(
        render_of(failed),
        ChartRender::Error("Catalog Error: t does not exist".into())
    );
    assert_eq!(render_of(None), ChartRender::Empty);
    assert_eq!(render_of(Some(Ok("<svg/>".to_string()))), ChartRender::Svg("<svg/>".into()));
}

#[test]
fn a_window_with_no_table_charts_nothing() {
    let s = unbound();
    assert!(!picked(&s));
    assert_eq!(s.source, "");
    assert_eq!(axis_field(&s, AxisRole::X), None);
}

#[test]
fn a_chart_of_a_query_s_rows_is_not_saved() {
    assert_eq!(save_step(None), SaveStep::Nothing);
    assert_eq!(save_step(Some("__dat0_q1")), SaveStep::Transient);
    assert_eq!(save_step(Some("sales")), SaveStep::Prompt);
    assert_eq!(save_step(Some("__dat")), SaveStep::Prompt);
    assert_eq!(saved_name("  Q2 sales "), Some("Q2 sales".to_string()));
    assert_eq!(saved_name("   "), None);
}
