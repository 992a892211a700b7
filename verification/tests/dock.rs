use dat0_ui::dock::Edge;

#[test]
fn each_edge_has_its_growth_direction() {
    assert_eq!(Edge::Sidebar.growth(), (true, true));
    assert_eq!(Edge::Right.growth(), (true, false));
    assert_eq!(Edge::Bottom.growth(), (false, false));
    assert!(Edge::Sidebar.is_horizontal());
    assert!(!Edge::Bottom.is_horizontal());
}
