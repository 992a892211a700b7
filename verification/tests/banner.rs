use dat0_ui::banner::{class_of, role_of, Banner, BannerAction, BannerKind};

#[test]
fn only_an_error_interrupts() {
    assert_eq!(role_of(BannerKind::Error).aria(), "alert");
    assert_eq!(role_of(BannerKind::Warning).aria(), "note");
    assert_eq!(role_of(BannerKind::Info).aria(), "note");
}

#[test]
fn each_severity_has_its_own_class() {
    let mut classes = [
        class_of(BannerKind::Info),
        class_of(BannerKind::Warning),
        class_of(BannerKind::Error),
    ];
    classes.sort_unstable();
    let before = classes.len();
    let mut dedup = classes.to_vec();
    dedup.dedup();
    assert_eq!(dedup.len(), before);
}

#[test]
fn a_banner_shows_only_the_parts_it_has() {
    let mut b = Banner {
        kind: BannerKind::Info,
        title: "Saved".into(),
        body: String::new(),
        primary: None,
        secondary: None,
        dismissible: true,
    };
    assert!(!b.shows_body());
    assert!(!b.shows_actions());
    b.body = "/tmp/a.csv".into();
    b.secondary = Some(BannerAction { label: "Open".into(), action_id: "open".into() });
    assert!(b.shows_body());
    assert!(b.shows_actions());
}

#[test]
fn the_same_news_twice_shows_once() {
    let b = |title: &str| Banner {
        kind: BannerKind::Warning,
        title: title.into(),
        body: String::new(),
        primary: None,
        secondary: None,
        dismissible: true,
    };
    let mut list = Vec::new();
    assert!(dat0_ui::banner::push_banner(&mut list, b("sales.csv changed")));
    assert!(!dat0_ui::banner::push_banner(&mut list, b("sales.csv changed")));
    assert!(dat0_ui::banner::push_banner(&mut list, b("other")));
    assert_eq!(list.len(), 2);
}
