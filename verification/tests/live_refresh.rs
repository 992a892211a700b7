use dat0_ui::i18n::Catalog;
use dat0_ui::live_refresh::{body, title, SCRIM_DISMISSABLE};

fn catalog() -> Catalog {
    let mut cat = Catalog::new();
    cat.insert(
        "livedata.refresh.confirm.body",
        "Refreshing drops {edits} edits and {deletes} deletions.",
    );
    cat
}

#[test]
fn the_body_names_both_counts() {
    let b = body(&catalog(), 3, 7);
    assert!(b.contains('3') && b.contains('7'), "{b}");
    assert!(!b.contains("{edits}") && !b.contains("{deletes}"), "{b}");
}

#[test]
fn the_counts_land_where_the_text_puts_them() {
    assert_eq!(body(&catalog(), 1, 400), "Refreshing drops 1 edits and 400 deletions.");
    assert_eq!(title(&catalog()), "livedata.refresh.confirm.title");
    assert!(!SCRIM_DISMISSABLE);
}
