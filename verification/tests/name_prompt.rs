use dat0_ui::i18n::Catalog;
use dat0_ui::name_prompt::{validate, NameError, Prompt};

#[test]
fn whitespace_is_the_same_as_empty() {
    assert_eq!(validate(""), Err(NameError::Empty));
    assert_eq!(validate("   \t "), Err(NameError::Empty));
    assert!(validate("q2").is_ok());
}

#[test]
fn a_pasted_newline_is_refused() {
    assert_eq!(validate("a\nb"), Err(NameError::Control));
    assert_eq!(validate("a\tb"), Err(NameError::Control));
}

#[test]
fn surrounding_space_does_not_reject_a_real_name() {
    assert!(validate("  q2  ").is_ok());
}

#[test]
fn a_trailing_newline_is_refused_though_trimming_would_drop_it() {
    assert_eq!(validate("q2\n"), Err(NameError::Control));
}

#[test]
fn nothing_shows_until_something_is_typed() {
    let mut p = Prompt::new("");
    assert_eq!(p.showing(), None);
    assert!(!p.can_confirm());
    assert_eq!(p.confirm(), None);
    assert_eq!(p.showing(), Some(NameError::Empty));
    p.input("  q2 ".to_string());
    assert_eq!(p.showing(), None);
    assert_eq!(p.confirm(), Some("  q2 ".to_string()));
}

#[test]
fn each_value_refusal_has_its_message() {
    let mut cat = Catalog::new();
    cat.insert("prompt.error.control", "No line breaks");
    assert_eq!(NameError::Control.message(&cat), "No line breaks");
    assert_eq!(NameError::Empty.message(&cat), "prompt.error.empty");
}
