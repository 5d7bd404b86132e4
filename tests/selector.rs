use wr::{parse_bool, Selector};

#[test]
fn numbers_select_by_number() {
    let s = Selector::new("1".to_string());
    assert!(matches!(s, Selector::Number(1)));
    assert!(s.matches("01_intro", 1));
    assert!(!s.matches("01_intro", 2));
    assert!(matches!(Selector::new("+7".to_string()), Selector::Number(7)));
    assert!(matches!(Selector::new("65535".to_string()), Selector::Number(65535)));
}

#[test]
fn other_text_selects_by_full_name() {
    let s = Selector::new("01_intro".to_string());
    assert!(matches!(&s, Selector::FullName(n) if n == "01_intro"));
    assert!(s.matches("01_intro", 5));
    assert!(!s.matches("01_intr", 1));
    assert!(matches!(Selector::new("65536".to_string()), Selector::FullName(_)));
    assert!(matches!(Selector::new("-1".to_string()), Selector::FullName(_)));
    assert!(matches!(Selector::new("".to_string()), Selector::FullName(_)));
    assert!(matches!(Selector::new(" 1".to_string()), Selector::FullName(_)));
}

#[test]
fn replies_are_read_ignoring_case() {
    for yes in ["yes", "y", "Y", "YeS"] {
        assert_eq!(parse_bool(yes), Some(true));
    }
    for no in ["no", "n", "N", "nO"] {
        assert_eq!(parse_bool(no), Some(false));
    }
    for other in ["", "ye", "yess", "nope", " y", "oui"] {
        assert_eq!(parse_bool(other), None);
    }
}
