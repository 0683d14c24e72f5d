use media_catalog::text::check_digit_runs;
use media_catalog::text::i32_to_string;
use media_catalog::text::join;
use media_catalog::text::tokenize;

#[test]
fn tokenize_drops_extra_spaces() {
    assert_eq!(tokenize("a  b c"), vec!["a", "b", "c"]);
    assert_eq!(tokenize("  lead and trail  "), vec!["lead", "and", "trail"]);
    assert_eq!(tokenize(""), Vec::<String>::new());
    assert_eq!(tokenize("   "), Vec::<String>::new());
}

#[test]
fn join_puts_single_spaces_between() {
    let tokens = vec!["a".to_string(), "b".to_string(), "c".to_string()];
    assert_eq!(join(&tokens), "a b c");
    assert_eq!(join(&vec!["solo".to_string()]), "solo");
    assert_eq!(join(&Vec::new()), "");
}

#[test]
fn decimal_rendering() {
    assert_eq!(i32_to_string(0), "0");
    assert_eq!(i32_to_string(7), "7");
    assert_eq!(i32_to_string(105), "105");
    assert_eq!(i32_to_string(-12), "-12");
    assert_eq!(i32_to_string(2147483647), "2147483647");
}

#[test]
fn digit_run_guard() {
    assert!(check_digit_runs(""));
    assert!(check_digit_runs("abc 123456789 def"));
    assert!(!check_digit_runs("abc 1234567890 def"));
}
