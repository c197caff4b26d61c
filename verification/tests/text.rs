use telebots::text::{trim, u64_to_string};

#[test]
fn decimal_digits_match_display() {
    for n in [0u64, 7, 10, 99, 1027, u64::MAX] {
        assert_eq!(u64_to_string(n), n.to_string());
    }
}

#[test]
fn trim_matches_str_trim() {
    for s in ["", "  ", " a ", "\t\n x y \u{3000}", "\u{a0}z\u{2028}", "no-space", "\u{200b}zw\u{200b}"] {
        assert_eq!(trim(s), s.trim(), "{s:?}");
    }
}
