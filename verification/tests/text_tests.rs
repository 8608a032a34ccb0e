use myb::ieee::{binary32_equal, binary64_less, binary64_less_eq};
use myb::text::{find_char, str_equal, trim_str, white_space};

#[test]
fn white_space_agrees_with_std() {
    for c in (0u32..=0x10FFFF).filter_map(char::from_u32) {
        assert_eq!(white_space(c), c.is_whitespace(), "{:?}", c);
    }
}

#[test]
fn trim_agrees_with_std() {
    for s in ["", "  ", " a ", "\t\na b\u{2003}", "x", "\u{85}y\u{3000}", "a  "] {
        assert_eq!(trim_str(s), s.trim());
    }
}

#[test]
fn find_and_compare() {
    assert_eq!(find_char("ab=c=d", '='), Some(2));
    assert_eq!(find_char("演员=y", '='), Some(2));
    assert_eq!(find_char("abc", '='), None);
    assert!(str_equal("演员", "演员"));
    assert!(!str_equal("ab", "abc"));
    assert!(!str_equal("ab", "ac"));
}

#[test]
fn binary64_order_agrees_with_hardware() {
    let values = [
        0.0f64, -0.0, 1.0, -1.0, 0.25, 0.3, 0.5, 1e-300, -1e-300, f64::MIN_POSITIVE, f64::MAX,
        f64::MIN, f64::INFINITY, f64::NEG_INFINITY, f64::NAN, -f64::NAN, 5e-324, -5e-324,
    ];
    for a in values {
        for b in values {
            assert_eq!(binary64_less(a.to_bits(), b.to_bits()), a < b, "{} < {}", a, b);
            assert_eq!(binary64_less_eq(a.to_bits(), b.to_bits()), a <= b, "{} <= {}", a, b);
        }
    }
}

#[test]
fn binary32_equality_agrees_with_hardware() {
    let values = [0.0f32, -0.0, 0.3, 0.8, 1.0, -1.0, f32::INFINITY, f32::NAN, f32::MIN_POSITIVE];
    for a in values {
        for b in values {
            assert_eq!(binary32_equal(a.to_bits(), b.to_bits()), a == b, "{} == {}", a, b);
        }
    }
}
