use graphics_fundamentals::decimal::Real;
use graphics_fundamentals::dedup::{FaceVertexKey, VertexDeduplicator};
use graphics_fundamentals::numbers::{check_real, int_of};
use graphics_fundamentals::registry::MaterialRegistry;
use graphics_fundamentals::text::{chars_of, split_on, split_tokens};

fn cs(s: &str) -> Vec<char> {
    s.chars().collect()
}

fn strings(v: Vec<Vec<char>>) -> Vec<String> {
    v.into_iter().map(|c| c.into_iter().collect()).collect()
}

#[test]
fn tokens_split_on_ascii_whitespace() {
    assert_eq!(strings(split_tokens(&cs("  f 1/2  3\t4\r"))), vec!["f", "1/2", "3", "4"]);
    assert!(split_tokens(&cs(" \t ")).is_empty());
}

#[test]
fn pieces_keep_empty_fields() {
    assert_eq!(strings(split_on(&cs("5//2"), '/')), vec!["5", "", "2"]);
    assert_eq!(strings(split_on(&cs("a\nb\n"), '\n')), vec!["a", "b", ""]);
    assert_eq!(strings(split_on(&cs(""), '\n')), vec![""]);
}

#[test]
fn chars_of_keeps_unicode() {
    assert_eq!(chars_of("aé"), vec!['a', 'é']);
}

#[test]
fn real_tokens() {
    for ok in ["0", "-1", "+2.5", ".5", "5.", "1e10", "1.5E-3", "-0.0e+0", "inf", "-Infinity", "NaN", "+inF"] {
        assert!(check_real(&cs(ok)), "{}", ok);
    }
    for bad in ["", "-", ".", "e5", "1e", "1e+", "1.2.3", "infin", "na", "nan1", "+-inf", "1,5", "0x10", "1 "] {
        assert!(!check_real(&cs(bad)), "{}", bad);
    }
}

#[test]
fn real_keeps_text() {
    let r = Real::from_token(&cs("-3.25")).unwrap();
    assert_eq!(r.as_str(), "-3.25");
    assert_eq!(r.duplicate().as_str(), "-3.25");
    assert_eq!(Real::zero().as_str(), "0");
    assert!(Real::from_token(&cs("abc")).is_none());
}

#[test]
fn integer_tokens() {
    assert_eq!(int_of(&cs("42")), Some(42));
    assert_eq!(int_of(&cs("-7")), Some(-7));
    assert_eq!(int_of(&cs("+7")), Some(7));
    assert_eq!(int_of(&cs("007")), Some(7));
    assert_eq!(int_of(&cs("9223372036854775807")), Some(i64::MAX));
    assert_eq!(int_of(&cs("9223372036854775808")), None);
    assert_eq!(int_of(&cs("")), None);
    assert_eq!(int_of(&cs("+")), None);
    assert_eq!(int_of(&cs("1.0")), None);
    assert_eq!(int_of(&cs(" 1")), None);
}

#[test]
fn deduplicator_numbers_keys_by_first_appearance() {
    let a = FaceVertexKey { position: 1, uv: 0, normal: 2 };
    let b = FaceVertexKey { position: 1, uv: 1, normal: 2 };
    let mut d = VertexDeduplicator::new();
    assert_eq!(d.resolve(a), Some(0));
    assert_eq!(d.resolve(b), Some(1));
    assert_eq!(d.resolve(a), Some(0));
    assert_eq!(d.resolve(b), Some(1));
    assert_eq!(d.len(), 2);
    assert_eq!(d.keys(), &vec![a, b]);
}

#[test]
fn registry_checks_then_inserts() {
    let mut r = MaterialRegistry::new();
    assert_eq!(r.register("default"), 0);
    assert_eq!(r.register("red"), 1);
    assert_eq!(r.register("red"), 1);
    assert_eq!(r.len(), 2);
    assert_eq!(r.lookup("red"), Some(1));
    assert_eq!(r.lookup("blue"), None);
    assert_eq!(r.resolve(&Some("red".to_string())), 1);
    assert_eq!(r.resolve(&Some("blue".to_string())), 0);
    assert_eq!(r.resolve(&None), 0);
}
