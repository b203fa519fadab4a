use async_demos::text::{
    compare_text, contains_text, decimal_text, is_blank, join_texts, same_text, starts_with,
    TextOrder,
};
use async_demos::textmap::TextMap;

#[test]
fn decimal_text_writes_digits() {
    assert_eq!(decimal_text(0), "0");
    assert_eq!(decimal_text(4096), "4096");
    assert_eq!(decimal_text(u64::MAX), u64::MAX.to_string());
}

#[test]
fn text_comparison_is_by_characters() {
    assert_eq!(compare_text("a", "b"), TextOrder::Less);
    assert_eq!(compare_text("ab", "a"), TextOrder::Greater);
    assert_eq!(compare_text("same", "same"), TextOrder::Equal);
    assert_eq!(compare_text("", "x"), TextOrder::Less);
    assert!(same_text("docs", "docs"));
    assert!(!same_text("docs", "doc"));
}

#[test]
fn blank_means_only_whitespace() {
    assert!(is_blank(""));
    assert!(is_blank(" \t\n"));
    assert!(is_blank("\u{3000}\u{a0}"));
    assert!(!is_blank(" x "));
    assert!(!is_blank("\u{200b}"));
    assert!(is_blank("\u{85}\u{1680}\u{2028}\u{205f}"));
}

#[test]
fn join_starts_with_and_contains() {
    assert_eq!(join_texts(&["a", "b", "c"], ","), "a,b,c");
    assert_eq!(join_texts::<&str>(&[], ","), "");
    assert!(starts_with("/etc/passwd", "/etc/"));
    assert!(!starts_with("/et", "/etc/"));
    assert!(contains_text("plan mode on", "mode"));
    assert!(contains_text("x", ""));
    assert!(!contains_text("mod", "mode"));
}

#[test]
fn text_map_keeps_keys_in_order_and_unique() {
    let mut map: TextMap<&str, u32> = TextMap::new();
    map.insert("b", 2);
    map.insert("a", 1);
    map.insert("b", 3);
    assert_eq!(map.len(), 2);
    assert_eq!(map.entries(), &vec![("a", 1), ("b", 3)]);
    assert_eq!(map.get("b"), Some(&3));
    assert_eq!(map.position("a"), Some(0));
    assert_eq!(map.remove("a"), Some(1));
    assert_eq!(map.remove("a"), None);
    assert_eq!(map.take_all(), vec![("b", 3)]);
    assert_eq!(map.len(), 0);
}
