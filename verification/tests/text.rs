//! Text helpers against the standard library.

use kremory::text::{characters, comes_before, owned, render_i64, render_u64, same_text, take_chars};

#[test]
fn rendering_agrees_with_std() {
    for n in [0, 7, 10, 99, 1_000, u64::MAX] {
        assert_eq!(render_u64(n), n.to_string());
    }
    for n in [0, -1, 42, i64::MAX, i64::MIN] {
        assert_eq!(render_i64(n), n.to_string());
    }
}

#[test]
fn text_order_agrees_with_std() {
    let samples = ["", "a", "ab", "b", "é", "z", "\u{ffff}", "\u{10000}", "Z", "a\u{0}"];
    for x in samples {
        for y in samples {
            assert_eq!(comes_before(x, y), x < y, "{x:?} < {y:?}");
            assert_eq!(same_text(&owned(x), &owned(y)), x == y);
        }
    }
}

#[test]
fn prefixes_count_characters() {
    assert_eq!(take_chars("héllo", 2), "hé");
    assert_eq!(take_chars("hé", 9), "hé");
    assert_eq!(take_chars("hé", 0), "");
    assert_eq!(characters("hé"), vec!['h', 'é']);
}
