//! Splitting of long texts before they are embedded.

use kremory::chunking::split_for_embedding;

#[test]
fn short_text_returns_a_single_unchanged_chunk() {
    let text = "A short episode.";
    let chunks = split_for_embedding(text, 10_000);
    assert_eq!(chunks, vec![text.to_string()]);
}

#[test]
fn long_text_splits_into_multiple_chunks_each_within_budget() {
    let sentence = "The quick brown fox jumps over the lazy dog. ";
    let text: String = sentence.repeat(50); // ~2,300 chars
    let max_chars = 300;

    let chunks = split_for_embedding(&text, max_chars);

    assert!(
        chunks.len() > 1,
        "text over budget must produce more than one chunk; got {}",
        chunks.len()
    );
    for chunk in &chunks {
        assert!(
            chunk.chars().count() <= max_chars,
            "chunk of {} chars exceeds max_chars={max_chars}: {chunk:?}",
            chunk.chars().count()
        );
    }
    // Reassembling must contain every sentence exactly as often as the source did.
    let reassembled = chunks.join("");
    assert_eq!(
        reassembled.matches("quick brown fox").count(),
        text.matches("quick brown fox").count(),
        "chunking must not drop or duplicate sentences"
    );
}

#[test]
fn chunks_do_not_cut_mid_word() {
    let sentence = "Supercalifragilisticexpialidocious is a very long word indeed. ";
    let text = sentence.repeat(20);
    let chunks = split_for_embedding(&text, 100);

    for chunk in &chunks {
        let trimmed = chunk.trim();
        if trimmed.is_empty() {
            continue;
        }
        assert!(
            !trimmed
                .split_whitespace()
                .next_back()
                .unwrap_or("")
                .is_empty()
                || trimmed.ends_with('.'),
            "chunk should not end mid-word: {trimmed:?}"
        );
    }
}

#[test]
fn empty_text_returns_no_chunks() {
    assert_eq!(split_for_embedding("", 1_000), Vec::<String>::new());
    assert_eq!(split_for_embedding("", 0), Vec::<String>::new());
}

#[test]
fn paragraphs_are_kept_together() {
    let chunks = split_for_embedding("Some text\n\nfrom a\ndocument", 20);
    assert_eq!(chunks, vec!["Some text".to_string(), "from a\ndocument".to_string()]);
}

#[test]
fn a_text_that_fits_keeps_its_white_space() {
    assert_eq!(split_for_embedding("  padded  ", 10), vec!["  padded  ".to_string()]);
}

#[test]
fn every_character_but_white_space_survives() {
    let text = "Één zin. \u{3000}Twee zinnen!\n\n\tDrie\u{2003}zinnen?  Eén woord-zonder-einde-dat-niet-past.";
    for max in 1..40 {
        let chunks = split_for_embedding(text, max);
        assert!(chunks.iter().all(|c| !c.is_empty() && c.chars().count() <= max));
        let kept: String = chunks.concat().chars().filter(|c| !c.is_whitespace()).collect();
        let all: String = text.chars().filter(|c| !c.is_whitespace()).collect();
        assert_eq!(kept, all, "at {max}");
    }
}

#[test]
fn white_space_longer_than_the_limit_has_no_chunks() {
    assert_eq!(split_for_embedding("     ", 2), Vec::<String>::new());
}

#[test]
fn a_limit_of_zero_still_loses_nothing() {
    assert_eq!(split_for_embedding("abc", 0).concat(), "abc");
}

#[test]
fn chunks_are_pieces_of_the_text_in_order() {
    let text = "First  sentence here.\n\nA second   paragraph\twith\u{a0}odd  gaps. Third one!  ";
    for max in 1..50 {
        let mut at = 0;
        for chunk in split_for_embedding(text, max) {
            let start = at + text[at..].find(&chunk).unwrap();
            assert!(text[at..start].chars().all(char::is_whitespace), "at {max}");
            at = start + chunk.len();
        }
        assert!(text[at..].chars().all(char::is_whitespace), "at {max}");
    }
}
