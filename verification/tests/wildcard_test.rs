use fli::wildcard::wildcard_match;

#[test]
fn star_matches_everything() {
    assert!(wildcard_match("", "*"));
    assert!(wildcard_match("anything.txt", "*"));
}

#[test]
fn pattern_without_star_is_searched_anywhere() {
    assert!(wildcard_match("notes.txt", "tes"));
    assert!(wildcard_match("notes.txt", ""));
    assert!(wildcard_match("notes.txt", "notes.txt"));
    assert!(!wildcard_match("notes.txt", "notes.txt2"));
    assert!(!wildcard_match("notes.txt", "z"));
    assert!(!wildcard_match("", "x"));
}

#[test]
fn first_piece_is_anchored_at_the_start() {
    assert!(wildcard_match("notes.txt", "no*"));
    assert!(wildcard_match("notes.txt", "notes*txt"));
    assert!(!wildcard_match("notes.txt", "otes*"));
    assert!(!wildcard_match("notes.txt", "txt*"));
}

#[test]
fn later_pieces_are_found_in_order() {
    assert!(wildcard_match("notes.txt", "*.txt"));
    assert!(wildcard_match("notes.txt", "*tes*"));
    assert!(wildcard_match("notes.txt", "n*e*t"));
    assert!(wildcard_match("notes.txt", "**"));
    assert!(wildcard_match("notes.txt.bak", "*.txt"));
    assert!(!wildcard_match("notes.txt", "*.md"));
    assert!(!wildcard_match("notes.txt", "n*x*n"));
    assert!(!wildcard_match("ab", "a*b*b"));
    // Pieces do not overlap.
    assert!(!wildcard_match("aba", "ab*ba"));
    assert!(wildcard_match("abba", "ab*ba"));
}

#[test]
fn characters_beyond_ascii() {
    assert!(wildcard_match("résumé.pdf", "rés*é.pdf"));
    assert!(wildcard_match("日本語.txt", "*語*"));
    assert!(!wildcard_match("日本語.txt", "本*"));
}
