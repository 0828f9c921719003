use vision::utils::{braces, closeable, openeable, pair};

#[test]
fn closeable_maps_openers_to_closers() {
    assert_eq!(closeable('{'), Some('}'));
    assert_eq!(closeable('('), Some(')'));
    assert_eq!(closeable('['), Some(']'));
    assert_eq!(closeable('\''), Some('\''));
    assert_eq!(closeable('"'), Some('"'));
    assert_eq!(closeable('`'), Some('`'));
    assert_eq!(closeable('a'), None);
    assert_eq!(closeable('}'), None);
}

#[test]
fn openeable_maps_closers_to_openers() {
    assert_eq!(openeable('}'), Some('{'));
    assert_eq!(openeable(')'), Some('('));
    assert_eq!(openeable(']'), Some('['));
    assert_eq!(openeable('\''), Some('\''));
    assert_eq!(openeable('"'), Some('"'));
    assert_eq!(openeable('`'), Some('`'));
    assert_eq!(openeable('{'), None);
    assert_eq!(openeable('x'), None);
}

#[test]
fn braces_accepts_only_bracket_pairs() {
    assert!(braces('{', '}'));
    assert!(braces('(', ')'));
    assert!(braces('[', ']'));
    assert!(!braces('\'', '\''));
    assert!(!braces('{', ')'));
    assert!(!braces('}', '{'));
}

#[test]
fn pair_accepts_brackets_and_matched_quotes() {
    assert!(pair('{', '}'));
    assert!(pair('(', ')'));
    assert!(pair('[', ']'));
    assert!(pair('\'', '\''));
    assert!(pair('"', '"'));
    assert!(pair('`', '`'));
    assert!(!pair('"', '\''));
    assert!(!pair('a', 'b'));
}
