use picomatch::parse::ParseOptions;
use picomatch::parse_model::Kind;
use picomatch::parse_state::{group_closes, Grammar, ParseState, ParseToken};
use picomatch::text::{
    byte_offsets_of, chars_of, is_str, push_all, push_between, push_str, same_chars,
    starts_with_at, string_between, string_of, width_of,
};
use picomatch::utils::HasPrefixAndNegated;

fn chars(s: &str) -> Vec<char> {
    s.chars().collect()
}

fn state(pattern: &str) -> ParseState {
    ParseState::new(chars(pattern), Vec::new(), None)
}

#[test]
fn text_helpers_convert_both_ways() {
    assert_eq!(chars_of("aé/"), vec!['a', 'é', '/']);
    assert_eq!(chars_of(""), Vec::<char>::new());
    assert_eq!(string_of(&chars("aé/")), "aé/");
    assert_eq!(string_between(&chars("hello"), 1, 3), "el");
    assert_eq!(string_between(&chars("hello"), 2, 2), "");
    let mut out = chars("ab");
    push_between(&mut out, &chars("hello"), 3, 5);
    assert_eq!(out, chars("ablo"));
    push_all(&mut out, &chars("!"));
    assert_eq!(out, chars("ablo!"));
    push_str(&mut out, "é?");
    assert_eq!(out, chars("ablo!é?"));
}

#[test]
fn text_helpers_compare() {
    assert!(same_chars(&chars("abc"), &chars("abc")));
    assert!(!same_chars(&chars("abc"), &chars("abd")));
    assert!(!same_chars(&chars("abc"), &chars("ab")));
    assert!(is_str(&chars("**/**"), "**/**"));
    assert!(!is_str(&chars("**/*"), "**/**"));
    assert!(starts_with_at(&chars("hello"), 2, &chars("ll")));
    assert!(starts_with_at(&chars("hello"), 5, &chars("")));
    assert!(!starts_with_at(&chars("hello"), 4, &chars("ox")));
    assert!(!starts_with_at(&chars("hello"), 6, &chars("")));
    assert!(!starts_with_at(&chars("hello"), 2, &chars("lx")));
}

fn token(output: Option<&str>, value: Option<&str>) -> ParseToken {
    ParseToken {
        output: output.map(|s| s.to_string()),
        value: value.map(|s| s.to_string()),
    }
}

#[test]
fn cursor_moves_on_character_by_character() {
    let mut s = state("a!c");
    assert!(!s.eos());
    assert_eq!(s.index(), 0);
    assert_eq!(s.peek(1), Some('a'));
    assert_eq!(s.peek(2), Some('!'));
    assert_eq!(s.peek(3), Some('c'));
    assert_eq!(s.peek(4), None);
    assert_eq!(s.peek(0), None);
    assert_eq!(s.remaining(), chars("a!c"));
    assert_eq!(s.advance(), Some('a'));
    assert_eq!(s.index(), 1);
    assert_eq!(s.remaining(), chars("!c"));
    assert_eq!(s.advance(), Some('!'));
    assert_eq!(s.advance(), Some('c'));
    assert_eq!(s.index(), 3);
    assert!(s.eos());
    assert_eq!(s.advance(), None);
    assert_eq!(s.index(), 3);
    assert_eq!(s.remaining(), chars(""));
}

#[test]
fn moving_on_consumes_and_writes_nothing() {
    let mut s = ParseState::new(chars("ab"), chars("seed"), None);
    assert_eq!(s.advance(), Some('a'));
    assert_eq!(s.consumed().clone(), chars(""));
    assert_eq!(s.output().clone(), chars("seed"));
    assert!(!s.is_negated());
    assert_eq!(s.advance(), Some('b'));
    assert_eq!(s.advance(), None);
    assert_eq!(s.consumed().clone(), chars(""));
    assert_eq!(s.output().clone(), chars("seed"));
}

#[test]
fn consuming_counts_the_value_and_moves_on() {
    let mut s = state("abcd");
    s.consume(Some("ab".to_string()), Some(2));
    assert_eq!(s.index(), 2);
    assert_eq!(s.consumed().clone(), chars("ab"));
    assert_eq!(s.peek(1), Some('c'));
    s.consume(None, Some(0));
    assert_eq!(s.index(), 2);
    assert_eq!(s.consumed().clone(), chars("ab"));
    s.consume(Some("c".to_string()), None);
    assert_eq!(s.index(), 3);
    assert_eq!(s.consumed().clone(), chars("abc"));
    s.consume(None, None);
    assert_eq!(s.index(), 4);
    assert!(s.eos());
    assert_eq!(s.output().clone(), chars(""));
}

#[test]
fn consuming_may_pass_the_end() {
    let mut s = state("ab");
    s.consume(Some("xyz".to_string()), Some(5));
    assert_eq!(s.index(), 5);
    assert_eq!(s.consumed().clone(), chars("xyz"));
    assert!(s.eos());
    assert_eq!(s.peek(1), None);
    assert_eq!(s.remaining(), chars(""));
    assert_eq!(s.advance(), None);
    assert_eq!(s.index(), 5);
}

#[test]
fn appending_writes_consumes_and_moves_on() {
    let mut s = state("*.js");
    s.append(&token(Some("[^/]*?"), Some("*")));
    assert_eq!(s.output().clone(), chars("[^/]*?"));
    assert_eq!(s.consumed().clone(), chars("*"));
    assert_eq!(s.index(), 1);
    s.append(&token(None, Some(".")));
    assert_eq!(s.output().clone(), chars("[^/]*?."));
    assert_eq!(s.consumed().clone(), chars("*."));
    assert_eq!(s.index(), 2);
    s.append(&token(Some("x"), None));
    assert_eq!(s.output().clone(), chars("[^/]*?.x"));
    assert_eq!(s.consumed().clone(), chars("*."));
    assert_eq!(s.index(), 3);
    assert_eq!(s.prev_kind(), Kind::Bos);
    assert_eq!(s.peek(1), Some('s'));
}

#[test]
fn cursor_counts_the_marks_of_a_negation() {
    let mut s = state("!!!a");
    assert_eq!(s.advance(), Some('!'));
    assert!(s.negate());
    assert!(s.is_negated());
    assert_eq!(s.peek(1), Some('a'));
    let mut s = state("!!a");
    assert_eq!(s.advance(), Some('!'));
    assert!(!s.negate());
    assert!(!s.is_negated());
    assert_eq!(s.peek(1), Some('a'));
    let mut s = state("!!(a)");
    assert_eq!(s.advance(), Some('!'));
    assert!(s.negate());
    assert_eq!(s.peek(1), Some('!'));
    let mut s = state("!!(?a)");
    assert_eq!(s.advance(), Some('!'));
    assert!(!s.negate());
    assert_eq!(s.peek(1), Some('('));
}

#[test]
fn cursor_keeps_the_prefix_it_is_given() {
    let mut s = ParseState::new(chars("a"), chars("seed"), Some("./".to_string()));
    assert_eq!(s.prefix().clone(), Some("./".to_string()));
    assert!(!s.negated());
    assert_eq!(s.output().clone(), chars("seed"));
    s.set_prefix("x".to_string());
    assert_eq!(s.prefix.clone(), Some("x".to_string()));
}

#[test]
fn cursor_steps_through_a_pattern() {
    let g = Grammar::new(&ParseOptions::default());
    let mut s = state("a/*");
    s.step(&g);
    assert_eq!(s.output().clone(), chars("a"));
    assert_eq!(s.prev_kind(), Kind::Text);
    s.step(&g);
    assert_eq!(s.output().clone(), chars("a\\/"));
    assert_eq!(s.prev_kind(), Kind::Slash);
    s.step(&g);
    assert_eq!(s.output().clone(), chars("a\\/(?!\\.)(?=.)[^/]*?"));
    assert_eq!(s.prev_kind(), Kind::Star);
    assert!(s.eos());
    assert_eq!(s.consumed().clone(), chars("a/*"));
    assert_eq!(s.finish(&g), chars("a\\/(?!\\.)(?=.)[^/]*?\\/?"));
}

#[test]
fn groups_close_at_their_own_partner() {
    assert!(group_closes(&chars("a)"), 0, '(', ')'));
    assert!(!group_closes(&chars("a"), 0, '(', ')'));
    assert!(!group_closes(&chars("a\\)"), 0, '(', ')'));
    assert!(group_closes(&chars("(a))"), 0, '(', ')'));
    assert!(!group_closes(&chars("(a)"), 0, '(', ')'));
    assert!(group_closes(&chars("x]"), 0, ']', ']'));
    assert!(group_closes(&chars("ab}c"), 2, '{', '}'));
    assert!(!group_closes(&chars("ab}c"), 3, '{', '}'));
    assert!(!group_closes(&chars("ab"), 5, '{', '}'));
    assert!(!group_closes(&chars("a\\"), 0, '(', ')'));
}

#[test]
fn characters_are_measured_in_bytes() {
    assert_eq!(width_of('a'), 1);
    assert_eq!(width_of('\u{7f}'), 1);
    assert_eq!(width_of('é'), 2);
    assert_eq!(width_of('\u{7ff}'), 2);
    assert_eq!(width_of('€'), 3);
    assert_eq!(width_of('\u{ffff}'), 3);
    assert_eq!(width_of('😀'), 4);
    for c in ['a', 'é', '€', '😀', '\u{0}', '\u{10ffff}'] {
        assert_eq!(width_of(c), c.len_utf8());
    }
    assert_eq!(byte_offsets_of(&chars("")), vec![0]);
    assert_eq!(byte_offsets_of(&chars("aé€😀/")), vec![0, 1, 3, 6, 10, 11]);
}
