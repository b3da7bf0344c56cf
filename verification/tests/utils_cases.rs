use picomatch::constants::{posix_regex_source, replacement, MAX_LENGTH};
use picomatch::utils::{
    extglob_chars, glob_chars, remove_back_slashes, remove_prefix, slice, HasPrefixAndNegated,
    State, StringOrArray,
};

#[test]
fn slice_counts_from_both_ends() {
    assert_eq!(slice("hello", 1, Some(3)), "el");
    assert_eq!(slice("hello", 0, None), "hello");
    assert_eq!(slice("hello", 2, None), "llo");
    assert_eq!(slice("hello", -3, None), "llo");
    assert_eq!(slice("hello", 0, Some(-1)), "hell");
    assert_eq!(slice("hello", -3, Some(-1)), "ll");
    assert_eq!(slice("hello", 3, Some(1)), "");
    assert_eq!(slice("hello", 10, None), "");
    assert_eq!(slice("hello", -10, Some(2)), "he");
    assert_eq!(slice("hello", 0, Some(10)), "hello");
    assert_eq!(slice("", 0, Some(-1)), "");
    assert_eq!(slice("héllo", 1, Some(2)), "é");
    assert_eq!(slice("hello", isize::MIN, Some(isize::MAX)), "hello");
}

#[test]
fn remove_prefix_takes_dot_slash_off() {
    let mut state = State::default();
    assert_eq!(remove_prefix("./foo", &mut state), "foo");
    assert_eq!(state.prefix().clone(), Some("./".to_string()));
    assert!(!state.negated());
    let mut state = State {
        prefix: None,
        negated: true,
    };
    assert_eq!(remove_prefix("foo/./bar", &mut state), "foo/./bar");
    assert_eq!(state.prefix().clone(), None);
    assert!(state.negated());
    let mut state = State::default();
    assert_eq!(remove_prefix("./", &mut state), "");
    assert_eq!(remove_prefix(".", &mut state), ".");
    assert_eq!(remove_prefix("", &mut state), "");
}

#[test]
fn remove_back_slashes_drops_escapes() {
    assert_eq!(remove_back_slashes(&"a\\b".to_string()), "ab");
    assert_eq!(remove_back_slashes(&"\\*\\.js".to_string()), "*.js");
    assert_eq!(remove_back_slashes(&"a\\\\b".to_string()), "ab");
    assert_eq!(remove_back_slashes(&"abc".to_string()), "abc");
    assert_eq!(remove_back_slashes(&"".to_string()), "");
}

#[test]
fn remove_back_slashes_keeps_a_backslash_at_the_end() {
    assert_eq!(remove_back_slashes(&"ab\\".to_string()), "ab\\");
    assert_eq!(remove_back_slashes(&"a\\\nb".to_string()), "a\\\nb");
}

#[test]
fn remove_back_slashes_keeps_bracket_expressions() {
    assert_eq!(remove_back_slashes(&"[\\w]\\a".to_string()), "[\\w]a");
    assert_eq!(remove_back_slashes(&"x[a\\]b]\\y".to_string()), "x[a\\]b]y");
    assert_eq!(remove_back_slashes(&"[\\a".to_string()), "[a");
    assert_eq!(remove_back_slashes(&"[]\\a".to_string()), "[]a");
}

#[test]
fn string_or_array_lists_its_patterns() {
    let one = StringOrArray::String("a".to_string());
    assert!(!one.is_array());
    assert_eq!(one.to_array(), vec!["a".to_string()]);
    let many = StringOrArray::Array(vec!["a".to_string(), "b".to_string()]);
    assert!(many.is_array());
    assert_eq!(many.to_array(), vec!["a".to_string(), "b".to_string()]);
    assert_eq!(StringOrArray::Array(vec![]).to_array(), Vec::<String>::new());
}

#[test]
fn glob_chars_of_both_platforms() {
    let posix = glob_chars(false);
    assert_eq!(posix.dot_literal, "\\.");
    assert_eq!(posix.plus_literal, "\\+");
    assert_eq!(posix.qmark_literal, "\\?");
    assert_eq!(posix.slash_literal, "\\/");
    assert_eq!(posix.one_char, "(?=.)");
    assert_eq!(posix.qmark, "[^/]");
    assert_eq!(posix.end_anchor, "(?:\\/|$)");
    assert_eq!(posix.start_anchor, "(?:^|\\/)");
    assert_eq!(posix.dots_slash, "\\.{1,2}(?:\\/|$)");
    assert_eq!(posix.no_dot, "(?!\\.)");
    assert_eq!(posix.no_dots, "(?!^(?:^|\\/)(?:\\.{1,2}(?:\\/|$)))");
    assert_eq!(posix.no_dot_slash, "(?!\\.{0,1}(?:\\/|$))");
    assert_eq!(posix.no_dots_slash, "(?!\\.{1,2}(?:\\/|$))");
    assert_eq!(posix.qmark_no_dot, "[^./]");
    assert_eq!(posix.star, "[^/]*?");
    assert_eq!(posix.sep, "/");
    let windows = glob_chars(true);
    assert_eq!(windows.dot_literal, "\\.");
    assert_eq!(windows.slash_literal, "[\\\\/]");
    assert_eq!(windows.qmark, "[^\\\\/]");
    assert_eq!(windows.star, "[^\\\\/]*?");
    assert_eq!(windows.dots_slash, "\\.{1,2}(?:[\\\\/]|$)");
    assert_eq!(windows.no_dot, "(?!\\.)");
    assert_eq!(windows.no_dots, "(?!(?:^|[\\\\/])\\.{1,2}(?:[\\\\/]|$))");
    assert_eq!(windows.no_dot_slash, "(?!\\.{0,1}(?:[\\\\/]|$))");
    assert_eq!(windows.no_dots_slash, "(?!\\.{1,2}(?:[\\\\/]|$))");
    assert_eq!(windows.qmark_no_dot, "[^.\\\\/]");
    assert_eq!(windows.start_anchor, "(?:^|[\\\\/])");
    assert_eq!(windows.end_anchor, "(?:[\\\\/]|$)");
    assert_eq!(windows.sep, "\\\\");
    assert_eq!(windows.one_char, "(?=.)");
}

#[test]
fn extglob_chars_of_each_lead() {
    let table = extglob_chars(&glob_chars(false));
    let negate = table.get('!').expect("an entry for !");
    assert_eq!(negate.char_type, "negate");
    assert_eq!(negate.open, "(?:(?!(?:");
    assert_eq!(negate.close, "))[^/]*?)");
    let qmark = table.get('?').expect("an entry for ?");
    assert_eq!((qmark.char_type, qmark.open, qmark.close.as_str()), ("qmark", "(?:", ")?"));
    let plus = table.get('+').expect("an entry for +");
    assert_eq!((plus.char_type, plus.open, plus.close.as_str()), ("plus", "(?:", ")+"));
    let star = table.get('*').expect("an entry for *");
    assert_eq!((star.char_type, star.open, star.close.as_str()), ("star", "(?:", ")*"));
    let at = table.get('@').expect("an entry for @");
    assert_eq!((at.char_type, at.open, at.close.as_str()), ("at", "(?:", ")"));
    assert!(table.get('a').is_none());
    let windows = extglob_chars(&glob_chars(true));
    assert_eq!(windows.negate.close, "))[^\\\\/]*?)");
}

#[test]
fn whole_patterns_that_are_replaced() {
    let chars = |s: &str| s.chars().collect::<Vec<char>>();
    assert_eq!(replacement(&chars("***")), Some("*"));
    assert_eq!(replacement(&chars("**/**")), Some("**"));
    assert_eq!(replacement(&chars("**/**/**")), Some("**"));
    assert_eq!(replacement(&chars("**")), None);
    assert_eq!(replacement(&chars("a/***")), None);
    assert_eq!(MAX_LENGTH, 65536);
}

#[test]
fn posix_classes_by_name() {
    let chars = |s: &str| s.chars().collect::<Vec<char>>();
    assert_eq!(posix_regex_source(&chars("alnum")), Some("a-zA-Z0-9"));
    assert_eq!(posix_regex_source(&chars("alpha")), Some("a-zA-Z"));
    assert_eq!(posix_regex_source(&chars("ascii")), Some("\x00-\x7F"));
    assert_eq!(posix_regex_source(&chars("blank")), Some(" \t"));
    assert_eq!(posix_regex_source(&chars("cntrl")), Some("\x00-\x1F\x7F"));
    assert_eq!(posix_regex_source(&chars("digit")), Some("0-9"));
    assert_eq!(posix_regex_source(&chars("graph")), Some("\x21-\x7E"));
    assert_eq!(posix_regex_source(&chars("lower")), Some("a-z"));
    assert_eq!(posix_regex_source(&chars("print")), Some("\x20-\x7E "));
    assert_eq!(
        posix_regex_source(&chars("punct")),
        Some("\\-!\"#$%&'()\\*+,./:;<=>?@[\\]^_`{|}~")
    );
    assert_eq!(posix_regex_source(&chars("space")), Some("\\t\\r\\n\\v\\f"));
    assert_eq!(posix_regex_source(&chars("upper")), Some("A-Z"));
    assert_eq!(posix_regex_source(&chars("word")), Some("A-Za-z0-9_"));
    assert_eq!(posix_regex_source(&chars("xdigit")), Some("A-Fa-f0-9"));
    assert_eq!(posix_regex_source(&chars("other")), None);
}
