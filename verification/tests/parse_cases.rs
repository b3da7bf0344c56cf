use picomatch::parse::{fast_paths, parse, ParseOptions, PatternError};

const GLOBSTAR: &str = "(?:(?:(?!(?:^|\\/)\\.).)*?)";

fn fast(pattern: &str, options: &ParseOptions) -> Option<String> {
    fast_paths(&pattern.to_string(), options)
}

fn output(pattern: &str, options: &ParseOptions) -> String {
    parse(pattern, options).expect("a pattern within the limit").output
}

#[test]
fn fast_path_of_each_shape() {
    let o = ParseOptions::default();
    assert_eq!(fast("*", &o), Some("(?!\\.)(?=.)[^/]*?\\/?".to_string()));
    assert_eq!(fast(".*", &o), Some("\\.(?=.)[^/]*?\\/?".to_string()));
    assert_eq!(fast("*.*", &o), Some("(?!\\.)[^/]*?\\.(?=.)[^/]*?\\/?".to_string()));
    assert_eq!(
        fast("*/*", &o),
        Some("(?!\\.)[^/]*?\\/(?=.)(?!\\.)[^/]*?\\/?".to_string())
    );
    assert_eq!(fast("**", &o), Some(format!("(?!\\.){}\\/?", GLOBSTAR)));
    assert_eq!(
        fast("**/*", &o),
        Some(format!("(?:(?!\\.){}\\/)?(?!\\.)(?=.)[^/]*?\\/?", GLOBSTAR))
    );
    assert_eq!(
        fast("**/.*", &o),
        Some(format!("(?:(?!\\.){}\\/)?\\.(?=.)[^/]*?\\/?", GLOBSTAR))
    );
}

#[test]
fn fast_path_of_a_name_with_extensions() {
    let o = ParseOptions::default();
    assert_eq!(fast("*.js", &o), Some("(?!\\.)(?=.)[^/]*?\\.js\\/?".to_string()));
    assert_eq!(
        fast("*.min.js", &o),
        Some("(?!\\.)(?=.)[^/]*?\\.min\\.js\\/?".to_string())
    );
    assert_eq!(
        fast("**/*.md", &o),
        Some(format!("(?:(?!\\.){}\\/)?(?!\\.)(?=.)[^/]*?\\.md\\/?", GLOBSTAR))
    );
}

#[test]
fn fast_path_declines_other_patterns() {
    let o = ParseOptions::default();
    assert_eq!(fast("foo", &o), None);
    assert_eq!(fast("foo.js", &o), None);
    assert_eq!(fast("a/*.js", &o), None);
    assert_eq!(fast("*.j-s", &o), None);
    assert_eq!(fast("", &o), None);
    assert_eq!(fast("*.", &o), None);
}

#[test]
fn fast_path_takes_the_prefix_and_the_replacement() {
    let o = ParseOptions::default();
    assert_eq!(fast("./*", &o), fast("*", &o));
    assert_eq!(fast("***", &o), fast("*", &o));
    assert_eq!(fast("**/**", &o), fast("**", &o));
    assert_eq!(fast("**/**/**", &o), fast("**", &o));
}

#[test]
fn fast_path_options() {
    let strict = ParseOptions {
        strict_slashes: Some(true),
        ..ParseOptions::default()
    };
    assert_eq!(fast("*", &strict), Some("(?!\\.)(?=.)[^/]*?".to_string()));
    let dot = ParseOptions {
        dot: Some(true),
        ..ParseOptions::default()
    };
    assert_eq!(
        fast("*", &dot),
        Some("(?!^(?:^|\\/)(?:\\.{1,2}(?:\\/|$)))(?=.)[^/]*?\\/?".to_string())
    );
    assert_eq!(
        fast("*/*", &dot),
        Some(
            "(?!^(?:^|\\/)(?:\\.{1,2}(?:\\/|$)))[^/]*?\\/(?=.)(?!\\.{1,2}(?:\\/|$))[^/]*?\\/?"
                .to_string()
        )
    );
    let capture = ParseOptions {
        capture: Some(true),
        ..ParseOptions::default()
    };
    assert_eq!(fast("*", &capture), Some("(?!\\.)(?=.)([^/]*?)\\/?".to_string()));
    assert_eq!(
        fast("**", &capture),
        Some("(?!\\.)((?:(?!(?:^|\\/)\\.).)*?)\\/?".to_string())
    );
    let bash = ParseOptions {
        bash: Some(true),
        ..ParseOptions::default()
    };
    assert_eq!(fast("*", &bash), Some("(?!\\.)(?=.).*?\\/?".to_string()));
    let noglobstar = ParseOptions {
        noglobstar: Some(true),
        ..ParseOptions::default()
    };
    assert_eq!(fast("**", &noglobstar), Some("(?!\\.)[^/]*?\\/?".to_string()));
    let windows = ParseOptions {
        windows: true,
        ..ParseOptions::default()
    };
    assert_eq!(fast("*", &windows), Some("(?!\\.)(?=.)[^\\\\/]*?[\\\\/]?".to_string()));
    assert_eq!(
        fast("**", &windows),
        Some("(?!\\.)(?:(?:(?!(?:^|[\\\\/])\\.).)*?)[\\\\/]?".to_string())
    );
}

#[test]
fn parse_plain_text() {
    let o = ParseOptions::default();
    assert_eq!(output("foo", &o), "foo");
    assert_eq!(output("foo/bar", &o), "foo\\/bar");
    assert_eq!(output("foo.txt", &o), "foo\\.txt");
    assert_eq!(output("a$b^c", &o), "a\\$b\\^c");
    assert_eq!(output("a+b", &o), "a\\+b");
    assert_eq!(output("a@b", &o), "a@b");
    assert_eq!(output("a!b", &o), "a!b");
    assert_eq!(output("", &o), "");
    assert_eq!(output("é", &o), "é");
}

#[test]
fn parse_stars() {
    let o = ParseOptions::default();
    assert_eq!(output("*", &o), "(?!\\.)(?=.)[^/]*?\\/?");
    assert_eq!(output("*.js", &o), "(?!\\.)(?=.)[^/]*?\\.js");
    assert_eq!(output("a*", &o), "a[^/]*?\\/?");
    assert_eq!(output("a/*", &o), "a\\/(?!\\.)(?=.)[^/]*?\\/?");
    assert_eq!(output(".*", &o), "\\.(?!\\.{0,1}(?:\\/|$))(?=.)[^/]*?\\/?");
    assert_eq!(output("a.*", &o), "a\\.[^/]*?\\/?");
}

#[test]
fn parse_globstars() {
    let o = ParseOptions::default();
    assert_eq!(output("**", &o), GLOBSTAR);
    assert_eq!(output("**/a", &o), format!("(?:^|\\/|{}\\/)a", GLOBSTAR));
    assert_eq!(output("a/**", &o), format!("a(?:\\/(?!\\.){}|$)", GLOBSTAR));
    assert_eq!(
        output("a/**/b", &o),
        format!("a(?:\\/(?!\\.){}\\/|\\/|$)b", GLOBSTAR)
    );
    assert_eq!(output("a/**/", &o), format!("a(?:\\/(?!\\.){}\\/|\\/)", GLOBSTAR));
    assert_eq!(output("/**", &o), format!("\\/(?!\\.){}", GLOBSTAR));
    let strict = ParseOptions {
        strict_slashes: Some(true),
        ..ParseOptions::default()
    };
    assert_eq!(output("a/**", &strict), format!("a(?:\\/(?!\\.){})", GLOBSTAR));
}

#[test]
fn parse_two_stars_within_a_segment_are_one() {
    let o = ParseOptions::default();
    assert_eq!(output("a**", &o), output("a*", &o));
    assert_eq!(output("a**b", &o), "a[^/]*?b");
    let noglobstar = ParseOptions {
        noglobstar: Some(true),
        ..ParseOptions::default()
    };
    assert_eq!(output("a/**", &noglobstar), "a\\/(?!\\.)[^/]*?\\/?");
}

#[test]
fn parse_globstar_before_text_turns_back_into_a_star() {
    let o = ParseOptions::default();
    assert_eq!(output("**a", &o), "(?!\\.)[^/]*?a");
    assert_eq!(output("a/***", &o), "a\\/(?!\\.)[^/]*?\\/?");
    assert_eq!(output("a/****", &o), "a\\/(?!\\.)[^/]*?\\/?");
}

#[test]
fn parse_question_marks() {
    let o = ParseOptions::default();
    assert_eq!(output("?", &o), "[^./]");
    assert_eq!(output("a?", &o), "a[^/]");
    assert_eq!(output("a/?", &o), "a\\/[^./]");
    let dot = ParseOptions {
        dot: Some(true),
        ..ParseOptions::default()
    };
    assert_eq!(output("?", &dot), "[^/]");
}

#[test]
fn parse_brackets_and_posix_classes() {
    let o = ParseOptions::default();
    assert_eq!(output("[abc]", &o), "[abc]\\/?");
    assert_eq!(output("[a-z]x", &o), "[a-z]x");
    assert_eq!(output("[[:alpha:]]", &o), "[a-zA-Z]\\/?");
    assert_eq!(output("[[:digit:][:upper:]]", &o), "[0-9A-Z]\\/?");
    assert_eq!(output("[[:nothing:]]", &o), "[\\[:nothing:]\\]");
    assert_eq!(output("[a[b]", &o), "[a\\[b]\\/?");
    assert_eq!(output("[a*?]", &o), "[a*?]\\/?");
}

#[test]
fn parse_groups_that_are_not_closed_are_text() {
    let o = ParseOptions::default();
    assert_eq!(output("[abc", &o), "\\[abc");
    assert_eq!(output("abc]", &o), "abc\\]");
    assert_eq!(output("(abc", &o), "\\(abc");
    assert_eq!(output("abc)", &o), "abc\\)");
    assert_eq!(output("{a,b", &o), "\\{a,b");
    assert_eq!(output("a,b}", &o), "a,b\\}");
    assert_eq!(output("@(abc", &o), "@\\(abc");
    assert_eq!(output("a/+(b", &o), "a\\/\\+\\(b");
}

#[test]
fn parse_braces_and_parentheses() {
    let o = ParseOptions::default();
    assert_eq!(output("{a,b}", &o), "(a|b)");
    assert_eq!(output("x{a,{b,c}}", &o), "x(a|(b|c))");
    assert_eq!(output("(a|b)", &o), "(a|b)");
    assert_eq!(output("a,b", &o), "a,b");
    assert_eq!(output("{a,(b,c)}", &o), "(a|(b,c))");
}

#[test]
fn parse_extglobs() {
    let o = ParseOptions::default();
    assert_eq!(output("@(a|b)", &o), "(?=.)(?:a|b)");
    assert_eq!(output("x@(a|b)", &o), "x(?:a|b)");
    assert_eq!(output("x?(a)", &o), "x(?:a)?");
    assert_eq!(output("x+(a)", &o), "x(?:a)+");
    assert_eq!(output("x*(a)", &o), "x(?:a)*");
    assert_eq!(output("x!(a)", &o), "x(?:(?!(?:a))[^/]*?)");
    assert_eq!(output("x@(a|+(b))", &o), "x(?:a|(?:b)+)");
    let capture = ParseOptions {
        capture: Some(true),
        ..ParseOptions::default()
    };
    assert_eq!(output("x@(a)", &capture), "x((?:a))");
    let off = ParseOptions {
        noextglob: Some(true),
        ..ParseOptions::default()
    };
    assert_eq!(output("x@(a)", &off), "x@(a)");
    let noext = ParseOptions {
        noext: Some(true),
        noextglob: Some(false),
        ..ParseOptions::default()
    };
    assert_eq!(output("x@(a)", &noext), "x@(a)");
    let ext = ParseOptions {
        noext: Some(false),
        noextglob: Some(true),
        ..ParseOptions::default()
    };
    assert_eq!(output("x@(a)", &ext), "x(?:a)");
}

#[test]
fn parse_escapes_and_quotes() {
    let o = ParseOptions::default();
    assert_eq!(output("a\\*b", &o), "a\\*b");
    assert_eq!(output("a\\", &o), "a\\\\");
    assert_eq!(output("\"a*b\"", &o), "a\\*b");
    assert_eq!(output("\"a.b\"c*", &o), "a\\.bc[^/]*?\\/?");
    assert_eq!(output("[\\]]", &o), "[\\]]\\/?");
}

#[test]
fn parse_negation() {
    let o = ParseOptions::default();
    let one = parse("!foo", &o).unwrap();
    assert!(one.negated);
    assert_eq!(one.output, "foo");
    let two = parse("!!foo", &o).unwrap();
    assert!(!two.negated);
    assert_eq!(two.output, "foo");
    let three = parse("!!!foo", &o).unwrap();
    assert!(three.negated);
    assert_eq!(three.output, "foo");
    let extglob = parse("!(foo)", &o).unwrap();
    assert!(!extglob.negated);
    assert_eq!(extglob.output, "(?=.)(?:(?!(?:foo))[^/]*?)");
    let both = parse("!!(foo)", &o).unwrap();
    assert!(both.negated);
    assert_eq!(both.output, "(?=.)(?:(?!(?:foo))[^/]*?)");
    let star = parse("!*.js", &o).unwrap();
    assert!(star.negated);
    assert_eq!(star.output, "(?!\\.)(?=.)[^/]*?\\.js");
    assert!(!parse("a!b", &o).unwrap().negated);
}

#[test]
fn parse_takes_the_prefix_the_replacement_and_the_seed() {
    let o = ParseOptions::default();
    assert_eq!(output("./foo", &o), "foo");
    assert_eq!(output("***", &o), output("*", &o));
    assert_eq!(output("**/**", &o), output("**", &o));
    let seeded = ParseOptions {
        prepend: Some("x".to_string()),
        ..ParseOptions::default()
    };
    assert_eq!(output("foo", &seeded), "xfoo");
    assert_eq!(output("*", &seeded), "x(?!\\.)(?=.)[^/]*?\\/?");
    assert_eq!(output("**", &seeded), format!("x{}", GLOBSTAR));
}

#[test]
fn parse_on_windows() {
    let windows = ParseOptions {
        windows: true,
        ..ParseOptions::default()
    };
    assert_eq!(output("a/*", &windows), "a[\\\\/](?!\\.)(?=.)[^\\\\/]*?[\\\\/]?");
    assert_eq!(output("?", &windows), "[^.\\\\/]");
}

#[test]
fn parse_with_bash_and_capture() {
    let bash = ParseOptions {
        bash: Some(true),
        ..ParseOptions::default()
    };
    assert_eq!(output("*", &bash), "(?!\\.).*?\\/?");
    assert_eq!(output("a*", &bash), "a.*?\\/?");
    let capture = ParseOptions {
        capture: Some(true),
        ..ParseOptions::default()
    };
    assert_eq!(output("a*", &capture), "a([^/]*?)\\/?");
}

#[test]
fn pattern_at_the_limit_is_parsed_and_one_over_is_not() {
    let limit = ParseOptions {
        max_length: Some(5),
        ..ParseOptions::default()
    };
    assert_eq!(output("abcde", &limit), "abcde");
    assert_eq!(parse("abcdef", &limit).err(), Some(PatternError::TooLong(5)));
    let o = ParseOptions::default();
    let at = "a".repeat(65536);
    assert_eq!(parse(&at, &o).unwrap().output.len(), 65536);
    let over = "a".repeat(65537);
    assert_eq!(parse(&over, &o).err(), Some(PatternError::TooLong(65536)));
    let wide = ParseOptions {
        max_length: Some(100000),
        ..ParseOptions::default()
    };
    assert_eq!(parse(&over, &wide).err(), Some(PatternError::TooLong(65536)));
}

#[test]
fn the_limit_counts_bytes_and_no_pattern_fits_a_negative_one() {
    let limit = ParseOptions {
        max_length: Some(3),
        ..ParseOptions::default()
    };
    assert_eq!(parse("éé", &limit).err(), Some(PatternError::TooLong(3)));
    assert_eq!(output("éa", &limit), "éa");
    let none = ParseOptions {
        max_length: Some(-1),
        ..ParseOptions::default()
    };
    assert_eq!(parse("", &none).err(), Some(PatternError::TooLong(-1)));
    let zero = ParseOptions {
        max_length: Some(0),
        ..ParseOptions::default()
    };
    assert_eq!(output("", &zero), "");
    assert_eq!(parse("a", &zero).err(), Some(PatternError::TooLong(0)));
}

#[test]
fn the_limit_holds_the_pattern_that_stands_in() {
    let limit = ParseOptions {
        max_length: Some(2),
        ..ParseOptions::default()
    };
    assert_eq!(output("**/**/**", &limit), GLOBSTAR);
    assert_eq!(parse("abc", &limit).err(), Some(PatternError::TooLong(2)));
}

#[test]
fn parsing_twice_gives_the_same() {
    let o = ParseOptions::default();
    let a = parse("./a/**/{b,c}/@(d|e)/*.js", &o).unwrap();
    let b = parse("./a/**/{b,c}/@(d|e)/*.js", &o).unwrap();
    assert_eq!(a.output, b.output);
    assert_eq!(a.negated, b.negated);
}

#[test]
fn errors_in_words() {
    assert_eq!(PatternError::Empty.message(), "Expected a non-empty string");
    assert_eq!(
        PatternError::TooLong(65536).message(),
        "Input is too long. Max length is 65536"
    );
    assert_eq!(PatternError::TooLong(0).message(), "Input is too long. Max length is 0");
    assert_eq!(PatternError::TooLong(7).message(), "Input is too long. Max length is 7");
    assert_eq!(PatternError::TooLong(-12).message(), "Input is too long. Max length is -12");
    assert_eq!(
        PatternError::TooLong(i32::MIN).message(),
        "Input is too long. Max length is -2147483648"
    );
    assert_eq!(
        PatternError::TooLong(i32::MAX).message(),
        "Input is too long. Max length is 2147483647"
    );
}
