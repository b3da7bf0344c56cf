use picomatch::scan::{Scan, ScanOptions, ScanState, Token};

fn scan(pattern: &str, options: ScanOptions) -> ScanState {
    Scan::new().scan(pattern.to_string(), options)
}

#[test]
fn plain_pattern_is_its_own_base() {
    let res = scan("foo/bar.txt", ScanOptions::default());
    assert!(!res.is_glob);
    assert_eq!(res.prefix, "");
    assert_eq!(res.base, "foo/bar.txt");
    assert_eq!(res.glob, "");
    assert_eq!(res.start, 0);
}

#[test]
fn plain_pattern_keeps_its_trailing_separator() {
    let res = scan("foo/", ScanOptions::default());
    assert!(!res.is_glob);
    assert_eq!(res.base, "foo/");
}

#[test]
fn plain_pattern_behind_a_prefix() {
    let res = scan("./foo/bar", ScanOptions::default());
    assert!(!res.is_glob);
    assert_eq!(res.prefix, "./");
    assert_eq!(res.start, 2);
    assert_eq!(res.base, "foo/bar");
    assert_eq!(format!("{}{}", res.prefix, res.base), "./foo/bar");
}

#[test]
fn leading_dot_slash_is_the_prefix() {
    for pattern in ["./", "./a", "./*.js", "./{a,b}", "./!(a)", "./.a/b"] {
        let res = scan(pattern, ScanOptions::default());
        assert_eq!(res.prefix, "./", "{}", pattern);
        assert_eq!(res.start, 2, "{}", pattern);
    }
}

#[test]
fn negation_and_a_second_prefix_move_the_start_on() {
    let res = scan("./!foo", ScanOptions::default());
    assert_eq!(res.start, 3);
    assert_eq!(res.prefix, "./!");
    assert!(res.negated);
    let res = scan("././foo", ScanOptions::default());
    assert_eq!(res.start, 4);
    assert_eq!(res.prefix, "././");
    assert_eq!(res.base, "foo");
    let res = scan(
        "./!foo",
        ScanOptions {
            nonegate: Some(true),
            ..ScanOptions::default()
        },
    );
    assert_eq!(res.start, 2);
    assert!(!res.negated);
}

#[test]
fn a_marker_at_the_end_is_read_without_a_next_character() {
    let res = scan("*", ScanOptions::default());
    assert!(res.is_glob);
    assert_eq!(res.base, "");
    assert_eq!(res.glob, "*");
    let res = scan("foo/?", ScanOptions::default());
    assert!(res.is_glob);
    assert_eq!(res.base, "foo");
    assert_eq!(res.glob, "?");
    let res = scan("foo!", ScanOptions::default());
    assert!(!res.is_glob);
    assert_eq!(res.base, "foo!");
}

#[test]
fn a_backslash_at_the_end_escapes_nothing() {
    let res = scan("foo\\", ScanOptions::default());
    assert!(!res.is_glob);
    assert_eq!(res.base, "foo\\");
}

#[test]
fn an_escaped_marker_is_no_marker() {
    let res = scan("foo/\\*.js", ScanOptions::default());
    assert!(!res.is_glob);
    assert_eq!(res.base, "foo/\\*.js");
    let res = scan("foo/\\{a,b}/*.js", ScanOptions::default());
    assert!(!res.is_brace);
    assert!(res.is_glob);
    assert_eq!(res.base, "foo/\\{a,b}");
    assert_eq!(res.glob, "*.js");
}

#[test]
fn leading_exclamation_mark_negates() {
    let res = scan("!foo/*.js", ScanOptions::default());
    assert!(res.negated);
    assert!(!res.negated_extglob);
    assert_eq!(res.start, 1);
    assert_eq!(res.prefix, "!");
    assert_eq!(res.base, "foo");
    assert_eq!(res.glob, "*.js");
}

#[test]
fn negated_extglob_at_the_start() {
    let res = scan("!(foo)/*.js", ScanOptions::default());
    assert!(!res.negated);
    assert!(res.negated_extglob);
    assert!(res.is_ext_glob);
    assert!(res.is_glob);
    assert_eq!(res.base, "");
    assert_eq!(res.glob, "!(foo)/*.js");
    let res = scan("foo/!(bar)", ScanOptions::default());
    assert!(!res.negated_extglob);
    assert!(res.is_ext_glob);
}

#[test]
fn brackets_need_their_closing_bracket() {
    let res = scan("foo/[a-z]/x", ScanOptions::default());
    assert!(res.is_bracket);
    assert!(res.is_glob);
    assert_eq!(res.base, "foo");
    assert_eq!(res.glob, "[a-z]/x");
    let res = scan("foo/[a-z", ScanOptions::default());
    assert!(!res.is_bracket);
    assert!(!res.is_glob);
    assert_eq!(res.base, "foo/[a-z");
    let res = scan("foo/[a\\]z", ScanOptions::default());
    assert!(!res.is_bracket);
}

#[test]
fn braces_need_a_comma_or_two_dots() {
    let res = scan("foo/{a}/x", ScanOptions::default());
    assert!(res.is_brace);
    assert!(!res.is_glob);
    assert_eq!(res.base, "foo/{a}/x");
    let res = scan("foo/{1..3}/x", ScanOptions::default());
    assert!(res.is_brace);
    assert!(res.is_glob);
    assert_eq!(res.base, "foo");
    assert_eq!(res.glob, "{1..3}/x");
    let res = scan("foo/{a/x", ScanOptions::default());
    assert!(!res.is_brace);
    assert!(!res.is_glob);
}

#[test]
fn plain_group_is_a_glob_unless_switched_off() {
    let res = scan("foo/(a|b)/x", ScanOptions::default());
    assert!(res.is_glob);
    assert!(!res.is_ext_glob);
    assert_eq!(res.base, "foo");
    assert_eq!(res.glob, "(a|b)/x");
    let res = scan(
        "foo/(a|b)/x",
        ScanOptions {
            noparen: Some(true),
            ..ScanOptions::default()
        },
    );
    assert!(!res.is_glob);
    assert_eq!(res.base, "foo/(a|b)/x");
}

#[test]
fn noext_clears_the_glob_marks() {
    let res = scan(
        "foo/@(a)/*.js",
        ScanOptions {
            noext: Some(true),
            ..ScanOptions::default()
        },
    );
    assert!(!res.is_ext_glob);
    assert!(!res.is_glob);
    assert_eq!(res.base, "foo/@(a)/*.js");
    assert_eq!(res.glob, "");
}

#[test]
fn unescape_removes_the_backslashes() {
    let res = scan(
        "foo\\ bar/\\a*.js",
        ScanOptions {
            unescape: Some(true),
            ..ScanOptions::default()
        },
    );
    assert_eq!(res.base, "foo bar");
    assert_eq!(res.glob, "a*.js");
    let res = scan("foo\\ bar/\\a*.js", ScanOptions::default());
    assert_eq!(res.base, "foo\\ bar");
    assert_eq!(res.glob, "\\a*.js");
}

#[test]
fn the_base_loses_one_separator() {
    let res = scan("foo//*.js", ScanOptions::default());
    assert_eq!(res.base, "foo/");
    assert_eq!(res.glob, "*.js");
    let res = scan("/*.js", ScanOptions::default());
    assert_eq!(res.base, "/");
    assert_eq!(res.glob, "*.js");
}

#[test]
fn prefix_base_and_glob_make_up_the_pattern() {
    for pattern in [
        "",
        "foo",
        "foo/*.js",
        "./foo/bar/**/*.js",
        "!foo/{a,b}/c",
        "a/b/c/[x-z]",
        "foo//*",
        "/*",
        "\\*",
        "é/ü/*.ß",
    ] {
        for to_end in [false, true] {
            let res = scan(
                pattern,
                ScanOptions {
                    scan_to_end: Some(to_end),
                    ..ScanOptions::default()
                },
            );
            let joined = format!("{}{}{}", res.prefix, res.base, res.glob);
            let with_slash = format!("{}{}/{}", res.prefix, res.base, res.glob);
            assert!(joined == pattern || with_slash == pattern, "{}", pattern);
            assert_eq!(res.input, pattern);
        }
    }
}

#[test]
fn parts_without_separators_are_none() {
    let res = scan(
        "foo",
        ScanOptions {
            parts: Some(true),
            ..ScanOptions::default()
        },
    );
    assert_eq!(res.slashes, Some(vec![]));
    assert_eq!(res.parts, Some(vec![]));
}

#[test]
fn parts_of_an_absolute_pattern() {
    let res = scan(
        "/foo/bar",
        ScanOptions {
            parts: Some(true),
            ..ScanOptions::default()
        },
    );
    assert_eq!(res.slashes, Some(vec![0, 4]));
    assert_eq!(res.parts, Some(vec!["foo".to_string(), "bar".to_string()]));
}

#[test]
fn tokens_hold_the_segments() {
    let res = scan(
        "./foo/*.js",
        ScanOptions {
            tokens: Some(true),
            ..ScanOptions::default()
        },
    );
    assert_eq!(res.max_depth, Some(0));
    assert_eq!(res.slashes, Some(vec![1, 5]));
    assert_eq!(res.parts, Some(vec!["foo".to_string(), "*.js".to_string()]));
    let expected = vec![
        Token {
            value: "./".to_string(),
            is_prefix: Some(true),
            ..Token::default()
        },
        Token {
            value: "foo".to_string(),
            ..Token::default()
        },
        Token {
            value: "*.js".to_string(),
            is_glob: true,
            ..Token::default()
        },
    ];
    assert_eq!(res.tokens, Some(expected));
}

#[test]
fn token_depth_counts_open_braces() {
    let res = scan(
        "a/{b,{c",
        ScanOptions {
            tokens: Some(true),
            scan_to_end: Some(true),
            ..ScanOptions::default()
        },
    );
    let tokens = res.tokens.expect("tokens were asked for");
    assert_eq!(tokens.len(), 2);
    assert_eq!(tokens[0].depth, 0);
    assert_eq!(tokens[1].depth, 2);
    assert!(tokens[1].is_brace);
    assert_eq!(res.max_depth, Some(2));
}

#[test]
fn scanning_twice_gives_the_same() {
    let options = ScanOptions {
        tokens: Some(true),
        parts: Some(true),
        ..ScanOptions::default()
    };
    let a = scan("./foo/@(bar)/**/*.js", options);
    let b = scan("./foo/@(bar)/**/*.js", options);
    assert_eq!(a, b);
}

#[test]
fn globstar_needs_two_stars_in_a_row() {
    let to_end = ScanOptions {
        scan_to_end: Some(true),
        ..ScanOptions::default()
    };
    assert!(scan("a/**/b", to_end).is_glob_star);
    assert!(!scan("a/*/b/*", to_end).is_glob_star);
    assert!(!scan("a/**/b", ScanOptions::default()).is_glob_star);
}

#[test]
fn separators_are_given_as_byte_offsets() {
    let res = scan(
        "é/ü/*.js",
        ScanOptions {
            parts: Some(true),
            ..ScanOptions::default()
        },
    );
    assert_eq!(res.slashes, Some(vec![2, 5]));
    assert_eq!(
        res.parts,
        Some(vec!["é".to_string(), "ü".to_string(), "*.js".to_string()])
    );
    assert_eq!(res.base, "é/ü");
    assert_eq!(res.glob, "*.js");
    for at in res.slashes.unwrap() {
        assert_eq!(&res.input[at..at + 1], "/");
    }
    let res = scan(
        "a/日本/€/😀/x",
        ScanOptions {
            parts: Some(true),
            ..ScanOptions::default()
        },
    );
    assert_eq!(res.slashes, Some(vec![1, 8, 12, 17]));
    assert_eq!(
        res.parts,
        Some(vec![
            "a".to_string(),
            "日本".to_string(),
            "€".to_string(),
            "😀".to_string(),
            "x".to_string()
        ])
    );
}

#[test]
fn the_start_is_a_byte_offset() {
    let res = scan("./é/*.js", ScanOptions::default());
    assert_eq!(res.start, 2);
    assert_eq!(res.prefix, "./");
    assert_eq!(&res.input[res.start..], "é/*.js");
    let res = scan("!é", ScanOptions::default());
    assert_eq!(res.start, 1);
    assert_eq!(&res.input[res.start..], "é");
}
