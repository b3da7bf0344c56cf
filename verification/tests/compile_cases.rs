use picomatch::parse::{fast_paths, parse, ParseOptions, PatternError};
use picomatch::picomatch::{assemble, compile, make_re, picomatch, regex_for, Picomatch, RegexOptions};
use picomatch::types::{CompileReResult, CompileReReturn, Compiled, PicomatchGlob, PicomatchOptions, State};

fn matcher(result: CompileReReturn) -> CompileReResult {
    match result {
        CompileReReturn::CompileReResult(m) => m,
        CompileReReturn::String(s) => panic!("a matcher was asked for, not {}", s),
    }
}

fn state(output: &str, negated: bool) -> State {
    State {
        output: output.to_string(),
        negated,
    }
}

#[test]
fn source_is_anchored_unless_contains() {
    assert_eq!(assemble("foo", false, false), "^(?:foo)$");
    assert_eq!(assemble("foo", false, true), "(?:foo)");
    assert_eq!(assemble("", false, false), "^(?:)$");
}

#[test]
fn negated_source_wraps_the_plain_one() {
    assert_eq!(assemble("foo", true, false), "^(?!^(?:foo)$).*$");
    assert_eq!(assemble("foo", true, true), "^(?!(?:foo)).*$");
    for output in ["", "a", "a|b", "[^/]*?"] {
        for contains in [false, true] {
            assert_eq!(
                assemble(output, true, contains),
                format!("^(?!{}).*$", assemble(output, false, contains))
            );
        }
    }
}

#[test]
fn compiled_matcher_tests_paths() {
    let m = matcher(compile(state("foo\\.txt", false), false, false, false, false, false));
    assert!(m.regex.is_ok());
    assert!(!m.is_degraded());
    assert!(m.test("foo.txt"));
    assert!(!m.test("fooxtxt"));
    assert!(!m.test("a/foo.txt"));
    assert!(!m.test("FOO.TXT"));
    assert!(m.state.is_none());
}

#[test]
fn compiled_matcher_keeps_its_source() {
    match regex_for("^(?:a|b)$", false, false) {
        Ok(Compiled::Regex(m)) => {
            assert_eq!(m.source_string(), "^(?:a|b)$");
            assert!(m.test("a"));
            assert!(!m.test("c"));
        }
        _ => panic!("the source compiles"),
    }
}

#[test]
fn compiled_pattern_shows_its_source() {
    match regex_for("^(?:a)$", true, false) {
        Ok(c) => assert_eq!(c.source(), Some("^(?:a)$".to_string())),
        Err(_) => panic!("the source compiles"),
    }
    match regex_for("(", false, false) {
        Ok(c) => assert_eq!(c.source(), None),
        Err(_) => panic!("the failure is not handed on"),
    }
}

#[test]
fn nocase_and_contains() {
    let m = matcher(compile(state("foo", false), false, true, false, false, false));
    assert!(m.test("FoO"));
    let m = matcher(compile(state("foo", false), true, false, false, false, false));
    assert!(m.test("a/foo/b"));
    assert!(!m.test("a/fo/b"));
}

#[test]
fn source_that_does_not_compile_degrades() {
    let m = matcher(compile(state("(", false), false, false, false, false, false));
    assert!(m.is_degraded());
    assert!(m.regex.is_ok());
    assert!(!m.test("("));
    assert!(!m.test(""));
    assert!(!m.test("anything"));
}

#[test]
fn source_with_a_lookahead_degrades() {
    let m = matcher(compile(state("(?!a)b", false), false, false, false, false, false));
    assert!(m.is_degraded());
    assert!(!m.test("b"));
    let star = matcher(
        make_re(&"*.js".to_string(), &PicomatchOptions::default(), None, None).unwrap(),
    );
    assert!(star.is_degraded());
    assert!(!star.test("a.js"));
}

#[test]
fn debug_hands_the_error_on() {
    let m = matcher(compile(state("(", false), false, false, true, false, false));
    assert!(m.regex.is_err());
    assert!(!m.is_degraded());
    assert!(!m.test("("));
}

#[test]
fn to_regex_goes_by_its_options() {
    let p = Picomatch {};
    assert!(matches!(p.to_regex("a", None), Ok(Compiled::Regex(_))));
    assert!(matches!(p.to_regex("(", None), Ok(Compiled::Never)));
    let debug = RegexOptions {
        nocase: None,
        debug: Some(true),
    };
    assert!(p.to_regex("(", Some(&debug)).is_err());
    let nocase = RegexOptions {
        nocase: Some(true),
        debug: None,
    };
    match p.to_regex("^a$", Some(&nocase)) {
        Ok(c) => assert!(c.test("A")),
        Err(_) => panic!("the source compiles"),
    }
    let plain = RegexOptions::default();
    assert_eq!((plain.nocase, plain.debug), (None, None));
    match p.to_regex("^a$", Some(&plain)) {
        Ok(c) => assert!(!c.test("A")),
        Err(_) => panic!("the source compiles"),
    }
}

#[test]
fn compile_re_hands_back_output_or_matcher() {
    let mut p = Picomatch {};
    let r = p.compile_re(
        Some(state("foo", true)),
        PicomatchOptions::default(),
        Some(true),
        None,
    );
    assert!(r.is_string());
    match r {
        CompileReReturn::String(s) => assert_eq!(s, "foo"),
        _ => panic!("the output was asked for"),
    }
    let r = p.compile_re(None, PicomatchOptions::default(), Some(true), None);
    match r {
        CompileReReturn::String(s) => assert_eq!(s, ""),
        _ => panic!("the output was asked for"),
    }
    let r = p.compile_re(
        Some(state("foo", false)),
        PicomatchOptions::default(),
        None,
        Some(true),
    );
    assert!(!r.is_string());
    let m = matcher(r);
    assert!(m.test("foo"));
    let kept = m.state.expect("the state was asked for");
    assert_eq!(kept.output, "foo");
    assert!(!kept.negated);
    let r = p.compile_re(
        Some(state("foo", false)),
        PicomatchOptions {
            contains: Some(true),
            nocase: Some(true),
            ..PicomatchOptions::default()
        },
        None,
        None,
    );
    let m = matcher(r);
    assert!(m.state.is_none());
    assert!(m.test("xFOOx"));
}

#[test]
fn make_re_rejects_the_empty_pattern() {
    let r = make_re(&"".to_string(), &PicomatchOptions::default(), None, None);
    assert_eq!(r.err(), Some(PatternError::Empty));
}

#[test]
fn make_re_rejects_a_pattern_that_is_too_long() {
    let r = make_re(&"a".repeat(65537), &PicomatchOptions::default(), None, None);
    assert_eq!(r.err(), Some(PatternError::TooLong(65536)));
    let fast = PicomatchOptions {
        fast_paths: Some(true),
        ..PicomatchOptions::default()
    };
    let long = format!(".*{}", "a".repeat(65536));
    assert_eq!(
        make_re(&long, &fast, None, None).err(),
        Some(PatternError::TooLong(65536))
    );
    assert!(make_re(&"a".repeat(65536), &fast, None, None).is_ok());
}

#[test]
fn make_re_takes_the_fast_path_where_it_may() {
    let fast = PicomatchOptions {
        fast_paths: Some(true),
        ..PicomatchOptions::default()
    };
    let slow = PicomatchOptions::default();
    let output = |pattern: &str, options: &PicomatchOptions| match make_re(
        &pattern.to_string(),
        options,
        Some(true),
        None,
    ) {
        Ok(CompileReReturn::String(s)) => s,
        _ => panic!("the output was asked for"),
    };
    assert_eq!(output(".*", &fast), "\\.(?=.)[^/]*?\\/?");
    assert_eq!(output(".*", &slow), "\\.(?!\\.{0,1}(?:\\/|$))(?=.)[^/]*?\\/?");
    assert_eq!(output("**", &fast), "(?!\\.)(?:(?:(?!(?:^|\\/)\\.).)*?)\\/?");
    assert_eq!(output("**", &slow), "(?:(?:(?!(?:^|\\/)\\.).)*?)");
    assert_eq!(output("*", &fast), output("*", &slow));
    assert_eq!(output(".foo", &fast), "\\.foo");
    assert_eq!(output("a*b", &fast), "a[^/]*?b");
}

#[test]
fn make_re_compiles_plain_patterns() {
    let r = make_re(
        &"src/main.rs".to_string(),
        &PicomatchOptions::default(),
        None,
        Some(true),
    );
    let m = matcher(r.unwrap());
    assert!(m.test("src/main.rs"));
    assert!(!m.test("src/mainxrs"));
    assert!(!m.test("src/main.rsx"));
    let kept = m.state.expect("the state was asked for");
    assert_eq!(kept.output, "src\\/main\\.rs");
    let nocase = PicomatchOptions {
        nocase: Some(true),
        ..PicomatchOptions::default()
    };
    let m = matcher(make_re(&"readme".to_string(), &nocase, None, None).unwrap());
    assert!(m.test("README"));
    let star = matcher(make_re(&"{a,b}".to_string(), &PicomatchOptions::default(), None, None).unwrap());
    assert!(star.test("a"));
    assert!(star.test("b"));
    assert!(!star.test("c"));
}

#[test]
fn picomatch_compiles_one_pattern_and_leaves_lists() {
    let o = PicomatchOptions::default();
    let one = picomatch(&PicomatchGlob::String("a.b".to_string()), &o)
        .unwrap()
        .expect("a matcher for one pattern");
    assert!(one.test("a.b"));
    assert!(!one.test("axb"));
    assert_eq!(one.state.map(|s| s.output), Some("a\\.b".to_string()));
    let list = PicomatchGlob::Array(vec!["a".to_string(), "b".to_string()]);
    assert!(list.is_array());
    assert_eq!(list.to_array(), vec!["a".to_string(), "b".to_string()]);
    assert!(picomatch(&list, &o).unwrap().is_none());
    let single = PicomatchGlob::String("a".to_string());
    assert!(!single.is_array());
    assert_eq!(single.to_array(), vec!["a".to_string()]);
    assert_eq!(
        picomatch(&PicomatchGlob::String("".to_string()), &o).err(),
        Some(PatternError::Empty)
    );
}

#[test]
fn to_parse_options_spells_every_switch_out() {
    let o = PicomatchOptions {
        prepend: Some("x".to_string()),
        windows: Some(true),
        capture: Some(true),
        dot: Some(true),
        noext: None,
        noextglob: Some(true),
        strict_slashes: Some(false),
        ..PicomatchOptions::default()
    };
    let p = o.to_parse_options();
    assert_eq!(p.max_length, None);
    assert_eq!(p.prepend, Some("x".to_string()));
    assert!(p.windows);
    assert_eq!(p.capture, Some(true));
    assert_eq!(p.dot, Some(false));
    assert_eq!(p.bash, Some(false));
    assert_eq!(p.noext, Some(false));
    assert_eq!(p.noextglob, Some(true));
    assert_eq!(p.noglobstar, Some(false));
    assert_eq!(p.strict_slashes, Some(false));
}

#[test]
fn fast_paths_and_parser_accept_the_same_samples() {
    let samples = [
        "", "a", "a.js", ".a", ".a.js", "a/b", "a/b.js", "a/.b", "a/b/c.md", ".", "..", "a/",
        "/a", "a.b.c",
    ];
    let o = ParseOptions::default();
    for shape in ["*", ".*", "*.*", "*/*", "**", "**/*", "**/.*", "*.js", "**/*.md"] {
        let fast = fast_paths(&shape.to_string(), &o).expect("a fast path");
        let slow = parse(shape, &o).unwrap();
        let a = matcher(compile(state(&fast, false), false, false, false, false, false));
        let b = matcher(compile(slow, false, false, false, false, false));
        for sample in samples {
            assert_eq!(a.test(sample), b.test(sample), "{} on {}", shape, sample);
        }
    }
}

#[test]
fn compiling_twice_gives_the_same() {
    let o = PicomatchOptions::default();
    let a = matcher(make_re(&"a/b.c".to_string(), &o, None, Some(true)).unwrap());
    let b = matcher(make_re(&"a/b.c".to_string(), &o, None, Some(true)).unwrap());
    for sample in ["a/b.c", "a/bxc", ""] {
        assert_eq!(a.test(sample), b.test(sample));
    }
    assert_eq!(a.state.map(|s| s.output), b.state.map(|s| s.output));
}
