//! The character tables: for each platform the regex fragment that stands for
//! a piece of glob syntax, the POSIX character classes, and the patterns that
//! are replaced as a whole before anything else is done.

use vstd::prelude::*;
use crate::text::is_str;

verus! {

/// No pattern longer than this is parsed.
pub const MAX_LENGTH: usize = 65536;

/// The regex fragments of one platform.
#[derive(Clone, Copy, Debug)]
pub struct GlobChars {
    pub dot_literal: &'static str,
    pub plus_literal: &'static str,
    pub qmark_literal: &'static str,
    pub slash_literal: &'static str,
    pub one_char: &'static str,
    pub qmark: &'static str,
    pub end_anchor: &'static str,
    pub start_anchor: &'static str,
    pub dots_slash: &'static str,
    pub no_dot: &'static str,
    pub no_dots: &'static str,
    pub no_dot_slash: &'static str,
    pub no_dots_slash: &'static str,
    pub qmark_no_dot: &'static str,
    pub star: &'static str,
    pub sep: &'static str,
}

/// The fragments as contracts see them.
pub struct Fragments {
    pub dot_literal: Seq<char>,
    pub plus_literal: Seq<char>,
    pub qmark_literal: Seq<char>,
    pub slash_literal: Seq<char>,
    pub one_char: Seq<char>,
    pub qmark: Seq<char>,
    pub end_anchor: Seq<char>,
    pub start_anchor: Seq<char>,
    pub dots_slash: Seq<char>,
    pub no_dot: Seq<char>,
    pub no_dots: Seq<char>,
    pub no_dot_slash: Seq<char>,
    pub no_dots_slash: Seq<char>,
    pub qmark_no_dot: Seq<char>,
    pub star: Seq<char>,
    pub sep: Seq<char>,
}

impl View for GlobChars {
    type V = Fragments;

    open spec fn view(&self) -> Fragments {
        Fragments {
            dot_literal: self.dot_literal@,
            plus_literal: self.plus_literal@,
            qmark_literal: self.qmark_literal@,
            slash_literal: self.slash_literal@,
            one_char: self.one_char@,
            qmark: self.qmark@,
            end_anchor: self.end_anchor@,
            start_anchor: self.start_anchor@,
            dots_slash: self.dots_slash@,
            no_dot: self.no_dot@,
            no_dots: self.no_dots@,
            no_dot_slash: self.no_dot_slash@,
            no_dots_slash: self.no_dots_slash@,
            qmark_no_dot: self.qmark_no_dot@,
            star: self.star@,
            sep: self.sep@,
        }
    }
}

/// The fragments for paths that `/` separates.
pub open spec fn posix_fragments() -> Fragments {
    Fragments {
        dot_literal: "\\."@,
        plus_literal: "\\+"@,
        qmark_literal: "\\?"@,
        slash_literal: "\\/"@,
        one_char: "(?=.)"@,
        qmark: "[^/]"@,
        end_anchor: "(?:\\/|$)"@,
        start_anchor: "(?:^|\\/)"@,
        dots_slash: "\\.{1,2}(?:\\/|$)"@,
        no_dot: "(?!\\.)"@,
        no_dots: "(?!^(?:^|\\/)(?:\\.{1,2}(?:\\/|$)))"@,
        no_dot_slash: "(?!\\.{0,1}(?:\\/|$))"@,
        no_dots_slash: "(?!\\.{1,2}(?:\\/|$))"@,
        qmark_no_dot: "[^./]"@,
        star: "[^/]*?"@,
        sep: "/"@,
    }
}

/// The fragments for paths that `/` or `\` separates.
pub open spec fn windows_fragments() -> Fragments {
    Fragments {
        dot_literal: "\\."@,
        plus_literal: "\\+"@,
        qmark_literal: "\\?"@,
        slash_literal: "[\\\\/]"@,
        one_char: "(?=.)"@,
        qmark: "[^\\\\/]"@,
        end_anchor: "(?:[\\\\/]|$)"@,
        start_anchor: "(?:^|[\\\\/])"@,
        dots_slash: "\\.{1,2}(?:[\\\\/]|$)"@,
        no_dot: "(?!\\.)"@,
        no_dots: "(?!(?:^|[\\\\/])\\.{1,2}(?:[\\\\/]|$))"@,
        no_dot_slash: "(?!\\.{0,1}(?:[\\\\/]|$))"@,
        no_dots_slash: "(?!\\.{1,2}(?:[\\\\/]|$))"@,
        qmark_no_dot: "[^.\\\\/]"@,
        star: "[^\\\\/]*?"@,
        sep: "\\\\"@,
    }
}

/// The table for paths that `/` separates.
pub fn posix_chars() -> (r: GlobChars)
    ensures
        r@ == posix_fragments(),
{
    GlobChars {
        dot_literal: "\\.",
        plus_literal: "\\+",
        qmark_literal: "\\?",
        slash_literal: "\\/",
        one_char: "(?=.)",
        qmark: "[^/]",
        end_anchor: "(?:\\/|$)",
        start_anchor: "(?:^|\\/)",
        dots_slash: "\\.{1,2}(?:\\/|$)",
        no_dot: "(?!\\.)",
        no_dots: "(?!^(?:^|\\/)(?:\\.{1,2}(?:\\/|$)))",
        no_dot_slash: "(?!\\.{0,1}(?:\\/|$))",
        no_dots_slash: "(?!\\.{1,2}(?:\\/|$))",
        qmark_no_dot: "[^./]",
        star: "[^/]*?",
        sep: "/",
    }
}

/// The table for paths that `/` or `\` separates.
pub fn windows_chars() -> (r: GlobChars)
    ensures
        r@ == windows_fragments(),
{
    GlobChars {
        dot_literal: "\\.",
        plus_literal: "\\+",
        qmark_literal: "\\?",
        slash_literal: "[\\\\/]",
        one_char: "(?=.)",
        qmark: "[^\\\\/]",
        end_anchor: "(?:[\\\\/]|$)",
        start_anchor: "(?:^|[\\\\/])",
        dots_slash: "\\.{1,2}(?:[\\\\/]|$)",
        no_dot: "(?!\\.)",
        no_dots: "(?!(?:^|[\\\\/])\\.{1,2}(?:[\\\\/]|$))",
        no_dot_slash: "(?!\\.{0,1}(?:[\\\\/]|$))",
        no_dots_slash: "(?!\\.{1,2}(?:[\\\\/]|$))",
        qmark_no_dot: "[^.\\\\/]",
        star: "[^\\\\/]*?",
        sep: "\\\\",
    }
}

/// The pattern that stands in for `p` as a whole: a few patterns of stars
/// have a shorter equal; any other pattern stands for itself.
pub open spec fn replaced(p: Seq<char>) -> Seq<char> {
    if p == "***"@ {
        "*"@
    } else if p == "**/**"@ {
        "**"@
    } else if p == "**/**/**"@ {
        "**"@
    } else {
        p
    }
}

/// The replacement of `p`, if it has one.
pub fn replacement(p: &Vec<char>) -> (r: Option<&'static str>)
    ensures
        match r {
            Some(s) => s@ == replaced(p@) && replaced(p@) != p@,
            None => replaced(p@) == p@,
        },
{
    proof {
        reveal_strlit("***");
        reveal_strlit("**/**");
        reveal_strlit("**/**/**");
        reveal_strlit("*");
        reveal_strlit("**");
    }
    if is_str(p, "***") {
        Some("*")
    } else if is_str(p, "**/**") {
        Some("**")
    } else if is_str(p, "**/**/**") {
        Some("**")
    } else {
        None
    }
}

/// The body of the character class that the POSIX class `name` stands for.
pub open spec fn posix_class(name: Seq<char>) -> Option<Seq<char>> {
    if name == "alnum"@ {
        Some("a-zA-Z0-9"@)
    } else if name == "alpha"@ {
        Some("a-zA-Z"@)
    } else if name == "ascii"@ {
        Some("\x00-\x7F"@)
    } else if name == "blank"@ {
        Some(" \t"@)
    } else if name == "cntrl"@ {
        Some("\x00-\x1F\x7F"@)
    } else if name == "digit"@ {
        Some("0-9"@)
    } else if name == "graph"@ {
        Some("\x21-\x7E"@)
    } else if name == "lower"@ {
        Some("a-z"@)
    } else if name == "print"@ {
        Some("\x20-\x7E "@)
    } else if name == "punct"@ {
        Some("\\-!\"#$%&'()\\*+,./:;<=>?@[\\]^_`{|}~"@)
    } else if name == "space"@ {
        Some("\\t\\r\\n\\v\\f"@)
    } else if name == "upper"@ {
        Some("A-Z"@)
    } else if name == "word"@ {
        Some("A-Za-z0-9_"@)
    } else if name == "xdigit"@ {
        Some("A-Fa-f0-9"@)
    } else {
        None
    }
}

/// The body of the character class that the POSIX class `name` stands for,
/// if there is a class of that name.
pub fn posix_regex_source(name: &Vec<char>) -> (r: Option<&'static str>)
    ensures
        match r {
            Some(s) => posix_class(name@) == Some(s@),
            None => posix_class(name@) is None,
        },
{
    if is_str(name, "alnum") {
        Some("a-zA-Z0-9")
    } else if is_str(name, "alpha") {
        Some("a-zA-Z")
    } else if is_str(name, "ascii") {
        Some("\x00-\x7F")
    } else if is_str(name, "blank") {
        Some(" \t")
    } else if is_str(name, "cntrl") {
        Some("\x00-\x1F\x7F")
    } else if is_str(name, "digit") {
        Some("0-9")
    } else if is_str(name, "graph") {
        Some("\x21-\x7E")
    } else if is_str(name, "lower") {
        Some("a-z")
    } else if is_str(name, "print") {
        Some("\x20-\x7E ")
    } else if is_str(name, "punct") {
        Some("\\-!\"#$%&'()\\*+,./:;<=>?@[\\]^_`{|}~")
    } else if is_str(name, "space") {
        Some("\\t\\r\\n\\v\\f")
    } else if is_str(name, "upper") {
        Some("A-Z")
    } else if is_str(name, "word") {
        Some("A-Za-z0-9_")
    } else if is_str(name, "xdigit") {
        Some("A-Fa-f0-9")
    } else {
        None
    }
}

} // verus!
