//! The fast paths and the parser: both turn a glob pattern into the source
//! of a regular expression.

use vstd::prelude::*;
use vstd::utf8::encode_utf8;
use crate::constants::{
    posix_fragments, replaced, replacement, windows_fragments, Fragments, GlobChars, MAX_LENGTH,
};
use crate::matcher::{group_texts, regex_captures, regex_compiles, Matcher};
use crate::scan::{is_on};
use crate::scan_model::{on};
use crate::text::{chars_of, is_str, push_all, push_between, push_str, string_of};
use crate::parse_model::{
    read, beginning, first_star, parsed, parser_input, parser_prefix, run, seed, star_lead, step,
    syntax,
};
use crate::parse_state::{Grammar, ParseState};
use crate::types::State;
use crate::utils::{glob_chars, option_text, remove_prefix, without_prefix, HasPrefix};

verus! {

/// The options of the fast paths and of the parser.
#[derive(Clone, Debug, Default)]
pub struct ParseOptions {
    pub max_length: Option<i32>,
    pub prepend: Option<String>,
    pub windows: bool,
    pub capture: Option<bool>,
    pub dot: Option<bool>,
    pub bash: Option<bool>,
    pub noext: Option<bool>,
    pub noextglob: Option<bool>,
    pub noglobstar: Option<bool>,
    pub strict_slashes: Option<bool>,
}

/// Why a pattern is rejected.
#[derive(Clone, Copy, Debug, PartialEq, Eq)]
pub enum PatternError {
    /// The pattern is empty.
    Empty,
    /// The pattern has more bytes than the limit, which is given.
    TooLong(i32),
}

/// The character of the digit `d`.
pub open spec fn digit(d: int) -> char {
    if d == 0 {
        '0'
    } else if d == 1 {
        '1'
    } else if d == 2 {
        '2'
    } else if d == 3 {
        '3'
    } else if d == 4 {
        '4'
    } else if d == 5 {
        '5'
    } else if d == 6 {
        '6'
    } else if d == 7 {
        '7'
    } else if d == 8 {
        '8'
    } else {
        '9'
    }
}

/// The digits of `n` in base ten.
pub open spec fn digits(n: nat) -> Seq<char>
    decreases n,
{
    if n < 10 {
        seq![digit(n as int)]
    } else {
        digits(n / 10).push(digit((n % 10) as int))
    }
}

/// `n` written in base ten.
pub open spec fn decimal(n: int) -> Seq<char> {
    if n < 0 {
        seq!['-'] + digits((-n) as nat)
    } else {
        digits(n as nat)
    }
}

/// What an error says.
pub open spec fn message_of(e: PatternError) -> Seq<char> {
    match e {
        PatternError::Empty => "Expected a non-empty string"@,
        PatternError::TooLong(max) => "Input is too long. Max length is "@ + decimal(max as int),
    }
}

fn digit_char(d: u64) -> (c: char)
    requires
        d < 10,
    ensures
        c == digit(d as int),
{
    if d == 0 {
        '0'
    } else if d == 1 {
        '1'
    } else if d == 2 {
        '2'
    } else if d == 3 {
        '3'
    } else if d == 4 {
        '4'
    } else if d == 5 {
        '5'
    } else if d == 6 {
        '6'
    } else if d == 7 {
        '7'
    } else if d == 8 {
        '8'
    } else {
        '9'
    }
}

/// Writes the digits of `n` behind `out`.
fn push_digits(out: &mut Vec<char>, n: u64)
    ensures
        final(out)@ == old(out)@ + digits(n as nat),
    decreases n,
{
    if n < 10 {
        out.push(digit_char(n));
        assert(out@ =~= old(out)@ + digits(n as nat));
    } else {
        push_digits(out, n / 10);
        out.push(digit_char(n % 10));
        assert(out@ =~= old(out)@ + digits(n as nat));
    }
}

impl PatternError {
    /// The error in words.
    pub fn message(&self) -> (r: String)
        ensures
            r@ == message_of(*self),
    {
        match self {
            PatternError::Empty => String::from_str("Expected a non-empty string"),
            PatternError::TooLong(max) => {
                let mut out: Vec<char> = Vec::new();
                push_str(&mut out, "Input is too long. Max length is ");
                let ghost head = out@;
                let m: i64 = *max as i64;
                if m < 0 {
                    out.push('-');
                    push_digits(&mut out, (-m) as u64);
                    assert(out@ =~= head + (seq!['-'] + digits((-m) as nat)));
                } else {
                    push_digits(&mut out, m as u64);
                }
                string_of(&out)
            },
        }
    }
}

/// The length that a pattern is held to: its bytes in UTF-8.
pub open spec fn byte_length(p: Seq<char>) -> nat {
    encode_utf8(p).len()
}

/// The greatest length that the options allow: the smaller of the crate's
/// limit and their own.
pub open spec fn length_limit(max_length: Option<i32>) -> int {
    match max_length {
        Some(m) => if m < MAX_LENGTH {
            m as int
        } else {
            MAX_LENGTH as int
        },
        None => MAX_LENGTH as int,
    }
}

/// The greatest length in bytes that the options allow.
pub fn max_bytes(max_length: Option<i32>) -> (m: i32)
    ensures
        m == length_limit(max_length),
{
    match max_length {
        Some(m) => if m < 65536 {
            m
        } else {
            65536
        },
        None => 65536,
    }
}

/// Whether a text of `len` bytes is over the limit.
pub fn over_limit(len: usize, max_length: Option<i32>) -> (b: bool)
    ensures
        b == (len > length_limit(max_length)),
{
    let m = max_bytes(max_length);
    m < 0 || len > m as usize
}

/// The fragments of the platform that the options name.
pub open spec fn fragments(o: ParseOptions) -> Fragments {
    if o.windows {
        windows_fragments()
    } else {
        posix_fragments()
    }
}

/// What follows the `(` of a group: nothing where groups capture, else the
/// mark of a group that does not.
pub open spec fn capture_mark(o: ParseOptions) -> Seq<char> {
    if on(o.capture) {
        ""@
    } else {
        "?:"@
    }
}

/// The source of a globstar: any run of characters in which no segment
/// starts with a dot, or, where dots are allowed, none is `.` or `..`.
pub open spec fn globstar_source(o: ParseOptions) -> Seq<char> {
    let t = fragments(o);
    "("@ + capture_mark(o) + "(?:(?!"@ + t.start_anchor + (if on(o.dot) {
        t.dots_slash
    } else {
        t.dot_literal
    }) + ").)*?)"@
}

/// `s` in brackets if groups capture, else `s`.
pub open spec fn captured(o: ParseOptions, s: Seq<char>) -> Seq<char> {
    if on(o.capture) {
        "("@ + s + ")"@
    } else {
        s
    }
}

/// The source of a star in a fast path.
pub open spec fn fast_star(o: ParseOptions) -> Seq<char> {
    captured(
        o,
        if on(o.bash) {
            ".*?"@
        } else {
            fragments(o).star
        },
    )
}

/// The source of a globstar in a fast path: a star where globstars are off.
pub open spec fn fast_globstar(o: ParseOptions) -> Seq<char> {
    if on(o.noglobstar) {
        fast_star(o)
    } else {
        globstar_source(o)
    }
}

/// What keeps a fast path from matching a leading dot.
pub open spec fn fast_no_dot(o: ParseOptions) -> Seq<char> {
    if on(o.dot) {
        fragments(o).no_dots
    } else {
        fragments(o).no_dot
    }
}

/// The same after a separator.
pub open spec fn fast_slash_dot(o: ParseOptions) -> Seq<char> {
    if on(o.dot) {
        fragments(o).no_dots_slash
    } else {
        fragments(o).no_dot
    }
}

/// The source of `s` if `s` is one of the seven shapes that have a source
/// ready made.
pub open spec fn shape_source(o: ParseOptions, s: Seq<char>) -> Option<Seq<char>> {
    let t = fragments(o);
    let nodot = fast_no_dot(o);
    let slash_dot = fast_slash_dot(o);
    let star = fast_star(o);
    let globstar = fast_globstar(o);
    if s == "*"@ {
        Some(nodot + t.one_char + star)
    } else if s == ".*"@ {
        Some(t.dot_literal + t.one_char + star)
    } else if s == "*.*"@ {
        Some(nodot + star + t.dot_literal + t.one_char + star)
    } else if s == "*/*"@ {
        Some(nodot + star + t.slash_literal + t.one_char + slash_dot + star)
    } else if s == "**"@ {
        Some(nodot + globstar)
    } else if s == "**/*"@ {
        Some("(?:"@ + nodot + globstar + t.slash_literal + ")?"@ + slash_dot + t.one_char + star)
    } else if s == "**/.*"@ {
        Some("(?:"@ + nodot + globstar + t.slash_literal + ")?"@ + t.dot_literal + t.one_char + star)
    } else {
        None
    }
}

/// The regex that tells a name from its extension.
pub open spec fn extension_pattern() -> Seq<char> {
    "^(.*?)\\.(\\w+)$"@
}

/// The name and the extension among the capture groups `groups` of a text of
/// `len` characters, if both are there and the name is shorter than the
/// text.
pub open spec fn named_parts(len: int, groups: Option<Seq<Option<Seq<char>>>>) -> Option<
    (Seq<char>, Seq<char>),
> {
    match groups {
        Some(g) => if g.len() >= 3 && g[1] is Some && g[2] is Some && g[1]->0.len() < len {
            Some((g[1]->0, g[2]->0))
        } else {
            None
        },
        None => None,
    }
}

/// `s` taken apart into a name and an extension. Nothing is taken apart
/// where the regex for it cannot be had.
pub open spec fn split_extension(s: Seq<char>) -> Option<(Seq<char>, Seq<char>)> {
    if regex_compiles(extension_pattern(), false) {
        named_parts(s.len() as int, regex_captures(extension_pattern(), false, s))
    } else {
        None
    }
}

/// `source` with `tail` behind it, if there is a source.
pub open spec fn followed_by(source: Option<Seq<char>>, tail: Seq<char>) -> Option<Seq<char>> {
    match source {
        Some(x) => Some(x + tail),
        None => None,
    }
}

/// The source of `s` on the fast path: that of its shape, or, where `s` is a
/// name with an extension, the source of the name, a literal dot and the
/// extension.
pub open spec fn fast_source(o: ParseOptions, s: Seq<char>) -> Option<Seq<char>>
    decreases s.len(),
{
    if shape_source(o, s) is Some {
        shape_source(o, s)
    } else {
        match split_extension(s) {
            Some((name, extension)) => followed_by(
                fast_source(o, name),
                fragments(o).dot_literal + extension,
            ),
            None => None,
        }
    }
}

/// What the fast paths make of the pattern `p`: the source of what is left
/// of it without a leading `./`, with an optional separator behind it unless
/// slashes are strict.
pub open spec fn fast_path(p: Seq<char>, o: ParseOptions) -> Option<Seq<char>> {
    followed_by(
        fast_source(o, without_prefix(replaced(p))),
        if on(o.strict_slashes) {
            Seq::empty()
        } else {
            fragments(o).slash_literal + "?"@
        },
    )
}

/// Picks the name and the extension out of the capture groups of a text of
/// `len` characters.
pub fn name_and_extension(len: usize, groups: &Option<Vec<Option<String>>>) -> (r: Option<
    (Vec<char>, Vec<char>),
>)
    ensures
        match r {
            Some((name, extension)) => named_parts(len as int, group_texts(*groups)) == Some(
                (name@, extension@),
            ),
            None => named_parts(len as int, group_texts(*groups)) is None,
        },
{
    match groups {
        Some(g) => {
            if g.len() < 3 {
                return None;
            }
            match (&g[1], &g[2]) {
                (Some(a), Some(b)) => {
                    let name = chars_of(a.as_str());
                    if name.len() < len {
                        Some((name, chars_of(b.as_str())))
                    } else {
                        None
                    }
                },
                _ => None,
            }
        },
        None => None,
    }
}

/// The fragments that the fast paths put together, made once.
struct FastParts {
    table: GlobChars,
    nodot: &'static str,
    slash_dot: &'static str,
    star: Vec<char>,
    globstar: Vec<char>,
}

impl FastParts {
    spec fn of(&self, o: ParseOptions) -> bool {
        &&& self.table@ == fragments(o)
        &&& self.nodot@ == fast_no_dot(o)
        &&& self.slash_dot@ == fast_slash_dot(o)
        &&& self.star@ == fast_star(o)
        &&& self.globstar@ == fast_globstar(o)
    }
}

/// The source of a star, in brackets if groups capture.
fn star_source(o: &ParseOptions, plain: &str) -> (r: Vec<char>)
    ensures
        r@ == captured(*o, plain@),
{
    let mut r: Vec<char> = Vec::new();
    if is_on(o.capture) {
        push_str(&mut r, "(");
        push_str(&mut r, plain);
        push_str(&mut r, ")");
        assert(r@ =~= "("@ + plain@ + ")"@);
    } else {
        push_str(&mut r, plain);
        assert(r@ =~= plain@);
    }
    r
}

/// The source of a globstar.
pub fn globstar(o: &ParseOptions) -> (r: Vec<char>)
    ensures
        r@ == globstar_source(*o),
{
    let t = glob_chars(o.windows);
    let mut r: Vec<char> = Vec::new();
    push_str(&mut r, "(");
    push_str(
        &mut r,
        if is_on(o.capture) {
            ""
        } else {
            "?:"
        },
    );
    push_str(&mut r, "(?:(?!");
    push_str(&mut r, t.start_anchor);
    push_str(
        &mut r,
        if is_on(o.dot) {
            t.dots_slash
        } else {
            t.dot_literal
        },
    );
    push_str(&mut r, ").)*?)");
    assert(r@ =~= globstar_source(*o));
    r
}

fn fast_parts(o: &ParseOptions) -> (r: FastParts)
    ensures
        r.of(*o),
{
    let table = glob_chars(o.windows);
    let star = star_source(
        o,
        if is_on(o.bash) {
            ".*?"
        } else {
            table.star
        },
    );
    let globstar = if is_on(o.noglobstar) {
        star_source(
            o,
            if is_on(o.bash) {
                ".*?"
            } else {
                table.star
            },
        )
    } else {
        globstar(o)
    };
    FastParts {
        table,
        nodot: if is_on(o.dot) {
            table.no_dots
        } else {
            table.no_dot
        },
        slash_dot: if is_on(o.dot) {
            table.no_dots_slash
        } else {
            table.no_dot
        },
        star,
        globstar,
    }
}

/// The ready-made source of `s`, if `s` is one of the seven shapes.
fn shape(parts: &FastParts, Ghost(o): Ghost<ParseOptions>, s: &Vec<char>) -> (r: Option<Vec<char>>)
    requires
        parts.of(o),
    ensures
        match r {
            Some(v) => shape_source(o, s@) == Some(v@),
            None => shape_source(o, s@) is None,
        },
{
    let t = &parts.table;
    let mut r: Vec<char> = Vec::new();
    proof {
        reveal_strlit("*");
        reveal_strlit(".*");
        reveal_strlit("*.*");
        reveal_strlit("*/*");
        reveal_strlit("**");
        reveal_strlit("**/*");
        reveal_strlit("**/.*");
    }
    if is_str(s, "*") {
        push_str(&mut r, parts.nodot);
        push_str(&mut r, t.one_char);
        push_all(&mut r, &parts.star);
        assert(r@ =~= shape_source(o, s@)->0);
        Some(r)
    } else if is_str(s, ".*") {
        push_str(&mut r, t.dot_literal);
        push_str(&mut r, t.one_char);
        push_all(&mut r, &parts.star);
        assert(r@ =~= shape_source(o, s@)->0);
        Some(r)
    } else if is_str(s, "*.*") {
        push_str(&mut r, parts.nodot);
        push_all(&mut r, &parts.star);
        push_str(&mut r, t.dot_literal);
        push_str(&mut r, t.one_char);
        push_all(&mut r, &parts.star);
        assert(r@ =~= shape_source(o, s@)->0);
        Some(r)
    } else if is_str(s, "*/*") {
        push_str(&mut r, parts.nodot);
        push_all(&mut r, &parts.star);
        push_str(&mut r, t.slash_literal);
        push_str(&mut r, t.one_char);
        push_str(&mut r, parts.slash_dot);
        push_all(&mut r, &parts.star);
        assert(r@ =~= shape_source(o, s@)->0);
        Some(r)
    } else if is_str(s, "**") {
        push_str(&mut r, parts.nodot);
        push_all(&mut r, &parts.globstar);
        assert(r@ =~= shape_source(o, s@)->0);
        Some(r)
    } else if is_str(s, "**/*") {
        push_str(&mut r, "(?:");
        push_str(&mut r, parts.nodot);
        push_all(&mut r, &parts.globstar);
        push_str(&mut r, t.slash_literal);
        push_str(&mut r, ")?");
        push_str(&mut r, parts.slash_dot);
        push_str(&mut r, t.one_char);
        push_all(&mut r, &parts.star);
        assert(r@ =~= shape_source(o, s@)->0);
        Some(r)
    } else if is_str(s, "**/.*") {
        push_str(&mut r, "(?:");
        push_str(&mut r, parts.nodot);
        push_all(&mut r, &parts.globstar);
        push_str(&mut r, t.slash_literal);
        push_str(&mut r, ")?");
        push_str(&mut r, t.dot_literal);
        push_str(&mut r, t.one_char);
        push_all(&mut r, &parts.star);
        assert(r@ =~= shape_source(o, s@)->0);
        Some(r)
    } else {
        None
    }
}

/// The source of `s` on the fast path.
fn source_of(o: &ParseOptions, s: Vec<char>) -> (r: Option<Vec<char>>)
    ensures
        match r {
            Some(v) => fast_source(*o, s@) == Some(v@),
            None => fast_source(*o, s@) is None,
        },
{
    let parts = fast_parts(o);
    let ghost whole = s@;
    let mut cur = s;
    let mut tail: Vec<char> = Vec::new();
    let mut tool: Option<Matcher> = None;
    assert(followed_by(fast_source(*o, cur@), tail@) =~= fast_source(*o, whole)) by {
        match fast_source(*o, cur@) {
            Some(x) => assert(x + tail@ =~= x),
            None => {},
        }
    }
    loop
        invariant
            parts.of(*o),
            whole == s@,
            followed_by(fast_source(*o, cur@), tail@) == fast_source(*o, whole),
            match tool {
                Some(m) => regex_compiles(extension_pattern(), false) && m.source()
                    == extension_pattern() && !m.nocase(),
                None => true,
            },
        decreases cur@.len(),
    {
        match shape(&parts, Ghost(*o), &cur) {
            Some(found) => {
                let mut r = found;
                push_all(&mut r, &tail);
                return Some(r);
            },
            None => {},
        }
        if tool.is_none() {
            match Matcher::build("^(.*?)\\.(\\w+)$", false) {
                Ok(m) => {
                    tool = Some(m);
                },
                Err(_) => {
                    return None;
                },
            }
        }
        let text = string_of(&cur);
        let groups = match &tool {
            Some(m) => m.captures(text.as_str()),
            None => None,
        };
        match name_and_extension(cur.len(), &groups) {
            Some((name, extension)) => {
                let mut next: Vec<char> = Vec::new();
                push_str(&mut next, parts.table.dot_literal);
                push_all(&mut next, &extension);
                push_all(&mut next, &tail);
                proof {
                    let d = fragments(*o).dot_literal + extension@;
                    assert(next@ =~= d + tail@);
                    match fast_source(*o, name@) {
                        Some(x) => assert((x + d) + tail@ =~= x + next@),
                        None => {},
                    }
                }
                tail = next;
                cur = name;
            },
            None => {
                return None;
            },
        }
    }
}

/// What the fast paths note of a pattern.
#[derive(Debug, Default)]
pub struct FastPathState {
    pub negated: bool,
    pub prefix: String,
}

impl HasPrefix for FastPathState {
    open spec fn prefix_text(&self) -> Seq<char> {
        self.prefix@
    }

    fn set_prefix(&mut self, prefix: String) {
        self.prefix = prefix;
    }

    fn has_prefix(&self, prefix: &str) -> (r: &String) {
        &self.prefix
    }
}

/// The regex source of `input` if it is one of the patterns that need no
/// parsing; `None` for any other pattern.
pub fn fast_paths(input: &String, options: &ParseOptions) -> (r: Option<String>)
    requires
        byte_length(input@) <= length_limit(options.max_length),
    ensures
        option_text(r) == fast_path(input@, *options),
{
    let given = chars_of(input.as_str());
    let replaced = match replacement(&given) {
        Some(s) => chars_of(s),
        None => given,
    };
    let mut s: Vec<char> = Vec::new();
    let mut state = FastPathState { negated: false, prefix: String::new() };
    if replaced.len() >= 2 && replaced[0] == '.' && replaced[1] == '/' {
        state.set_prefix(String::from_str("./"));
        push_between(&mut s, &replaced, 2, replaced.len());
    } else {
        push_all(&mut s, &replaced);
    }
    assert(s@ =~= without_prefix(crate::constants::replaced(input@)));
    match source_of(options, s) {
        Some(source) => {
            let mut out = source;
            if !is_on(options.strict_slashes) {
                let t = glob_chars(options.windows);
                push_str(&mut out, t.slash_literal);
                push_str(&mut out, "?");
                assert(out@ =~= source@ + (fragments(*options).slash_literal + "?"@));
            } else {
                assert(out@ =~= source@ + Seq::<char>::empty());
            }
            Some(string_of(&out))
        },
        None => None,
    }
}

/// Whether the pattern `p` is too long to be parsed. What counts is the
/// pattern that stands in for `p` where there is one.
pub open spec fn too_long(p: Seq<char>, o: ParseOptions) -> bool {
    byte_length(replaced(p)) > length_limit(o.max_length)
}

/// Parses the pattern `input` into the source of a regular expression. A
/// pattern that is too long is rejected; any other pattern is parsed.
pub fn parse(input: &str, options: &ParseOptions) -> (r: Result<State, PatternError>)
    ensures
        too_long(input@, *options) ==> r == Err::<State, PatternError>(
            PatternError::TooLong(length_limit(options.max_length) as i32),
        ),
        !too_long(input@, *options) ==> r is Ok && (r->Ok_0.output@, r->Ok_0.negated) == parsed(
            input@,
            *options,
        ),
{
    let given = chars_of(input);
    let text: &str = match replacement(&given) {
        Some(s) => s,
        None => input,
    };
    assert(text@ == replaced(input@));
    if over_limit(text.as_bytes().len(), options.max_length) {
        return Err(PatternError::TooLong(max_bytes(options.max_length)));
    }
    let mut noted = crate::utils::State { prefix: None, negated: false };
    let stripped = remove_prefix(text, &mut noted);
    let start = match &options.prepend {
        Some(s) => chars_of(s.as_str()),
        None => Vec::new(),
    };
    let g = Grammar::new(options);
    let mut state = ParseState::new(chars_of(stripped.as_str()), start, noted.prefix);
    let ghost p = parser_input(input@);
    let ghost first = state@;
    assert(first == beginning(seed(*options), parser_prefix(input@)));
    while !state.eos()
        invariant
            state.wf(),
            g.wf(),
            g@ == syntax(*options),
            state.text() == p,
            run(g@, p, state@) == run(g@, p, first),
        decreases p.len() - state@.index,
    {
        state.step(&g);
    }
    let out = state.finish(&g);
    Ok(State { output: string_of(&out), negated: state.is_negated() })
}

/// A pattern of exactly as many bytes as the limit allows is parsed, and one
/// of one byte more is rejected.
pub proof fn lemma_length_boundary(p: Seq<char>, o: ParseOptions)
    ensures
        byte_length(replaced(p)) == length_limit(o.max_length) ==> !too_long(p, o),
        byte_length(replaced(p)) == length_limit(o.max_length) + 1 ==> too_long(p, o),
{
}

/// Parsing is a function of the pattern and the options: two parses of the
/// same pattern under the same options give the same source and the same
/// negation.
pub proof fn lemma_parse_is_deterministic(
    p: Seq<char>,
    o: ParseOptions,
    a: (Seq<char>, bool),
    b: (Seq<char>, bool),
)
    requires
        a == parsed(p, o),
        b == parsed(p, o),
    ensures
        a == b,
{
}

/// For the pattern `*` the fast path and the parser write the same source,
/// whatever the platform, the capturing and the strictness about slashes,
/// as long as dots are not matched, `bash` is off and nothing is
/// prepended.
pub proof fn lemma_star_has_one_source(o: ParseOptions)
    requires
        !on(o.dot),
        !on(o.bash),
        o.prepend is None,
    ensures
        fast_path("*"@, o) == Some(parsed("*"@, o).0),
{
    let p = "*"@;
    reveal_strlit("*");
    reveal_strlit("***");
    reveal_strlit("**/**");
    reveal_strlit("**/**/**");
    assert(replaced(p) == p);
    assert(without_prefix(p) == p);
    let g = syntax(o);
    let first = beginning(seed(o), parser_prefix(p));
    let t = read(p, first);
    let lead = star_lead(g, p, t);
    assert(lead == g.nodot + g.t.one_char);
    let last = step(g, p, first);
    assert(last == first_star(g, p, t));
    assert(run(g, p, first) == run(g, p, last));
    assert(run(g, p, last) == last);
    assert(last.output =~= fast_no_dot(o) + fragments(o).one_char + fast_star(o));
    assert(fast_source(o, p) == Some(fast_no_dot(o) + fragments(o).one_char + fast_star(o)));
    if on(o.strict_slashes) {
        assert(last.output + Seq::<char>::empty() =~= last.output);
    } else {
        assert(last.output + (fragments(o).slash_literal + "?"@) =~= last.output + fragments(
            o,
        ).slash_literal + "?"@);
    }
}

} // verus!
