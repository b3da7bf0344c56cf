//! The model of the parser: a cursor that reads the pattern character by
//! character and writes the source of a regular expression. `parsed` is what
//! `parse` computes.
//!
//! A group that is never closed is no group: whether an opening bracket,
//! brace or parenthesis has its partner is looked up when it is read, and
//! one without a partner is written as an escaped character.

use vstd::prelude::*;
use crate::constants::{posix_class, replaced, Fragments};
use crate::parse::{captured, fragments, globstar_source, ParseOptions};
use crate::scan_model::{char_at, on};
use crate::utils::{extglob_of, has_dot_slash, without_prefix};

verus! {

/// The kinds of token that the parser writes.
#[derive(Clone, Copy, Debug, PartialEq, Eq, Structural)]
pub enum Kind {
    /// The beginning of the pattern; nothing has been written yet.
    Bos,
    Text,
    Slash,
    Dot,
    Star,
    Globstar,
    Qmark,
    Plus,
    Comma,
    Paren,
    Bracket,
    Brace,
    /// The lead character of an extglob.
    Lead,
}

/// The groups that can be open.
#[derive(Clone, Copy, Debug, PartialEq, Eq, Structural)]
pub enum Group {
    Paren,
    Brace,
    /// An extglob, with the character that leads it in.
    Extglob(char),
}

/// What the options make of the glob syntax.
pub struct Syntax {
    pub t: Fragments,
    pub star: Seq<char>,
    pub globstar: Seq<char>,
    pub nodot: Seq<char>,
    pub qmark_no_dot: Seq<char>,
    pub capture: bool,
    pub dot: bool,
    pub bash: bool,
    pub noextglob: bool,
    pub noglobstar: bool,
    pub strict_slashes: bool,
}

/// Whether extglobs are off: `noext` decides where it is given.
pub open spec fn extglobs_off(o: ParseOptions) -> bool {
    match o.noext {
        Some(v) => v,
        None => on(o.noextglob),
    }
}

/// The syntax that the options ask for.
pub open spec fn syntax(o: ParseOptions) -> Syntax {
    let t = fragments(o);
    Syntax {
        t,
        star: captured(
            o,
            if on(o.bash) {
                globstar_source(o)
            } else {
                t.star
            },
        ),
        globstar: globstar_source(o),
        nodot: if on(o.dot) {
            Seq::empty()
        } else {
            t.no_dot
        },
        qmark_no_dot: if on(o.dot) {
            t.qmark
        } else {
            t.qmark_no_dot
        },
        capture: on(o.capture),
        dot: on(o.dot),
        bash: on(o.bash),
        noextglob: extglobs_off(o),
        noglobstar: on(o.noglobstar),
        strict_slashes: on(o.strict_slashes),
    }
}

/// The state of the parser. `index` is the number of characters read and
/// `output` the source written so far. Of the last token the kind and the
/// length of what it wrote are kept (`prev`), of the one before it too
/// (`prior`), and of the one before that the kind (`before`).
pub struct Parsing {
    pub index: int,
    pub start: int,
    pub consumed: Seq<char>,
    pub output: Seq<char>,
    pub prefix: Option<Seq<char>>,
    pub negated: bool,
    pub globstar: bool,
    pub backtrack: bool,
    pub brackets: int,
    pub braces: int,
    pub parens: int,
    pub quotes: int,
    pub prev_kind: Kind,
    pub prev_len: int,
    pub star_run: bool,
    pub lead_len: int,
    pub prior_kind: Kind,
    pub prior_len: int,
    pub before_kind: Kind,
    pub groups: Seq<Group>,
}

/// The parser before it has read anything: `seed` is written already.
pub open spec fn beginning(seed: Seq<char>, prefix: Option<Seq<char>>) -> Parsing {
    Parsing {
        index: 0,
        start: 0,
        consumed: Seq::empty(),
        output: seed,
        prefix,
        negated: false,
        globstar: false,
        backtrack: false,
        brackets: 0,
        braces: 0,
        parens: 0,
        quotes: 0,
        prev_kind: Kind::Bos,
        prev_len: seed.len() as int,
        star_run: false,
        lead_len: 0,
        prior_kind: Kind::Bos,
        prior_len: 0,
        before_kind: Kind::Bos,
        groups: Seq::empty(),
    }
}

/// Reads one character and counts it as consumed.
pub open spec fn read(p: Seq<char>, s: Parsing) -> Parsing
    recommends
        0 <= s.index < p.len(),
{
    Parsing { index: s.index + 1, consumed: s.consumed.push(p[s.index]), ..s }
}

/// `s` without its last `k` characters.
pub open spec fn trim(s: Seq<char>, k: int) -> Seq<char> {
    if k <= 0 {
        s
    } else if k <= s.len() {
        s.take(s.len() - k)
    } else {
        Seq::empty()
    }
}

/// Whether a token of kind `kind` turns a globstar before it into a star:
/// a globstar stands only before a separator, a group, or a comma or brace
/// within braces.
pub open spec fn demotes(s: Parsing, kind: Kind) -> bool {
    &&& s.prev_kind == Kind::Globstar
    &&& kind != Kind::Slash
    &&& kind != Kind::Paren
    &&& !(s.braces > 0 && (kind == Kind::Comma || kind == Kind::Brace))
}

/// Writes a token. A globstar that the token does not let stand is
/// rewritten as a star first, and text after text is one token.
pub open spec fn push(g: Syntax, s: Parsing, kind: Kind, out: Seq<char>) -> Parsing {
    let demoted = demotes(s, kind);
    let pk = if demoted {
        Kind::Star
    } else {
        s.prev_kind
    };
    let pl = if demoted {
        g.star.len() as int
    } else {
        s.prev_len
    };
    let merge = pk == Kind::Text && kind == Kind::Text;
    Parsing {
        output: (if demoted {
            trim(s.output, s.prev_len) + g.star
        } else {
            s.output
        }) + out,
        prev_kind: kind,
        prev_len: if merge {
            pl + out.len()
        } else {
            out.len() as int
        },
        star_run: false,
        lead_len: 0,
        prior_kind: if merge {
            s.prior_kind
        } else {
            pk
        },
        prior_len: if merge {
            s.prior_len
        } else {
            pl
        },
        before_kind: if merge {
            s.before_kind
        } else {
            s.prior_kind
        },
        ..s
    }
}

/// Writes more of the last token.
pub open spec fn extend(s: Parsing, out: Seq<char>) -> Parsing {
    Parsing { output: s.output + out, prev_len: s.prev_len + out.len(), ..s }
}

/// Takes the last `k` characters off the output and writes `out` as the last
/// token, of kind `kind`.
pub open spec fn rewrite(s: Parsing, k: int, kind: Kind, out: Seq<char>) -> Parsing {
    Parsing {
        output: trim(s.output, k) + out,
        prev_kind: kind,
        prev_len: out.len() as int,
        lead_len: 0,
        globstar: true,
        ..s
    }
}

/// A group opens.
pub open spec fn enter(s: Parsing, group: Group) -> Parsing {
    Parsing {
        groups: s.groups.push(group),
        parens: if group is Brace {
            s.parens
        } else {
            s.parens + 1
        },
        braces: if group is Brace {
            s.braces + 1
        } else {
            s.braces
        },
        ..s
    }
}

/// The innermost group closes.
pub open spec fn leave(s: Parsing) -> Parsing
    recommends
        s.groups.len() > 0,
{
    Parsing {
        groups: s.groups.drop_last(),
        parens: if s.groups.last() is Brace || s.parens <= 0 {
            s.parens
        } else {
            s.parens - 1
        },
        braces: if s.groups.last() is Brace && s.braces > 0 {
            s.braces - 1
        } else {
            s.braces
        },
        ..s
    }
}

/// The innermost open group.
pub open spec fn innermost(s: Parsing) -> Option<Group> {
    if s.groups.len() > 0 {
        Some(s.groups.last())
    } else {
        None
    }
}

/// Whether the group that has just opened before `p[i]` is closed later:
/// by the first `close` that no backslash escapes and that closes no group
/// opened with `open` on the way; `depth` counts those.
pub open spec fn closes(p: Seq<char>, i: int, open: char, close: char, depth: nat) -> bool
    decreases p.len() - i,
{
    if i < 0 || i >= p.len() {
        false
    } else if p[i] == '\\' {
        i + 2 <= p.len() && closes(p, i + 2, open, close, depth)
    } else if p[i] == close {
        depth == 0 || closes(p, i + 1, open, close, (depth - 1) as nat)
    } else if p[i] == open {
        closes(p, i + 1, open, close, depth + 1)
    } else {
        closes(p, i + 1, open, close, depth)
    }
}

/// The characters that mean something in a regex.
pub open spec fn regex_special(c: char) -> bool {
    c == '-' || c == '*' || c == '+' || c == '?' || c == '.' || c == '^' || c == '$' || c == '{'
        || c == '}' || c == '(' || c == '|' || c == ')' || c == '[' || c == ']'
}

/// `c` with a backslash before it.
pub open spec fn escaped(c: char) -> Seq<char> {
    seq!['\\', c]
}

/// A backslash keeps the character after it from meaning anything: both
/// are written as they stand, inside a bracket expression as part of it. A
/// backslash at the end stands for itself.
pub open spec fn at_escape(g: Syntax, p: Seq<char>, s: Parsing) -> Parsing {
    if 0 <= s.index < p.len() {
        if s.brackets > 0 {
            extend(read(p, s), escaped(p[s.index]))
        } else {
            push(g, read(p, s), Kind::Text, escaped(p[s.index]))
        }
    } else {
        push(g, s, Kind::Text, escaped('\\'))
    }
}

/// The first position from `i` on that holds a colon, or the end.
pub open spec fn next_colon(p: Seq<char>, i: int) -> int
    decreases p.len() - i,
{
    if i < 0 || i >= p.len() {
        p.len() as int
    } else if p[i] == ':' {
        i
    } else {
        next_colon(p, i + 1)
    }
}

/// The body of the POSIX class whose name begins at `p[i]`, behind `[:`, if
/// the name ends in `:]` and is the name of a class.
pub open spec fn class_at(p: Seq<char>, i: int) -> Option<Seq<char>> {
    let e = next_colon(p, i);
    if 0 <= i <= e && e + 1 < p.len() && p[e + 1] == ']' {
        posix_class(p.subrange(i, e))
    } else {
        None
    }
}

/// The cursor moved on to `to`.
pub open spec fn skip_to(p: Seq<char>, s: Parsing, to: int) -> Parsing {
    Parsing {
        index: to,
        consumed: s.consumed + (if 0 <= s.index <= to <= p.len() {
            p.subrange(s.index, to)
        } else {
            Seq::empty()
        }),
        ..s
    }
}

/// Inside a bracket expression everything is written as it stands, but for
/// the name of a POSIX class, which gives way to the class's body, and for
/// another `[`, which is escaped.
pub open spec fn in_class(p: Seq<char>, s: Parsing, c: char) -> Parsing {
    if c == '[' && char_at(p, s.index) == Some(':') && class_at(p, s.index + 1) is Some {
        extend(skip_to(p, s, next_colon(p, s.index + 1) + 2), class_at(p, s.index + 1)->0)
    } else if c == '[' {
        extend(s, escaped('['))
    } else {
        extend(s, seq![c])
    }
}

/// `c` as a regex that matches `c`.
pub open spec fn literal(c: char) -> Seq<char> {
    if regex_special(c) {
        escaped(c)
    } else {
        seq![c]
    }
}

/// A double quote opens or closes a quotation.
pub open spec fn at_quote(s: Parsing) -> Parsing {
    Parsing {
        quotes: if s.quotes == 1 {
            0
        } else {
            1
        },
        ..s
    }
}

/// An opening parenthesis opens a group if the group is closed later.
pub open spec fn at_open_paren(g: Syntax, p: Seq<char>, s: Parsing) -> Parsing {
    if closes(p, s.index, '(', ')', 0) {
        push(g, enter(s, Group::Paren), Kind::Paren, "("@)
    } else {
        push(g, s, Kind::Text, escaped('('))
    }
}

/// What opens the extglob that `lead` leads in.
pub open spec fn extglob_open(g: Syntax, lead: char) -> Seq<char> {
    (if g.capture {
        "("@
    } else {
        ""@
    }) + (match extglob_of(g.t.star, lead) {
        Some(e) => e.open,
        None => Seq::empty(),
    })
}

/// What closes it.
pub open spec fn extglob_close(g: Syntax, lead: char) -> Seq<char> {
    (match extglob_of(g.t.star, lead) {
        Some(e) => e.close,
        None => Seq::empty(),
    }) + (if g.capture {
        ")"@
    } else {
        ""@
    })
}

/// A closing parenthesis closes the extglob or the group that is innermost;
/// where neither is, it is text.
pub open spec fn at_close_paren(g: Syntax, s: Parsing) -> Parsing {
    match innermost(s) {
        Some(Group::Extglob(lead)) => leave(push(g, s, Kind::Paren, extglob_close(g, lead))),
        Some(Group::Paren) => leave(push(g, s, Kind::Paren, ")"@)),
        _ => push(g, s, Kind::Text, escaped(')')),
    }
}

/// An opening bracket opens a bracket expression if one is closed later.
pub open spec fn at_open_bracket(g: Syntax, p: Seq<char>, s: Parsing) -> Parsing {
    if closes(p, s.index, ']', ']', 0) {
        push(g, Parsing { brackets: s.brackets + 1, ..s }, Kind::Bracket, "["@)
    } else {
        push(g, s, Kind::Text, escaped('['))
    }
}

/// A closing bracket closes the bracket expression that is open; where
/// none is, it is text.
pub open spec fn at_close_bracket(g: Syntax, s: Parsing) -> Parsing {
    if s.brackets > 0 {
        extend(Parsing { brackets: s.brackets - 1, ..s }, "]"@)
    } else {
        push(g, s, Kind::Text, escaped(']'))
    }
}

/// A brace group is a regex group, and its commas are the bars between the
/// alternatives.
pub open spec fn at_open_brace(g: Syntax, p: Seq<char>, s: Parsing) -> Parsing {
    if closes(p, s.index, '{', '}', 0) {
        push(g, enter(s, Group::Brace), Kind::Brace, "("@)
    } else {
        push(g, s, Kind::Text, escaped('{'))
    }
}

/// A closing brace closes the brace group that is innermost; where none is,
/// it is text.
pub open spec fn at_close_brace(g: Syntax, s: Parsing) -> Parsing {
    if innermost(s) == Some(Group::Brace) {
        leave(push(g, s, Kind::Brace, ")"@))
    } else {
        push(g, s, Kind::Text, escaped('}'))
    }
}

/// A comma parts the alternatives of a brace group; elsewhere it is a comma.
pub open spec fn at_comma(g: Syntax, s: Parsing) -> Parsing {
    push(
        g,
        s,
        Kind::Comma,
        if innermost(s) == Some(Group::Brace) {
            "|"@
        } else {
            ","@
        },
    )
}

/// A dot is a literal dot. At the start of a segment and inside groups it is
/// a token of its own kind, which a star after it heeds.
pub open spec fn at_dot(g: Syntax, s: Parsing) -> Parsing {
    push(
        g,
        s,
        if s.braces + s.parens == 0 && s.prev_kind != Kind::Bos && s.prev_kind != Kind::Slash {
            Kind::Text
        } else {
            Kind::Dot
        },
        g.t.dot_literal,
    )
}

/// Whether the character read last leads an extglob in: a `(` follows, no
/// `?` follows that, and the group is closed later.
pub open spec fn extglob_opens(g: Syntax, p: Seq<char>, s: Parsing) -> bool {
    &&& !g.noextglob
    &&& char_at(p, s.index) == Some('(')
    &&& char_at(p, s.index + 1) != Some('?')
    &&& closes(p, s.index + 1, '(', ')', 0)
}

/// An extglob opens: its `(` is read, and the group is written as the lead
/// character asks. At the very start of the output a lookahead for one
/// character goes before it.
pub open spec fn open_extglob(g: Syntax, p: Seq<char>, s: Parsing, lead: char) -> Parsing {
    push(
        g,
        enter(
            read(
                p,
                push(
                    g,
                    s,
                    Kind::Lead,
                    if s.output.len() == 0 {
                        g.t.one_char
                    } else {
                        Seq::empty()
                    },
                ),
            ),
            Group::Extglob(lead),
        ),
        Kind::Paren,
        extglob_open(g, lead),
    )
}

/// A question mark stands for one character that is no separator, and at
/// the start of a segment no dot either unless dots are matched.
pub open spec fn at_qmark(g: Syntax, s: Parsing) -> Parsing {
    push(
        g,
        s,
        Kind::Qmark,
        if !g.dot && (s.prev_kind == Kind::Slash || s.prev_kind == Kind::Bos) {
            g.t.qmark_no_dot
        } else {
            g.t.qmark
        },
    )
}

/// How many more exclamation marks from `p[i]` on belong to the negation:
/// those that lead no extglob in.
pub open spec fn bangs(p: Seq<char>, i: int) -> int
    decreases p.len() - i,
{
    if 0 <= i < p.len() && p[i] == '!' && (char_at(p, i + 1) != Some('(') || char_at(p, i + 2)
        == Some('?')) {
        1 + bangs(p, i + 1)
    } else {
        0
    }
}

/// A leading exclamation mark negates the pattern, and each further one
/// negates it again; all of them are read at once.
pub open spec fn negate(p: Seq<char>, s: Parsing) -> Parsing {
    let more = bangs(p, s.index);
    let odd = (1 + more) % 2 == 1;
    Parsing {
        negated: odd,
        start: s.start + more + (if odd {
            1int
        } else {
            0int
        }),
        ..skip_to(p, s, s.index + more)
    }
}

/// What goes before a star at the start of a segment to keep it from
/// matching a leading dot, and, unless another star follows, nothing at
/// all.
pub open spec fn star_lead(g: Syntax, p: Seq<char>, s: Parsing) -> Seq<char> {
    if s.index - 1 == s.start || s.prev_kind == Kind::Slash || s.prev_kind == Kind::Dot {
        (if s.prev_kind == Kind::Dot {
            g.t.no_dot_slash
        } else if g.dot {
            g.t.no_dots_slash
        } else {
            g.nodot
        }) + (if char_at(p, s.index) != Some('*') {
            g.t.one_char
        } else {
            Seq::empty()
        })
    } else {
        Seq::empty()
    }
}

/// A single star.
pub open spec fn first_star(g: Syntax, p: Seq<char>, s: Parsing) -> Parsing {
    if g.bash {
        push(
            g,
            s,
            Kind::Star,
            (if s.prev_kind == Kind::Bos || s.prev_kind == Kind::Slash {
                g.nodot
            } else {
                Seq::empty()
            }) + ".*?"@,
        )
    } else {
        Parsing {
            lead_len: star_lead(g, p, s).len() as int,
            ..push(g, extend(s, star_lead(g, p, s)), Kind::Star, g.star)
        }
    }
}

/// A star after a globstar, or after a star that was one: the run of stars
/// is a single star.
pub open spec fn star_run(g: Syntax, s: Parsing) -> Parsing {
    Parsing { star_run: true, backtrack: true, ..rewrite(s, s.prev_len, Kind::Star, g.star) }
}

/// Whether a second star makes a globstar: globstars are on, and the stars
/// stand at the start of a segment; under `bash` a separator or the end
/// must follow too.
pub open spec fn makes_globstar(g: Syntax, p: Seq<char>, s: Parsing) -> bool {
    &&& !g.noglobstar
    &&& (s.prior_kind == Kind::Slash || s.prior_kind == Kind::Bos)
    &&& !(g.bash && 0 <= s.index < p.len() && p[s.index] != '/')
}

/// The separator before the two stars, as it was written.
pub open spec fn prior_text(s: Parsing) -> Seq<char> {
    let to = s.output.len() - s.prev_len;
    let from = to - s.prior_len;
    if 0 <= from <= to <= s.output.len() {
        s.output.subrange(from, to)
    } else {
        Seq::empty()
    }
}

/// The second of two stars at the start of a segment.
///
/// Alone in the pattern the two are a globstar. After a separator at the end
/// of the pattern, the separator and the globstar are optional together.
/// Before a separator, the globstar takes the separator along: the pattern
/// goes on in the same directory or in any below. Anywhere else the star
/// becomes a globstar, which the next token may turn back.
pub open spec fn second_star(g: Syntax, p: Seq<char>, s: Parsing) -> Parsing {
    let end = s.index >= p.len();
    let slash_next = char_at(p, s.index) == Some('/');
    let inner = s.prior_kind == Kind::Slash && s.before_kind != Kind::Bos;
    if s.prior_kind == Kind::Bos && end {
        rewrite(s, s.prev_len + s.lead_len, Kind::Globstar, g.globstar)
    } else if inner && end && s.before_kind != Kind::Star && s.before_kind != Kind::Globstar {
        rewrite(
            s,
            s.prev_len + s.prior_len,
            Kind::Globstar,
            "(?:"@ + prior_text(s) + g.globstar + (if g.strict_slashes {
                ")"@
            } else {
                "|$)"@
            }),
        )
    } else if inner && slash_next {
        push(
            g,
            read(
                p,
                rewrite(
                    s,
                    s.prev_len + s.prior_len,
                    Kind::Globstar,
                    "(?:"@ + prior_text(s) + g.globstar + g.t.slash_literal + "|"@
                        + g.t.slash_literal + (if s.index + 1 < p.len() {
                        "|$"@
                    } else {
                        ""@
                    }) + ")"@,
                ),
            ),
            Kind::Slash,
            Seq::empty(),
        )
    } else if s.prior_kind == Kind::Bos && slash_next {
        push(
            g,
            read(
                p,
                rewrite(
                    s,
                    s.prev_len + s.lead_len,
                    Kind::Globstar,
                    "(?:^|"@ + g.t.slash_literal + "|"@ + g.globstar + g.t.slash_literal + ")"@,
                ),
            ),
            Kind::Slash,
            Seq::empty(),
        )
    } else {
        rewrite(s, s.prev_len, Kind::Globstar, g.globstar)
    }
}

/// A star.
pub open spec fn at_star(g: Syntax, p: Seq<char>, s: Parsing) -> Parsing {
    if extglob_opens(g, p, s) {
        open_extglob(g, p, s, '*')
    } else if s.prev_kind == Kind::Globstar || (s.prev_kind == Kind::Star && s.star_run) {
        star_run(g, s)
    } else if s.prev_kind == Kind::Star {
        if makes_globstar(g, p, s) {
            second_star(g, p, s)
        } else {
            s
        }
    } else {
        first_star(g, p, s)
    }
}

/// The characters that may lead an extglob in, but for the star.
pub open spec fn at_lead(g: Syntax, p: Seq<char>, s: Parsing, c: char) -> Parsing {
    if extglob_opens(g, p, s) {
        open_extglob(g, p, s, c)
    } else if c == '?' {
        at_qmark(g, s)
    } else if c == '+' {
        push(g, s, Kind::Plus, g.t.plus_literal)
    } else if c == '!' && s.index == 1 {
        negate(p, s)
    } else {
        push(g, s, Kind::Text, seq![c])
    }
}

/// The brackets, braces and parentheses.
pub open spec fn at_bracket(g: Syntax, p: Seq<char>, s: Parsing, c: char) -> Parsing {
    if c == '(' {
        at_open_paren(g, p, s)
    } else if c == ')' {
        at_close_paren(g, s)
    } else if c == '[' {
        at_open_bracket(g, p, s)
    } else if c == ']' {
        at_close_bracket(g, s)
    } else if c == '{' {
        at_open_brace(g, p, s)
    } else {
        at_close_brace(g, s)
    }
}

/// Whether `c` is a bracket, a brace or a parenthesis.
pub open spec fn is_bracket(c: char) -> bool {
    c == '(' || c == ')' || c == '[' || c == ']' || c == '{' || c == '}'
}

/// What the character `c`, which has just been read, does outside bracket
/// expressions and quotations.
pub open spec fn at_char(g: Syntax, p: Seq<char>, s: Parsing, c: char) -> Parsing {
    if is_bracket(c) {
        at_bracket(g, p, s, c)
    } else if c == ',' {
        at_comma(g, s)
    } else if c == '/' {
        push(g, s, Kind::Slash, g.t.slash_literal)
    } else if c == '.' {
        at_dot(g, s)
    } else if c == '?' || c == '!' || c == '+' || c == '@' {
        at_lead(g, p, s, c)
    } else if c == '*' {
        at_star(g, p, s)
    } else if c == '$' || c == '^' {
        push(g, s, Kind::Text, escaped(c))
    } else {
        push(g, s, Kind::Text, seq![c])
    }
}

/// One round of the parser: reads a character and writes what it stands
/// for.
pub open spec fn step(g: Syntax, p: Seq<char>, s: Parsing) -> Parsing
    recommends
        0 <= s.index < p.len(),
{
    let c = p[s.index];
    let t = read(p, s);
    if c == '\\' {
        at_escape(g, p, t)
    } else if t.brackets > 0 && c != ']' {
        in_class(p, t, c)
    } else if t.quotes == 1 && c != '"' {
        push(g, t, Kind::Text, literal(c))
    } else if c == '"' {
        at_quote(t)
    } else {
        at_char(g, p, t, c)
    }
}

/// The next colon lies at or behind where the search for it begins, and
/// within the text.
pub proof fn lemma_next_colon_bounds(p: Seq<char>, i: int)
    requires
        0 <= i,
    ensures
        i <= next_colon(p, i) || next_colon(p, i) == p.len(),
        next_colon(p, i) <= p.len(),
    decreases p.len() - i,
{
    if i < p.len() && p[i] != ':' {
        lemma_next_colon_bounds(p, i + 1);
    }
}

/// No more exclamation marks belong to a negation than are left to read.
pub proof fn lemma_bangs_bounds(p: Seq<char>, i: int)
    requires
        0 <= i <= p.len(),
    ensures
        0 <= bangs(p, i) <= p.len() - i,
    decreases p.len() - i,
{
    if i < p.len() && p[i] == '!' && (char_at(p, i + 1) != Some('(') || char_at(p, i + 2) == Some(
        '?',
    )) {
        lemma_bangs_bounds(p, i + 1);
    }
}

/// Every round reads at least one character, and none reads past the end.
pub proof fn lemma_step_moves_on(g: Syntax, p: Seq<char>, s: Parsing)
    requires
        0 <= s.index < p.len(),
    ensures
        s.index < step(g, p, s).index <= p.len(),
{
    let t = read(p, s);
    lemma_next_colon_bounds(p, t.index + 1);
    lemma_bangs_bounds(p, t.index);
}

/// The parser at work: rounds are made until the pattern is read.
pub open spec fn run(g: Syntax, p: Seq<char>, s: Parsing) -> Parsing
    decreases p.len() - s.index,
{
    if s.index < 0 || s.index >= p.len() {
        s
    } else {
        proof {
            lemma_step_moves_on(g, p, s);
        }
        run(g, p, step(g, p, s))
    }
}

/// After a star or a bracket expression at the end, a separator may follow
/// unless slashes are strict.
pub open spec fn closing(g: Syntax, s: Parsing) -> Seq<char> {
    if !g.strict_slashes && (s.prev_kind == Kind::Star || s.prev_kind == Kind::Bracket) {
        s.output + g.t.slash_literal + "?"@
    } else {
        s.output
    }
}

/// What the parser is given to read: the pattern, or what stands in for it,
/// without a leading `./`.
pub open spec fn parser_input(p: Seq<char>) -> Seq<char> {
    without_prefix(replaced(p))
}

/// The prefix that the parser records.
pub open spec fn parser_prefix(p: Seq<char>) -> Option<Seq<char>> {
    if has_dot_slash(replaced(p)) {
        Some("./"@)
    } else {
        None
    }
}

/// The text that the output begins with.
pub open spec fn seed(o: ParseOptions) -> Seq<char> {
    match o.prepend {
        Some(s) => s@,
        None => Seq::empty(),
    }
}

/// The parser's last state for the pattern `p`.
pub open spec fn parsing(p: Seq<char>, o: ParseOptions) -> Parsing {
    run(syntax(o), parser_input(p), beginning(seed(o), parser_prefix(p)))
}

/// What parsing `p` gives: the regex source, and whether the pattern is
/// negated.
pub open spec fn parsed(p: Seq<char>, o: ParseOptions) -> (Seq<char>, bool) {
    (closing(syntax(o), parsing(p, o)), parsing(p, o).negated)
}

/// The characters that the parser writes as they stand, whatever comes
/// before or after them.
pub open spec fn plain_char(c: char) -> bool {
    &&& !regex_special(c)
    &&& c != '\\'
    &&& c != '"'
    &&& c != ','
    &&& c != '/'
    &&& c != '!'
    &&& c != '@'
}

/// A text of such characters only.
pub open spec fn plain_text(p: Seq<char>) -> bool {
    forall|i: int| 0 <= i < p.len() ==> plain_char(#[trigger] p[i])
}

/// A parser that has met nothing but plain text.
spec fn writing_text(seed: Seq<char>, p: Seq<char>, s: Parsing) -> bool {
    &&& 0 <= s.index <= p.len()
    &&& s.brackets == 0
    &&& s.quotes == 0
    &&& !s.negated
    &&& (s.prev_kind == Kind::Bos || s.prev_kind == Kind::Text)
    &&& s.output == seed + p.take(s.index)
    &&& s.consumed == p.take(s.index)
}

proof fn lemma_plain_text_run(g: Syntax, seed: Seq<char>, p: Seq<char>, s: Parsing)
    requires
        plain_text(p),
        writing_text(seed, p, s),
    ensures
        writing_text(seed, p, run(g, p, s)),
        run(g, p, s).index == p.len(),
    decreases p.len() - s.index,
{
    if s.index < p.len() {
        let c = p[s.index];
        assert(plain_char(c));
        let t = step(g, p, s);
        assert(t == push(g, read(p, s), Kind::Text, seq![c]));
        assert(p.take(s.index + 1) =~= p.take(s.index).push(c));
        assert(t.output =~= seed + p.take(s.index + 1));
        lemma_step_moves_on(g, p, s);
        lemma_plain_text_run(g, seed, p, t);
    }
}

/// A pattern of plain characters only is its own source: the parser writes
/// it behind the seed as it stands, and the pattern is not negated.
pub proof fn lemma_plain_text_is_its_own_source(p: Seq<char>, o: ParseOptions)
    requires
        plain_text(p),
    ensures
        parsed(p, o) == (seed(o) + p, false),
{
    reveal_strlit("***");
    reveal_strlit("**/**");
    reveal_strlit("**/**/**");
    if p.len() > 0 {
        assert(plain_char(p[0]));
    }
    assert(replaced(p) == p);
    assert(parser_input(p) == p);
    let first = beginning(seed(o), parser_prefix(p));
    assert(p.take(0) =~= Seq::<char>::empty());
    assert(first.output =~= seed(o) + p.take(0));
    lemma_plain_text_run(syntax(o), seed(o), p, first);
    assert(p.take(p.len() as int) =~= p);
}

/// What is kept of the pattern as the parser reads it: the characters read
/// so far.
spec fn keeps_track(p: Seq<char>, s: Parsing) -> bool {
    0 <= s.index <= p.len() && s.consumed == p.take(s.index)
}

proof fn lemma_step_keeps_track(g: Syntax, p: Seq<char>, s: Parsing)
    requires
        keeps_track(p, s),
        s.index < p.len(),
    ensures
        keeps_track(p, step(g, p, s)),
{
    let t = read(p, s);
    let u = step(g, p, s);
    lemma_step_moves_on(g, p, s);
    lemma_next_colon_bounds(p, t.index + 1);
    lemma_bangs_bounds(p, t.index);
    assert(p.take(t.index) =~= p.take(s.index).push(p[s.index]));
    if u.index == t.index {
        assert(u.consumed == t.consumed);
    } else if u.index == t.index + 1 {
        assert(p.take(u.index) =~= p.take(t.index).push(p[t.index]));
        assert(p.subrange(t.index, t.index + 1) =~= seq![p[t.index]]);
        assert(t.consumed + p.subrange(t.index, t.index + 1) =~= t.consumed.push(p[t.index]));
    } else {
        assert(p.take(u.index) =~= p.take(t.index) + p.subrange(t.index, u.index));
    }
}

proof fn lemma_run_keeps_track(g: Syntax, p: Seq<char>, s: Parsing)
    requires
        keeps_track(p, s),
    ensures
        keeps_track(p, run(g, p, s)),
        run(g, p, s).index == p.len(),
        run(g, p, s).prefix == s.prefix,
    decreases p.len() - s.index,
{
    if s.index < p.len() {
        lemma_step_keeps_track(g, p, s);
        lemma_step_moves_on(g, p, s);
        lemma_run_keeps_track(g, p, step(g, p, s));
    }
}

/// The parser reads all of the pattern: at the end every character is
/// consumed, in order, and the prefix is the one that was taken off.
pub proof fn lemma_parser_reads_whole_pattern(p: Seq<char>, o: ParseOptions)
    ensures
        parsing(p, o).index == parser_input(p).len(),
        parsing(p, o).consumed == parser_input(p),
        parsing(p, o).prefix == parser_prefix(p),
{
    let q = parser_input(p);
    let first = beginning(seed(o), parser_prefix(p));
    assert(q.take(0) =~= first.consumed);
    lemma_run_keeps_track(syntax(o), q, first);
    assert(q.take(q.len() as int) =~= q);
}

/// How many exclamation marks at the start of `q` negate the pattern: none
/// if the first one leads an extglob in.
pub open spec fn leading_bangs(g: Syntax, q: Seq<char>) -> int {
    if q.len() > 0 && q[0] == '!' && !extglob_opens(
        g,
        q,
        read(q, beginning(Seq::empty(), None)),
    ) {
        1 + bangs(q, 1)
    } else {
        0
    }
}

proof fn lemma_negation_is_settled(g: Syntax, p: Seq<char>, s: Parsing)
    requires
        1 <= s.index,
    ensures
        run(g, p, s).negated == s.negated,
    decreases p.len() - s.index,
{
    if s.index < p.len() {
        lemma_step_moves_on(g, p, s);
        lemma_negation_is_settled(g, p, step(g, p, s));
    }
}

/// A pattern is negated if and only if it begins with an odd number of
/// negating exclamation marks: two of them cancel each other.
pub proof fn lemma_negation_counts_leading_marks(p: Seq<char>, o: ParseOptions)
    ensures
        parsed(p, o).1 == (leading_bangs(syntax(o), parser_input(p)) % 2 == 1),
{
    let g = syntax(o);
    let q = parser_input(p);
    let first = beginning(seed(o), parser_prefix(p));
    if q.len() > 0 {
        let t = read(q, first);
        let blank = read(q, beginning(Seq::empty(), None));
        assert(extglob_opens(g, q, t) == extglob_opens(g, q, blank));
        lemma_bangs_bounds(q, 1);
        lemma_step_moves_on(g, q, first);
        lemma_negation_is_settled(g, q, step(g, q, first));
    }
}

} // verus!
