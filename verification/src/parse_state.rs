//! The parser's cursor: the state of a parse, and what each character of
//! the pattern does to it.

use vstd::prelude::*;
use crate::constants::{posix_regex_source, GlobChars};
use crate::parse::{globstar, ParseOptions};
use crate::parse_model::{
    read, at_bracket, at_char, at_close_brace, at_close_bracket, at_close_paren, at_comma,
    at_dot, at_escape, at_lead, at_open_brace, at_open_bracket, at_open_paren, at_qmark, at_quote,
    at_star, bangs, beginning, class_at, closes, closing, demotes, enter, escaped, extend,
    extglob_close, extglob_open, extglob_opens, first_star, in_class, innermost, leave, literal,
    lemma_step_moves_on, makes_globstar, negate, next_colon, open_extglob, prior_text, push, rewrite, second_star,
    skip_to, star_lead, star_run, step, syntax, trim, Group, Kind, Parsing, Syntax,
};
use crate::scan::{is_on};
use crate::scan_model::{char_at};
use crate::text::{chars_of, push_all, push_between, push_str};
use crate::utils::{extglob_chars, glob_chars, option_text, ExtglobChars, HasPrefixAndNegated};

verus! {

/// The glob syntax as the options shape it, made once for a parse.
pub struct Grammar {
    t: GlobChars,
    star: Vec<char>,
    globstar: Vec<char>,
    nodot: &'static str,
    qmark_no_dot: &'static str,
    capture: bool,
    dot: bool,
    bash: bool,
    noextglob: bool,
    noglobstar: bool,
    strict_slashes: bool,
    extglobs: ExtglobChars,
}

impl View for Grammar {
    type V = Syntax;

    closed spec fn view(&self) -> Syntax {
        Syntax {
            t: self.t@,
            star: self.star@,
            globstar: self.globstar@,
            nodot: self.nodot@,
            qmark_no_dot: self.qmark_no_dot@,
            capture: self.capture,
            dot: self.dot,
            bash: self.bash,
            noextglob: self.noextglob,
            noglobstar: self.noglobstar,
            strict_slashes: self.strict_slashes,
        }
    }
}

impl Grammar {
    /// The table of extglobs belongs to the fragments.
    pub closed spec fn wf(&self) -> bool {
        self.extglobs.holds(self.t@.star)
    }

    /// The syntax that the options ask for.
    pub fn new(o: &ParseOptions) -> (g: Grammar)
        ensures
            g@ == syntax(*o),
            g.wf(),
    {
        let t = glob_chars(o.windows);
        let plain = if is_on(o.bash) {
            globstar(o)
        } else {
            chars_of(t.star)
        };
        let mut star: Vec<char> = Vec::new();
        if is_on(o.capture) {
            push_str(&mut star, "(");
            push_all(&mut star, &plain);
            push_str(&mut star, ")");
            assert(star@ =~= "("@ + plain@ + ")"@);
        } else {
            push_all(&mut star, &plain);
            assert(star@ =~= plain@);
        }
        proof {
            reveal_strlit("");
            assert(""@ =~= Seq::<char>::empty());
        }
        Grammar {
            t,
            star,
            globstar: globstar(o),
            nodot: if is_on(o.dot) {
                ""
            } else {
                t.no_dot
            },
            qmark_no_dot: if is_on(o.dot) {
                t.qmark
            } else {
                t.qmark_no_dot
            },
            capture: is_on(o.capture),
            dot: is_on(o.dot),
            bash: is_on(o.bash),
            noextglob: match o.noext {
                Some(v) => v,
                None => is_on(o.noextglob),
            },
            noglobstar: is_on(o.noglobstar),
            strict_slashes: is_on(o.strict_slashes),
            extglobs: extglob_chars(&t),
        }
    }

    /// What opens the extglob that `lead` leads in.
    fn open_of(&self, lead: char) -> (r: Vec<char>)
        requires
            self.wf(),
        ensures
            r@ == extglob_open(self@, lead),
    {
        let mut r: Vec<char> = Vec::new();
        if self.capture {
            push_str(&mut r, "(");
        } else {
            push_str(&mut r, "");
        }
        match self.extglobs.get(lead) {
            Some(e) => {
                push_str(&mut r, e.open);
            },
            None => {},
        }
        assert(r@ =~= extglob_open(self@, lead));
        r
    }

    /// What closes it.
    fn close_of(&self, lead: char) -> (r: Vec<char>)
        requires
            self.wf(),
        ensures
            r@ == extglob_close(self@, lead),
    {
        let mut r: Vec<char> = Vec::new();
        match self.extglobs.get(lead) {
            Some(e) => {
                push_str(&mut r, e.close.as_str());
            },
            None => {},
        }
        if self.capture {
            push_str(&mut r, ")");
        } else {
            push_str(&mut r, "");
        }
        assert(r@ =~= extglob_close(self@, lead));
        r
    }
}

/// Whether the group that opens before `p[from]` is closed later.
pub fn group_closes(p: &Vec<char>, from: usize, open: char, close: char) -> (r: bool)
    ensures
        r == closes(p@, from as int, open, close, 0),
{
    let mut i: usize = from;
    let mut depth: usize = 0;
    loop
        invariant
            depth <= i,
            closes(p@, from as int, open, close, 0) == closes(p@, i as int, open, close, depth as nat),
        decreases p.len() - i,
    {
        if i >= p.len() {
            return false;
        }
        let c = p[i];
        if c == '\\' {
            if p.len() - i >= 2 {
                i += 2;
            } else {
                return false;
            }
        } else if c == close {
            if depth == 0 {
                return true;
            }
            depth -= 1;
            i += 1;
        } else if c == open {
            depth += 1;
            i += 1;
        } else {
            i += 1;
        }
    }
}

/// The first position from `from` on that holds a colon, or the end.
fn find_colon(p: &Vec<char>, from: usize) -> (r: usize)
    ensures
        r == next_colon(p@, from as int),
        from <= r <= p.len() || (from > p.len() && r == p.len()),
{
    let mut i: usize = from;
    while i < p.len() && p[i] != ':'
        invariant
            from <= i,
            next_colon(p@, from as int) == next_colon(p@, i as int),
        decreases p.len() - i,
    {
        i += 1;
    }
    if i >= p.len() {
        p.len()
    } else {
        i
    }
}

/// How many exclamation marks from `from` on belong to a negation.
fn count_bangs(p: &Vec<char>, from: usize) -> (r: usize)
    requires
        from <= p.len(),
    ensures
        r == bangs(p@, from as int),
        from + r <= p.len(),
{
    let mut i: usize = from;
    loop
        invariant
            from <= i <= p.len(),
            bangs(p@, from as int) == (i - from) + bangs(p@, i as int),
        decreases p.len() - i,
    {
        if i >= p.len() || p[i] != '!' {
            return i - from;
        }
        let opens = p.len() - i > 1 && p[i + 1] == '(';
        let asks = p.len() - i > 2 && p[i + 2] == '?';
        if opens && !asks {
            return i - from;
        }
        i += 1;
    }
}

/// `a + b`, or the greatest number where that is too great.
fn capped_sum(a: usize, b: usize) -> (r: usize)
    ensures
        r == a + b || (r == usize::MAX && a + b > usize::MAX),
{
    if a <= usize::MAX - b {
        a + b
    } else {
        usize::MAX
    }
}

/// Takes the last `k` characters off `v`.
fn trim_vec(v: &mut Vec<char>, k: usize)
    ensures
        final(v)@ == trim(old(v)@, k as int),
{
    if k == 0 {
    } else if k <= v.len() {
        let keep = v.len() - k;
        v.truncate(keep);
        assert(v@ =~= trim(old(v)@, k as int));
    } else {
        v.truncate(0);
        assert(v@ =~= trim(old(v)@, k as int));
    }
}

/// A token as it is handed to the cursor: what it writes, and the text of
/// the pattern that it stands for. A token without an output writes its
/// value.
#[derive(Clone, Debug, Default)]
pub struct ParseToken {
    pub output: Option<String>,
    pub value: Option<String>,
}

/// What a token writes.
pub open spec fn written(token: ParseToken) -> Seq<char> {
    match token.output {
        Some(s) => s@,
        None => text_or_empty(token.value),
    }
}

/// The text, or no text where none is given.
pub open spec fn text_or_empty(text: Option<String>) -> Seq<char> {
    match text {
        Some(s) => s@,
        None => Seq::empty(),
    }
}

/// The cursor of the parser.
pub struct ParseState {
    input: Vec<char>,
    index: usize,
    start: usize,
    consumed: Vec<char>,
    output: Vec<char>,
    pub prefix: Option<String>,
    backtrack: bool,
    negated: bool,
    brackets: usize,
    braces: usize,
    parens: usize,
    quotes: usize,
    globstar: bool,
    prev_kind: Kind,
    prev_len: usize,
    star_run: bool,
    lead_len: usize,
    prior_kind: Kind,
    prior_len: usize,
    before_kind: Kind,
    groups: Vec<Group>,
}

impl View for ParseState {
    type V = Parsing;

    closed spec fn view(&self) -> Parsing {
        self.model()
    }
}

impl HasPrefixAndNegated for ParseState {
    closed spec fn prefix_text(&self) -> Option<Seq<char>> {
        option_text(self.prefix)
    }

    closed spec fn is_negated(&self) -> bool {
        self.negated
    }

    fn prefix(&self) -> (r: &Option<String>) {
        &self.prefix
    }

    fn negated(&self) -> (r: bool) {
        self.negated
    }

    fn set_prefix(&mut self, prefix: String) {
        self.prefix = Some(prefix);
    }
}

impl ParseState {
    #[verifier::opaque]
    spec fn model(&self) -> Parsing {
        Parsing {
            index: self.index as int,
            start: self.start as int,
            consumed: self.consumed@,
            output: self.output@,
            prefix: option_text(self.prefix),
            negated: self.negated,
            globstar: self.globstar,
            backtrack: self.backtrack,
            brackets: self.brackets as int,
            braces: self.braces as int,
            parens: self.parens as int,
            quotes: self.quotes as int,
            prev_kind: self.prev_kind,
            prev_len: self.prev_len as int,
            star_run: self.star_run,
            lead_len: self.lead_len as int,
            prior_kind: self.prior_kind,
            prior_len: self.prior_len as int,
            before_kind: self.before_kind,
            groups: self.groups@,
        }
    }

    /// The pattern that is parsed.
    pub closed spec fn text(&self) -> Seq<char> {
        self.input@
    }

    /// The numbers of the state fit the pattern and the output.
    #[verifier::opaque]
    spec fn fit(&self) -> bool {
        &&& self.start <= self.index
        &&& self.brackets <= self.index
        &&& self.braces <= self.index
        &&& self.parens <= self.index
        &&& self.prev_len + self.lead_len <= self.output@.len()
    }

    /// What holds of every state that the parser is in.
    pub closed spec fn wf(&self) -> bool {
        self.fit()
    }

    /// The state before anything of `input` is read; the output begins with
    /// `seed`.
    pub fn new(input: Vec<char>, seed: Vec<char>, prefix: Option<String>) -> (r: ParseState)
        ensures
            r.wf(),
            r.text() == input@,
            r@ == beginning(seed@, option_text(prefix)),
    {
        reveal(ParseState::model);
        reveal(ParseState::fit);
        let n = seed.len();
        ParseState {
            input,
            index: 0,
            start: 0,
            consumed: Vec::new(),
            output: seed,
            prefix,
            backtrack: false,
            negated: false,
            brackets: 0,
            braces: 0,
            parens: 0,
            quotes: 0,
            globstar: false,
            prev_kind: Kind::Bos,
            prev_len: n,
            star_run: false,
            lead_len: 0,
            prior_kind: Kind::Bos,
            prior_len: 0,
            before_kind: Kind::Bos,
            groups: Vec::new(),
        }
    }

    /// Whether the pattern is read to its end.
    pub fn eos(&self) -> (b: bool)
        requires
            self.wf(),
        ensures
            b == (self@.index >= self.text().len()),
            0 <= self@.index,
    {
        reveal(ParseState::model);
        reveal(ParseState::fit);
        self.index >= self.input.len()
    }

    /// The `n`-th character that is still to be read, counted from 1.
    pub fn peek(&self, n: usize) -> (c: Option<char>)
        requires
            self.wf(),
        ensures
            0 <= self@.index,
            c == if n >= 1 {
                char_at(self.text(), self@.index + n - 1)
            } else {
                None
            },
    {
        reveal(ParseState::model);
        reveal(ParseState::fit);
        if n >= 1 && self.index < self.input.len() && n - 1 < self.input.len() - self.index {
            Some(self.input[self.index + (n - 1)])
        } else {
            None
        }
    }

    /// What is still to be read.
    pub fn remaining(&self) -> (r: Vec<char>)
        requires
            self.wf(),
        ensures
            r@ == if self@.index <= self.text().len() {
                self.text().subrange(self@.index, self.text().len() as int)
            } else {
                Seq::empty()
            },
    {
        reveal(ParseState::model);
        reveal(ParseState::fit);
        let mut r: Vec<char> = Vec::new();
        if self.index <= self.input.len() {
            push_between(&mut r, &self.input, self.index, self.input.len());
            assert(r@ =~= self.text().subrange(self@.index, self.text().len() as int));
        }
        r
    }

    /// Moves on to the next character and returns it. The character is not
    /// yet counted as consumed, and nothing is written. At the end of the
    /// pattern there is nothing to move on to, and nothing changes.
    pub fn advance(&mut self) -> (c: Option<char>)
        requires
            old(self).wf(),
        ensures
            final(self).wf(),
            final(self).text() == old(self).text(),
            0 <= old(self)@.index,
            c == char_at(old(self).text(), old(self)@.index),
            final(self)@ == if c is Some {
                Parsing { index: old(self)@.index + 1, ..old(self)@ }
            } else {
                old(self)@
            },
    {
        reveal(ParseState::model);
        reveal(ParseState::fit);
        if self.index < self.input.len() {
            let c = self.input[self.index];
            self.index += 1;
            Some(c)
        } else {
            None
        }
    }

    /// Counts `value` as consumed and moves on by `num` characters, by one
    /// where no number is given. The cursor may come to lie behind the end
    /// of the pattern, where there is nothing more to read.
    pub fn consume(&mut self, value: Option<String>, num: Option<usize>)
        requires
            old(self).wf(),
            old(self)@.index + (match num {
                Some(n) => n,
                None => 1,
            }) <= usize::MAX,
        ensures
            final(self).wf(),
            final(self).text() == old(self).text(),
            final(self)@ == (Parsing {
                index: old(self)@.index + (match num {
                    Some(n) => n,
                    None => 1,
                }),
                consumed: old(self)@.consumed + text_or_empty(value),
                ..old(self)@
            }),
    {
        let chars = match &value {
            Some(s) => chars_of(s.as_str()),
            None => Vec::new(),
        };
        let by = match num {
            Some(n) => n,
            None => 1,
        };
        self.count(&chars, by);
    }

    /// Writes a token and consumes what it stands for: the output grows by
    /// the token's output, or by its value where it has no output; the
    /// token's value is counted as consumed, and the cursor moves on by one
    /// character.
    pub fn append(&mut self, token: &ParseToken)
        requires
            old(self).wf(),
            token.output is Some || token.value is Some,
            old(self)@.index + 1 <= usize::MAX,
        ensures
            final(self).wf(),
            final(self).text() == old(self).text(),
            final(self)@ == (Parsing {
                output: old(self)@.output + written(*token),
                consumed: old(self)@.consumed + text_or_empty(token.value),
                index: old(self)@.index + 1,
                ..old(self)@
            }),
    {
        let out = match &token.output {
            Some(s) => chars_of(s.as_str()),
            None => match &token.value {
                Some(v) => chars_of(v.as_str()),
                None => Vec::new(),
            },
        };
        let value = match &token.value {
            Some(v) => chars_of(v.as_str()),
            None => Vec::new(),
        };
        self.write(&out);
        self.count(&value, 1);
    }

    /// Counts `value` as consumed and moves on by `num` characters.
    fn count(&mut self, value: &Vec<char>, num: usize)
        requires
            old(self).wf(),
            old(self)@.index + num <= usize::MAX,
        ensures
            final(self).wf(),
            final(self).text() == old(self).text(),
            final(self)@ == (Parsing {
                index: old(self)@.index + num,
                consumed: old(self)@.consumed + value@,
                ..old(self)@
            }),
    {
        reveal(ParseState::model);
        reveal(ParseState::fit);
        push_all(&mut self.consumed, value);
        self.index += num;
    }

    /// Writes `out` at the end of the output, and consumes nothing.
    fn write(&mut self, out: &Vec<char>)
        requires
            old(self).wf(),
        ensures
            final(self).wf(),
            final(self).text() == old(self).text(),
            final(self)@ == (Parsing { output: old(self)@.output + out@, ..old(self)@ }),
    {
        reveal(ParseState::model);
        reveal(ParseState::fit);
        push_all(&mut self.output, out);
    }

    /// Reads the next character, if there is one: moves on to it and counts
    /// it as consumed.
    fn read(&mut self) -> (c: Option<char>)
        requires
            old(self).wf(),
        ensures
            final(self).wf(),
            final(self).text() == old(self).text(),
            c == char_at(old(self).text(), old(self)@.index),
            final(self)@ == if c is Some {
                read(old(self).text(), old(self)@)
            } else {
                old(self)@
            },
    {
        match self.advance() {
            Some(c) => {
                let mut one: Vec<char> = Vec::new();
                one.push(c);
                proof {
                    self.lemma_bounds();
                }
                self.count(&one, 0);
                assert(self@.consumed =~= old(self)@.consumed.push(c));
                Some(c)
            },
            None => None,
        }
    }

    /// How many characters the cursor has moved over.
    pub fn index(&self) -> (r: usize)
        ensures
            r == self@.index,
    {
        reveal(ParseState::model);
        self.index
    }

    /// The text of the pattern that counts as consumed.
    pub fn consumed(&self) -> (r: &Vec<char>)
        ensures
            r@ == self@.consumed,
    {
        reveal(ParseState::model);
        &self.consumed
    }

    /// The source written so far.
    pub fn output(&self) -> (r: &Vec<char>)
        ensures
            r@ == self@.output,
    {
        reveal(ParseState::model);
        &self.output
    }

    /// Whether the pattern has turned out to be negated.
    pub fn is_negated(&self) -> (r: bool)
        ensures
            r == self@.negated,
    {
        reveal(ParseState::model);
        self.negated
    }

    /// The kind of the token written last.
    pub fn prev_kind(&self) -> (r: Kind)
        ensures
            r == self@.prev_kind,
    {
        reveal(ParseState::model);
        self.prev_kind
    }

    /// The cursor moves on to `to`.
    fn skip_to(&mut self, to: usize)
        requires
            old(self).wf(),
            old(self)@.index <= to <= old(self).text().len(),
        ensures
            final(self).wf(),
            final(self).text() == old(self).text(),
            final(self)@ == skip_to(old(self).text(), old(self)@, to as int),
    {
        proof {
            self.lemma_bounds();
        }
        let (value, num) = self.ahead(to);
        self.count(&value, num);
    }

    /// The characters from the cursor up to `to`, and how many they are.
    fn ahead(&self, to: usize) -> (r: (Vec<char>, usize))
        requires
            self.wf(),
            self@.index <= to <= self.text().len(),
        ensures
            r.0@ == self.text().subrange(self@.index, to as int),
            r.1 == to - self@.index,
    {
        reveal(ParseState::model);
        reveal(ParseState::fit);
        let mut value: Vec<char> = Vec::new();
        push_between(&mut value, &self.input, self.index, to);
        (value, to - self.index)
    }

    /// Reads the exclamation marks of a negation, of which the first is read
    /// already.
    pub fn negate(&mut self) -> (r: bool)
        requires
            old(self).wf(),
            old(self)@.start < old(self)@.index,
        ensures
            final(self).wf(),
            final(self).text() == old(self).text(),
            final(self)@ == negate(old(self).text(), old(self)@),
            r == final(self)@.negated,
            final(self)@.index >= old(self)@.index,
    {
        reveal(ParseState::model);
        reveal(ParseState::fit);
        let more = if self.index <= self.input.len() {
            count_bangs(&self.input, self.index)
        } else {
            0
        };
        let odd = (1 + more) % 2 == 1;
        if more > 0 {
            push_between(&mut self.consumed, &self.input, self.index, self.index + more);
        }
        self.index = self.index + more;
        self.start = self.start + more;
        if odd {
            self.start = self.start + 1;
        }
        self.negated = odd;
        odd
    }

    /// Writes a token of kind `kind`.
    fn push(&mut self, g: &Grammar, kind: Kind, out: &Vec<char>)
        requires
            old(self).wf(),
        ensures
            final(self).wf(),
            final(self).text() == old(self).text(),
            final(self)@ == push(g@, old(self)@, kind, out@),
    {
        reveal(ParseState::model);
        reveal(ParseState::fit);
        let demoted = match self.prev_kind {
            Kind::Globstar => match kind {
                Kind::Slash => false,
                Kind::Paren => false,
                Kind::Comma => self.braces == 0,
                Kind::Brace => self.braces == 0,
                _ => true,
            },
            _ => false,
        };
        assert(demoted == demotes(old(self)@, kind));
        if demoted {
            trim_vec(&mut self.output, self.prev_len);
            push_all(&mut self.output, &g.star);
            self.prev_kind = Kind::Star;
            self.prev_len = g.star.len();
        }
        let merge = match (self.prev_kind, kind) {
            (Kind::Text, Kind::Text) => true,
            _ => false,
        };
        push_all(&mut self.output, out);
        let n = self.output.len();
        if merge {
            self.prev_len = self.prev_len + out.len();
        } else {
            self.before_kind = self.prior_kind;
            self.prior_kind = self.prev_kind;
            self.prior_len = self.prev_len;
            self.prev_kind = kind;
            self.prev_len = out.len();
        }
        self.star_run = false;
        self.lead_len = 0;
    }

    fn push_str(&mut self, g: &Grammar, kind: Kind, out: &str)
        requires
            old(self).wf(),
        ensures
            final(self).wf(),
            final(self).text() == old(self).text(),
            final(self)@ == push(g@, old(self)@, kind, out@),
    {
        let v = chars_of(out);
        self.push(g, kind, &v);
    }

    /// Writes `c` behind a backslash.
    fn push_escaped(&mut self, g: &Grammar, c: char)
        requires
            old(self).wf(),
        ensures
            final(self).wf(),
            final(self).text() == old(self).text(),
            final(self)@ == push(g@, old(self)@, Kind::Text, escaped(c)),
    {
        let mut v: Vec<char> = Vec::new();
        v.push('\\');
        v.push(c);
        assert(v@ =~= escaped(c));
        self.push(g, Kind::Text, &v);
    }

    /// Writes `c` as it stands.
    fn push_char(&mut self, g: &Grammar, c: char)
        requires
            old(self).wf(),
        ensures
            final(self).wf(),
            final(self).text() == old(self).text(),
            final(self)@ == push(g@, old(self)@, Kind::Text, seq![c]),
    {
        let mut v: Vec<char> = Vec::new();
        v.push(c);
        assert(v@ =~= seq![c]);
        self.push(g, Kind::Text, &v);
    }

    /// Counts `len` more characters as written by the last token.
    fn lengthen(&mut self, len: usize)
        requires
            old(self).wf(),
            old(self)@.prev_len + old(self)@.lead_len + len <= old(self)@.output.len(),
        ensures
            final(self).wf(),
            final(self).text() == old(self).text(),
            final(self)@ == (Parsing { prev_len: old(self)@.prev_len + len, ..old(self)@ }),
    {
        reveal(ParseState::model);
        reveal(ParseState::fit);
        let n = self.output.len();
        self.prev_len = self.prev_len + len;
    }

    /// Writes more of the last token.
    fn extend(&mut self, out: &Vec<char>)
        requires
            old(self).wf(),
        ensures
            final(self).wf(),
            final(self).text() == old(self).text(),
            final(self)@ == extend(old(self)@, out@),
    {
        proof {
            self.lemma_lengths();
        }
        self.write(out);
        self.lengthen(out.len());
    }

    fn extend_str(&mut self, out: &str)
        requires
            old(self).wf(),
        ensures
            final(self).wf(),
            final(self).text() == old(self).text(),
            final(self)@ == extend(old(self)@, out@),
    {
        let v = chars_of(out);
        self.extend(&v);
    }

    /// Takes the last `k` characters off the output and writes `out` as the
    /// last token.
    fn rewrite(&mut self, k: usize, kind: Kind, out: &Vec<char>)
        requires
            old(self).wf(),
        ensures
            final(self).wf(),
            final(self).text() == old(self).text(),
            final(self)@ == rewrite(old(self)@, k as int, kind, out@),
    {
        reveal(ParseState::model);
        reveal(ParseState::fit);
        trim_vec(&mut self.output, k);
        push_all(&mut self.output, out);
        self.prev_kind = kind;
        self.prev_len = out.len();
        self.lead_len = 0;
        self.globstar = true;
    }

    /// A group opens; what opens it has just been read.
    fn enter(&mut self, group: Group)
        requires
            old(self).wf(),
            old(self)@.parens < old(self)@.index,
            old(self)@.braces < old(self)@.index,
        ensures
            final(self).wf(),
            final(self).text() == old(self).text(),
            final(self)@ == enter(old(self)@, group),
    {
        reveal(ParseState::model);
        reveal(ParseState::fit);
        self.groups.push(group);
        match group {
            Group::Brace => {
                self.braces += 1;
            },
            _ => {
                self.parens += 1;
            },
        }
    }

    /// The innermost group closes.
    fn leave(&mut self)
        requires
            old(self).wf(),
            old(self)@.groups.len() > 0,
        ensures
            final(self).wf(),
            final(self).text() == old(self).text(),
            final(self)@ == leave(old(self)@),
    {
        reveal(ParseState::model);
        reveal(ParseState::fit);
        let last = self.groups.pop();
        assert(self.groups@ =~= old(self).groups@.drop_last());
        match last {
            Some(Group::Brace) => {
                if self.braces > 0 {
                    self.braces -= 1;
                }
            },
            _ => {
                if self.parens > 0 {
                    self.parens -= 1;
                }
            },
        }
    }

    /// The innermost open group.
    fn innermost(&self) -> (r: Option<Group>)
        ensures
            r == innermost(self@),
    {
        reveal(ParseState::model);
        if self.groups.len() > 0 {
            Some(self.groups[self.groups.len() - 1])
        } else {
            None
        }
    }

    /// Whether the group that opens `ahead` characters on is closed later.
    fn closes_later(&self, ahead: usize, open: char, close: char) -> (r: bool)
        requires
            self.wf(),
            ahead <= 1,
        ensures
            r == closes(self.text(), self@.index + ahead, open, close, 0),
    {
        reveal(ParseState::model);
        reveal(ParseState::fit);
        if self.index > self.input.len() || ahead > self.input.len() - self.index {
            assert(!closes(self.text(), self@.index + ahead, open, close, 0));
            false
        } else {
            group_closes(&self.input, self.index + ahead, open, close)
        }
    }

    /// Whether the state is inside a bracket expression, a quotation, or
    /// neither.
    fn in_brackets(&self) -> (b: bool)
        ensures
            b == (self@.brackets > 0),
    {
        reveal(ParseState::model);
        self.brackets > 0
    }

    fn in_quotes(&self) -> (b: bool)
        ensures
            b == (self@.quotes == 1),
    {
        reveal(ParseState::model);
        self.quotes == 1
    }

    fn at_quote(&mut self)
        requires
            old(self).wf(),
        ensures
            final(self).wf(),
            final(self).text() == old(self).text(),
            final(self)@ == at_quote(old(self)@),
    {
        reveal(ParseState::model);
        reveal(ParseState::fit);
        self.quotes = if self.quotes == 1 {
            0
        } else {
            1
        };
    }

    fn open_bracket(&mut self)
        requires
            old(self).wf(),
            old(self)@.brackets < old(self)@.index,
        ensures
            final(self).wf(),
            final(self).text() == old(self).text(),
            final(self)@ == (Parsing { brackets: old(self)@.brackets + 1, ..old(self)@ }),
    {
        reveal(ParseState::model);
        reveal(ParseState::fit);
        self.brackets += 1;
    }

    fn close_bracket(&mut self)
        requires
            old(self).wf(),
            old(self)@.brackets > 0,
        ensures
            final(self).wf(),
            final(self).text() == old(self).text(),
            final(self)@ == (Parsing { brackets: old(self)@.brackets - 1, ..old(self)@ }),
    {
        reveal(ParseState::model);
        reveal(ParseState::fit);
        self.brackets -= 1;
    }

    /// Notes the length of what was written before a star.
    fn note_lead(&mut self, len: usize)
        requires
            old(self).wf(),
            old(self)@.prev_len + len <= old(self)@.output.len(),
        ensures
            final(self).wf(),
            final(self).text() == old(self).text(),
            final(self)@ == (Parsing { lead_len: len as int, ..old(self)@ }),
    {
        reveal(ParseState::model);
        reveal(ParseState::fit);
        self.lead_len = len;
    }

    /// Notes that the last star stands for a run of stars.
    fn note_run(&mut self)
        requires
            old(self).wf(),
        ensures
            final(self).wf(),
            final(self).text() == old(self).text(),
            final(self)@ == (Parsing { star_run: true, backtrack: true, ..old(self)@ }),
    {
        reveal(ParseState::model);
        reveal(ParseState::fit);
        self.star_run = true;
        self.backtrack = true;
    }

    /// What the tokens before the cursor are.
    fn tokens(&self) -> (r: (Kind, Kind, Kind, bool))
        ensures
            r.0 == self@.prev_kind,
            r.1 == self@.prior_kind,
            r.2 == self@.before_kind,
            r.3 == self@.star_run,
    {
        reveal(ParseState::model);
        (self.prev_kind, self.prior_kind, self.before_kind, self.star_run)
    }

    /// The lengths of what the last tokens wrote, and of what went before
    /// the last star.
    fn lengths(&self) -> (r: (usize, usize, usize))
        ensures
            r.0 == self@.prev_len,
            r.1 == self@.prior_len,
            r.2 == self@.lead_len,
    {
        reveal(ParseState::model);
        (self.prev_len, self.prior_len, self.lead_len)
    }

    /// Whether the cursor is at the start of the pattern proper, with one
    /// character read.
    fn at_start(&self) -> (b: bool)
        ensures
            b == (self@.index - 1 == self@.start),
    {
        reveal(ParseState::model);
        self.index >= 1 && self.index - 1 == self.start
    }

    fn first_read(&self) -> (b: bool)
        ensures
            b == (self@.index == 1),
    {
        reveal(ParseState::model);
        self.index == 1
    }

    fn nothing_written(&self) -> (b: bool)
        ensures
            b == (self@.output.len() == 0),
    {
        reveal(ParseState::model);
        self.output.len() == 0
    }

    /// Whether no group is open.
    fn outside_groups(&self) -> (b: bool)
        ensures
            b == (self@.braces + self@.parens == 0),
    {
        reveal(ParseState::model);
        self.braces == 0 && self.parens == 0
    }

    /// The counters lie below the number of characters read: a character has
    /// been read since they last grew.
    spec fn room(&self) -> bool {
        &&& self@.parens < self@.index
        &&& self@.braces < self@.index
        &&& self@.brackets < self@.index
        &&& self@.start < self@.index
    }

    /// The separator before the last token, as it was written.
    fn prior_text(&self) -> (r: Vec<char>)
        ensures
            r@ == prior_text(self@),
    {
        reveal(ParseState::model);
        let mut r: Vec<char> = Vec::new();
        let n = self.output.len();
        if self.prev_len <= n && self.prior_len <= n - self.prev_len {
            let to = n - self.prev_len;
            push_between(&mut r, &self.output, to - self.prior_len, to);
            assert(r@ =~= prior_text(self@));
        }
        r
    }

    /// What `wf` says of the lengths.
    proof fn lemma_lengths(&self)
        requires
            self.wf(),
        ensures
            0 <= self@.prev_len,
            0 <= self@.lead_len,
            self@.prev_len + self@.lead_len <= self@.output.len(),
    {
        reveal(ParseState::model);
        reveal(ParseState::fit);
    }

    /// What `wf` says of the numbers.
    proof fn lemma_bounds(&self)
        requires
            self.wf(),
        ensures
            0 <= self@.start <= self@.index <= usize::MAX,
            0 <= self@.brackets <= self@.index,
            0 <= self@.braces <= self@.index,
            0 <= self@.parens <= self@.index,
    {
        reveal(ParseState::model);
        reveal(ParseState::fit);
    }

    /// Takes the last `a + b` characters off the output and writes `out` as
    /// the last token.
    fn rewrite_two(&mut self, a: usize, b: usize, kind: Kind, out: &Vec<char>)
        requires
            old(self).wf(),
        ensures
            final(self).wf(),
            final(self).text() == old(self).text(),
            final(self)@ == rewrite(old(self)@, a + b, kind, out@),
    {
        let k = capped_sum(a, b);
        proof {
            reveal(ParseState::model);
            let n = self.output.len();
            assert(trim(self@.output, k as int) == trim(self@.output, a + b));
        }
        self.rewrite(k, kind, out);
    }

    /// The body of the POSIX class that is named behind the cursor, and
    /// where the name and its `:]` end.
    fn class_here(&self) -> (r: Option<(&'static str, usize)>)
        requires
            self.wf(),
        ensures
            match r {
                Some((body, to)) => class_at(self.text(), self@.index + 1) == Some(body@) && to
                    == next_colon(self.text(), self@.index + 1) + 2 && self@.index <= to
                    <= self.text().len(),
                None => class_at(self.text(), self@.index + 1) is None,
            },
    {
        reveal(ParseState::model);
        reveal(ParseState::fit);
        let n = self.input.len();
        if self.index >= n {
            return None;
        }
        let from = self.index + 1;
        let e = find_colon(&self.input, from);
        if e < n && n - e > 1 && self.input[e + 1] == ']' {
            let mut name: Vec<char> = Vec::new();
            push_between(&mut name, &self.input, from, e);
            assert(name@ =~= self.text().subrange(from as int, e as int));
            match posix_regex_source(&name) {
                Some(body) => Some((body, e + 2)),
                None => None,
            }
        } else {
            None
        }
    }

    fn at_escape(&mut self, g: &Grammar)
        requires
            old(self).wf(),
        ensures
            final(self).wf(),
            final(self).text() == old(self).text(),
            final(self)@ == at_escape(g@, old(self).text(), old(self)@),
            final(self)@.index >= old(self)@.index,
    {
        proof {
            self.lemma_bounds();
        }
        let inside = self.in_brackets();
        match self.read() {
            Some(c) => {
                if inside {
                    self.extend_escaped(c);
                } else {
                    self.push_escaped(g, c);
                }
            },
            None => {
                self.push_escaped(g, '\\');
            },
        }
    }

    fn extend_escaped(&mut self, c: char)
        requires
            old(self).wf(),
        ensures
            final(self).wf(),
            final(self).text() == old(self).text(),
            final(self)@ == extend(old(self)@, escaped(c)),
    {
        let mut v: Vec<char> = Vec::new();
        v.push('\\');
        v.push(c);
        assert(v@ =~= escaped(c));
        self.extend(&v);
    }

    fn extend_char(&mut self, c: char)
        requires
            old(self).wf(),
        ensures
            final(self).wf(),
            final(self).text() == old(self).text(),
            final(self)@ == extend(old(self)@, seq![c]),
    {
        let mut v: Vec<char> = Vec::new();
        v.push(c);
        assert(v@ =~= seq![c]);
        self.extend(&v);
    }

    fn in_class(&mut self, c: char)
        requires
            old(self).wf(),
        ensures
            final(self).wf(),
            final(self).text() == old(self).text(),
            final(self)@ == in_class(old(self).text(), old(self)@, c),
            final(self)@.index >= old(self)@.index,
    {
        if c == '[' {
            let colon = match self.peek(1) {
                Some(n) => n == ':',
                None => false,
            };
            let class = if colon {
                self.class_here()
            } else {
                None
            };
            match class {
                Some((body, to)) => {
                    self.skip_to(to);
                    self.extend_str(body);
                },
                None => {
                    self.extend_escaped('[');
                },
            }
        } else {
            self.extend_char(c);
        }
    }

    /// Writes `c` as a regex that matches `c`.
    fn push_literal(&mut self, g: &Grammar, c: char)
        requires
            old(self).wf(),
        ensures
            final(self).wf(),
            final(self).text() == old(self).text(),
            final(self)@ == push(g@, old(self)@, Kind::Text, literal(c)),
    {
        if c == '-' || c == '*' || c == '+' || c == '?' || c == '.' || c == '^' || c == '$' || c
            == '{' || c == '}' || c == '(' || c == '|' || c == ')' || c == '[' || c == ']' {
            self.push_escaped(g, c);
        } else {
            self.push_char(g, c);
        }
    }

    fn at_open_paren(&mut self, g: &Grammar)
        requires
            old(self).wf(),
            old(self).room(),
        ensures
            final(self).wf(),
            final(self).text() == old(self).text(),
            final(self)@ == at_open_paren(g@, old(self).text(), old(self)@),
    {
        if self.closes_later(0, '(', ')') {
            self.enter(Group::Paren);
            self.push_str(g, Kind::Paren, "(");
        } else {
            self.push_escaped(g, '(');
        }
    }

    fn at_close_paren(&mut self, g: &Grammar)
        requires
            old(self).wf(),
            g.wf(),
        ensures
            final(self).wf(),
            final(self).text() == old(self).text(),
            final(self)@ == at_close_paren(g@, old(self)@),
    {
        match self.innermost() {
            Some(Group::Extglob(lead)) => {
                let close = g.close_of(lead);
                self.push(g, Kind::Paren, &close);
                self.leave();
            },
            Some(Group::Paren) => {
                self.push_str(g, Kind::Paren, ")");
                self.leave();
            },
            _ => {
                self.push_escaped(g, ')');
            },
        }
    }

    fn at_open_bracket(&mut self, g: &Grammar)
        requires
            old(self).wf(),
            old(self).room(),
        ensures
            final(self).wf(),
            final(self).text() == old(self).text(),
            final(self)@ == at_open_bracket(g@, old(self).text(), old(self)@),
    {
        if self.closes_later(0, ']', ']') {
            self.open_bracket();
            self.push_str(g, Kind::Bracket, "[");
        } else {
            self.push_escaped(g, '[');
        }
    }

    fn at_close_bracket(&mut self, g: &Grammar)
        requires
            old(self).wf(),
        ensures
            final(self).wf(),
            final(self).text() == old(self).text(),
            final(self)@ == at_close_bracket(g@, old(self)@),
    {
        if self.in_brackets() {
            self.close_bracket();
            self.extend_str("]");
        } else {
            self.push_escaped(g, ']');
        }
    }

    fn at_open_brace(&mut self, g: &Grammar)
        requires
            old(self).wf(),
            old(self).room(),
        ensures
            final(self).wf(),
            final(self).text() == old(self).text(),
            final(self)@ == at_open_brace(g@, old(self).text(), old(self)@),
    {
        if self.closes_later(0, '{', '}') {
            self.enter(Group::Brace);
            self.push_str(g, Kind::Brace, "(");
        } else {
            self.push_escaped(g, '{');
        }
    }

    fn at_close_brace(&mut self, g: &Grammar)
        requires
            old(self).wf(),
        ensures
            final(self).wf(),
            final(self).text() == old(self).text(),
            final(self)@ == at_close_brace(g@, old(self)@),
    {
        match self.innermost() {
            Some(Group::Brace) => {
                self.push_str(g, Kind::Brace, ")");
                self.leave();
            },
            _ => {
                self.push_escaped(g, '}');
            },
        }
    }

    fn at_bracket(&mut self, g: &Grammar, c: char)
        requires
            old(self).wf(),
            old(self).room(),
            g.wf(),
        ensures
            final(self).wf(),
            final(self).text() == old(self).text(),
            final(self)@ == at_bracket(g@, old(self).text(), old(self)@, c),
            final(self)@.index == old(self)@.index,
    {
        if c == '(' {
            self.at_open_paren(g);
        } else if c == ')' {
            self.at_close_paren(g);
        } else if c == '[' {
            self.at_open_bracket(g);
        } else if c == ']' {
            self.at_close_bracket(g);
        } else if c == '{' {
            self.at_open_brace(g);
        } else {
            self.at_close_brace(g);
        }
    }

    fn at_comma(&mut self, g: &Grammar)
        requires
            old(self).wf(),
        ensures
            final(self).wf(),
            final(self).text() == old(self).text(),
            final(self)@ == at_comma(g@, old(self)@),
    {
        match self.innermost() {
            Some(Group::Brace) => {
                self.push_str(g, Kind::Comma, "|");
            },
            _ => {
                self.push_str(g, Kind::Comma, ",");
            },
        }
    }

    fn at_dot(&mut self, g: &Grammar)
        requires
            old(self).wf(),
        ensures
            final(self).wf(),
            final(self).text() == old(self).text(),
            final(self)@ == at_dot(g@, old(self)@),
    {
        let prev = self.tokens().0;
        let plain = self.outside_groups() && !matches!(prev, Kind::Bos) && !matches!(
            prev,
            Kind::Slash
        );
        if plain {
            self.push_str(g, Kind::Text, g.t.dot_literal);
        } else {
            self.push_str(g, Kind::Dot, g.t.dot_literal);
        }
    }

    fn at_qmark(&mut self, g: &Grammar)
        requires
            old(self).wf(),
        ensures
            final(self).wf(),
            final(self).text() == old(self).text(),
            final(self)@ == at_qmark(g@, old(self)@),
    {
        let prev = self.tokens().0;
        if !g.dot && (matches!(prev, Kind::Slash) || matches!(prev, Kind::Bos)) {
            self.push_str(g, Kind::Qmark, g.t.qmark_no_dot);
        } else {
            self.push_str(g, Kind::Qmark, g.t.qmark);
        }
    }

    /// Whether the character read last leads an extglob in.
    fn extglob_opens(&self, g: &Grammar) -> (b: bool)
        requires
            self.wf(),
        ensures
            b == extglob_opens(g@, self.text(), self@),
    {
        if g.noextglob {
            return false;
        }
        let open = match self.peek(1) {
            Some(c) => c == '(',
            None => false,
        };
        let asks = match self.peek(2) {
            Some(c) => c == '?',
            None => false,
        };
        open && !asks && self.closes_later(1, '(', ')')
    }

    fn open_extglob(&mut self, g: &Grammar, lead: char)
        requires
            old(self).wf(),
            old(self).room(),
            g.wf(),
            char_at(old(self).text(), old(self)@.index) is Some,
        ensures
            final(self).wf(),
            final(self).text() == old(self).text(),
            final(self)@ == open_extglob(g@, old(self).text(), old(self)@, lead),
            final(self)@.index >= old(self)@.index,
    {
        if self.nothing_written() {
            self.push_str(g, Kind::Lead, g.t.one_char);
        } else {
            let none: Vec<char> = Vec::new();
            self.push(g, Kind::Lead, &none);
        }
        let _ = self.read();
        self.enter(Group::Extglob(lead));
        let open = g.open_of(lead);
        self.push(g, Kind::Paren, &open);
    }

    /// What goes before a star at the start of a segment.
    fn star_lead(&self, g: &Grammar) -> (r: Vec<char>)
        requires
            self.wf(),
        ensures
            r@ == star_lead(g@, self.text(), self@),
    {
        let mut r: Vec<char> = Vec::new();
        let prev = self.tokens().0;
        if self.at_start() || matches!(prev, Kind::Slash) || matches!(prev, Kind::Dot) {
            if matches!(prev, Kind::Dot) {
                push_str(&mut r, g.t.no_dot_slash);
            } else if g.dot {
                push_str(&mut r, g.t.no_dots_slash);
            } else {
                push_str(&mut r, g.nodot);
            }
            let star_next = match self.peek(1) {
                Some(c) => c == '*',
                None => false,
            };
            if !star_next {
                push_str(&mut r, g.t.one_char);
            }
        }
        assert(r@ =~= star_lead(g@, self.text(), self@));
        r
    }

    fn first_star(&mut self, g: &Grammar)
        requires
            old(self).wf(),
            old(self)@.prev_kind != Kind::Globstar,
        ensures
            final(self).wf(),
            final(self).text() == old(self).text(),
            final(self)@ == first_star(g@, old(self).text(), old(self)@),
    {
        if g.bash {
            let prev = self.tokens().0;
            let mut out: Vec<char> = Vec::new();
            if matches!(prev, Kind::Bos) || matches!(prev, Kind::Slash) {
                push_str(&mut out, g.nodot);
            }
            push_str(&mut out, ".*?");
            assert(out@ =~= (if self@.prev_kind == Kind::Bos || self@.prev_kind == Kind::Slash {
                g@.nodot
            } else {
                Seq::empty()
            }) + ".*?"@);
            self.push(g, Kind::Star, &out);
        } else {
            let lead = self.star_lead(g);
            self.extend(&lead);
            self.push(g, Kind::Star, &g.star);
            self.note_lead(lead.len());
        }
    }

    fn star_run(&mut self, g: &Grammar)
        requires
            old(self).wf(),
        ensures
            final(self).wf(),
            final(self).text() == old(self).text(),
            final(self)@ == star_run(g@, old(self)@),
    {
        let k = self.lengths().0;
        self.rewrite(k, Kind::Star, &g.star);
        self.note_run();
    }

    /// Whether a second star makes a globstar.
    fn makes_globstar(&self, g: &Grammar) -> (b: bool)
        requires
            self.wf(),
        ensures
            b == makes_globstar(g@, self.text(), self@),
    {
        let prior = self.tokens().1;
        let next_other = match self.peek(1) {
            Some(c) => c != '/',
            None => false,
        };
        !g.noglobstar && (matches!(prior, Kind::Slash) || matches!(prior, Kind::Bos)) && !(g.bash
            && next_other)
    }

    /// The two stars alone in the pattern, or anywhere a globstar is written
    /// in place of the star.
    fn globstar_for_star(&mut self, g: &Grammar, with_lead: bool)
        requires
            old(self).wf(),
        ensures
            final(self).wf(),
            final(self).text() == old(self).text(),
            final(self)@ == rewrite(
                old(self)@,
                old(self)@.prev_len + (if with_lead {
                    old(self)@.lead_len
                } else {
                    0
                }),
                Kind::Globstar,
                g@.globstar,
            ),
    {
        let lens = self.lengths();
        self.rewrite_two(
            lens.0,
            if with_lead {
                lens.2
            } else {
                0
            },
            Kind::Globstar,
            &g.globstar,
        );
    }

    /// The two stars after a separator at the end of the pattern.
    fn globstar_at_end(&mut self, g: &Grammar)
        requires
            old(self).wf(),
        ensures
            final(self).wf(),
            final(self).text() == old(self).text(),
            final(self)@ == rewrite(
                old(self)@,
                old(self)@.prev_len + old(self)@.prior_len,
                Kind::Globstar,
                "(?:"@ + prior_text(old(self)@) + g@.globstar + (if g@.strict_slashes {
                    ")"@
                } else {
                    "|$)"@
                }),
            ),
    {
        let lens = self.lengths();
        let text = self.prior_text();
        let mut out: Vec<char> = Vec::new();
        push_str(&mut out, "(?:");
        push_all(&mut out, &text);
        push_all(&mut out, &g.globstar);
        if g.strict_slashes {
            push_str(&mut out, ")");
        } else {
            push_str(&mut out, "|$)");
        }
        assert(out@ =~= "(?:"@ + prior_text(self@) + g@.globstar + (if g@.strict_slashes {
            ")"@
        } else {
            "|$)"@
        }));
        self.rewrite_two(lens.0, lens.1, Kind::Globstar, &out);
    }

    /// The two stars between separators.
    fn globstar_between(&mut self, g: &Grammar)
        requires
            old(self).wf(),
            char_at(old(self).text(), old(self)@.index) is Some,
        ensures
            final(self).wf(),
            final(self).text() == old(self).text(),
            final(self)@ == push(
                g@,
                read(
                    old(self).text(),
                    rewrite(
                        old(self)@,
                        old(self)@.prev_len + old(self)@.prior_len,
                        Kind::Globstar,
                        "(?:"@ + prior_text(old(self)@) + g@.globstar + g@.t.slash_literal + "|"@
                            + g@.t.slash_literal + (if old(self)@.index + 1 < old(
                            self,
                        ).text().len() {
                            "|$"@
                        } else {
                            ""@
                        }) + ")"@,
                    ),
                ),
                Kind::Slash,
                Seq::empty(),
            ),
    {
        let lens = self.lengths();
        let text = self.prior_text();
        let more = self.peek(2).is_some();
        let mut out: Vec<char> = Vec::new();
        push_str(&mut out, "(?:");
        push_all(&mut out, &text);
        push_all(&mut out, &g.globstar);
        push_str(&mut out, g.t.slash_literal);
        push_str(&mut out, "|");
        push_str(&mut out, g.t.slash_literal);
        if more {
            push_str(&mut out, "|$");
        } else {
            push_str(&mut out, "");
        }
        push_str(&mut out, ")");
        proof {
            self.lemma_bounds();
        }
        assert(out@ =~= "(?:"@ + prior_text(self@) + g@.globstar + g@.t.slash_literal + "|"@
            + g@.t.slash_literal + (if self@.index + 1 < self.text().len() {
            "|$"@
        } else {
            ""@
        }) + ")"@);
        self.rewrite_two(lens.0, lens.1, Kind::Globstar, &out);
        let _ = self.read();
        let none: Vec<char> = Vec::new();
        self.push(g, Kind::Slash, &none);
    }

    /// The two stars at the very start, before a separator.
    fn globstar_at_start(&mut self, g: &Grammar)
        requires
            old(self).wf(),
            char_at(old(self).text(), old(self)@.index) is Some,
        ensures
            final(self).wf(),
            final(self).text() == old(self).text(),
            final(self)@ == push(
                g@,
                read(
                    old(self).text(),
                    rewrite(
                        old(self)@,
                        old(self)@.prev_len + old(self)@.lead_len,
                        Kind::Globstar,
                        "(?:^|"@ + g@.t.slash_literal + "|"@ + g@.globstar + g@.t.slash_literal
                            + ")"@,
                    ),
                ),
                Kind::Slash,
                Seq::empty(),
            ),
    {
        let lens = self.lengths();
        let mut out: Vec<char> = Vec::new();
        push_str(&mut out, "(?:^|");
        push_str(&mut out, g.t.slash_literal);
        push_str(&mut out, "|");
        push_all(&mut out, &g.globstar);
        push_str(&mut out, g.t.slash_literal);
        push_str(&mut out, ")");
        assert(out@ =~= "(?:^|"@ + g@.t.slash_literal + "|"@ + g@.globstar + g@.t.slash_literal
            + ")"@);
        self.rewrite_two(lens.0, lens.2, Kind::Globstar, &out);
        let _ = self.read();
        let none: Vec<char> = Vec::new();
        self.push(g, Kind::Slash, &none);
    }

    fn second_star(&mut self, g: &Grammar)
        requires
            old(self).wf(),
        ensures
            final(self).wf(),
            final(self).text() == old(self).text(),
            final(self)@ == second_star(g@, old(self).text(), old(self)@),
            final(self)@.index >= old(self)@.index,
    {
        let end = self.eos();
        let slash_next = match self.peek(1) {
            Some(c) => c == '/',
            None => false,
        };
        let (_, prior, before, _) = self.tokens();
        let inner = matches!(prior, Kind::Slash) && !matches!(before, Kind::Bos);
        if matches!(prior, Kind::Bos) && end {
            self.globstar_for_star(g, true);
        } else if inner && end && !matches!(before, Kind::Star) && !matches!(
            before,
            Kind::Globstar
        ) {
            self.globstar_at_end(g);
        } else if inner && slash_next {
            self.globstar_between(g);
        } else if matches!(prior, Kind::Bos) && slash_next {
            self.globstar_at_start(g);
        } else {
            self.globstar_for_star(g, false);
        }
    }

    fn at_star(&mut self, g: &Grammar)
        requires
            old(self).wf(),
            old(self).room(),
            g.wf(),
        ensures
            final(self).wf(),
            final(self).text() == old(self).text(),
            final(self)@ == at_star(g@, old(self).text(), old(self)@),
            final(self)@.index >= old(self)@.index,
    {
        let (prev, _, _, run) = self.tokens();
        if self.extglob_opens(g) {
            self.open_extglob(g, '*');
        } else if matches!(prev, Kind::Globstar) || (matches!(prev, Kind::Star) && run) {
            self.star_run(g);
        } else if matches!(prev, Kind::Star) {
            if self.makes_globstar(g) {
                self.second_star(g);
            }
        } else {
            self.first_star(g);
        }
    }

    fn at_lead(&mut self, g: &Grammar, c: char)
        requires
            old(self).wf(),
            old(self).room(),
            g.wf(),
        ensures
            final(self).wf(),
            final(self).text() == old(self).text(),
            final(self)@ == at_lead(g@, old(self).text(), old(self)@, c),
            final(self)@.index >= old(self)@.index,
    {
        if self.extglob_opens(g) {
            self.open_extglob(g, c);
        } else if c == '?' {
            self.at_qmark(g);
        } else if c == '+' {
            self.push_str(g, Kind::Plus, g.t.plus_literal);
        } else if c == '!' && self.first_read() {
            let _ = self.negate();
        } else {
            self.push_char(g, c);
        }
    }

    fn at_char(&mut self, g: &Grammar, c: char)
        requires
            old(self).wf(),
            old(self).room(),
            g.wf(),
        ensures
            final(self).wf(),
            final(self).text() == old(self).text(),
            final(self)@ == at_char(g@, old(self).text(), old(self)@, c),
            final(self)@.index >= old(self)@.index,
    {
        if c == '(' || c == ')' || c == '[' || c == ']' || c == '{' || c == '}' {
            self.at_bracket(g, c);
        } else if c == ',' {
            self.at_comma(g);
        } else if c == '/' {
            self.push_str(g, Kind::Slash, g.t.slash_literal);
        } else if c == '.' {
            self.at_dot(g);
        } else if c == '?' || c == '!' || c == '+' || c == '@' {
            self.at_lead(g, c);
        } else if c == '*' {
            self.at_star(g);
        } else if c == '$' || c == '^' {
            self.push_escaped(g, c);
        } else {
            self.push_char(g, c);
        }
    }

    /// One round of the parser: reads a character and writes what it stands
    /// for.
    pub fn step(&mut self, g: &Grammar)
        requires
            old(self).wf(),
            g.wf(),
            old(self)@.index < old(self).text().len(),
        ensures
            final(self).wf(),
            final(self).text() == old(self).text(),
            final(self)@ == step(g@, old(self).text(), old(self)@),
            old(self)@.index < final(self)@.index <= final(self).text().len(),
    {
        proof {
            self.lemma_bounds();
        }
        let c = match self.read() {
            Some(c) => c,
            None => ' ',
        };
        if c == '\\' {
            self.at_escape(g);
        } else if self.in_brackets() && c != ']' {
            self.in_class(c);
        } else if self.in_quotes() && c != '"' {
            self.push_literal(g, c);
        } else if c == '"' {
            self.at_quote();
        } else {
            self.at_char(g, c);
        }
        proof {
            lemma_step_moves_on(g@, old(self).text(), old(self)@);
        }
    }

    /// The source at the end of the parse.
    pub fn finish(&self, g: &Grammar) -> (r: Vec<char>)
        ensures
            r@ == closing(g@, self@),
    {
        let mut r: Vec<char> = Vec::new();
        push_all(&mut r, self.output());
        let prev = self.prev_kind();
        if !g.strict_slashes && (matches!(prev, Kind::Star) || matches!(prev, Kind::Bracket)) {
            push_str(&mut r, g.t.slash_literal);
            push_str(&mut r, "?");
            assert(r@ =~= self@.output + g@.t.slash_literal + "?"@);
        } else {
            assert(r@ =~= self@.output);
        }
        r
    }
}

} // verus!
