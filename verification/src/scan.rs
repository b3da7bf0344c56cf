//! The scanner: splits a glob pattern into a static prefix and base and a
//! dynamic remainder, and records which glob features the pattern uses.

use vstd::prelude::*;
use crate::scan_model::{
    at_marker, at_separator, at_star, base_of, between, braces_mark, braces_round, brackets_round,
    char_at, closing, deepest, finish, glob_of, group_round, has_tail, heads, in_braces,
    in_brackets, in_group, initial, leave, lemma_step_moves_on, no_marks, on, open_extglob,
    byte_offsets, open_group, parts_of, pass, path_separator, raw_base, run, scanned,
    sheds_separator, sound,
    step, take, token_of, tokens_of, with_brace, with_bracket, with_escape, with_ext_glob,
    with_glob, with_glob_star, with_negation, Cursor, ScanView, TokenView,
};
use crate::text::{byte_offset, byte_offsets_of, chars_of, string_between};
use crate::utils::{remove_back_slashes, texts_of, without_back_slashes};

verus! {

/// The feature marks of one path segment, or of the whole pattern.
#[derive(Clone, Copy, Debug, PartialEq, Eq, Default)]
pub struct Marks {
    pub is_glob: bool,
    pub back_slashes: bool,
    pub is_brace: bool,
    pub is_ext_glob: bool,
    pub is_glob_star: bool,
    pub is_bracket: bool,
    pub negated: bool,
}

/// A path segment that a separator has closed: its marks, and how many braces
/// were open when it was closed.
#[derive(Clone, Copy, Debug, PartialEq, Eq, Default)]
pub struct Segment {
    pub marks: Marks,
    pub depth: usize,
}

/// The options of a scan.
#[derive(Clone, Copy, Debug, Default)]
pub struct ScanOptions {
    pub parts: Option<bool>,
    pub scan_to_end: Option<bool>,
    pub noext: Option<bool>,
    pub nonegate: Option<bool>,
    pub noparen: Option<bool>,
    pub unescape: Option<bool>,
    pub tokens: Option<bool>,
}

/// Whether an option is set: it counts as set only when it is `Some(true)`.
pub fn is_on(o: Option<bool>) -> (b: bool)
    ensures
        b == on(o),
{
    match o {
        Some(v) => v,
        None => false,
    }
}

/// Whether `c` is a character that separates path segments.
pub fn is_path_separator(c: Option<char>) -> (b: bool)
    ensures
        b == path_separator(c),
{
    match c {
        Some(v) => v == '/' || v == '\\',
        None => false,
    }
}

/// The record of one path segment.
#[derive(Default, Clone, Debug, PartialEq)]
pub struct Token {
    pub value: String,
    pub depth: usize,
    pub is_glob: bool,
    pub back_slashes: bool,
    pub is_brace: bool,
    pub is_ext_glob: bool,
    pub is_glob_star: bool,
    pub is_bracket: bool,
    pub is_prefix: Option<bool>,
    pub negated: Option<bool>,
}

impl View for Token {
    type V = TokenView;

    open spec fn view(&self) -> TokenView {
        TokenView {
            value: self.value@,
            depth: self.depth,
            is_glob: self.is_glob,
            back_slashes: self.back_slashes,
            is_brace: self.is_brace,
            is_ext_glob: self.is_ext_glob,
            is_glob_star: self.is_glob_star,
            is_bracket: self.is_bracket,
            is_prefix: self.is_prefix,
            negated: self.negated,
        }
    }
}

/// What a scan returns. `start` and `slashes` are byte offsets into the
/// pattern.
#[derive(Default, Clone, Debug, PartialEq)]
pub struct ScanState {
    pub prefix: String,
    pub input: String,
    pub start: usize,
    pub base: String,
    pub glob: String,
    pub is_brace: bool,
    pub is_bracket: bool,
    pub is_glob: bool,
    pub is_ext_glob: bool,
    pub is_glob_star: bool,
    pub negated: bool,
    pub negated_extglob: bool,
    pub slashes: Option<Vec<usize>>,
    pub parts: Option<Vec<String>>,
    pub max_depth: Option<usize>,
    pub tokens: Option<Vec<Token>>,
}

/// The views of a list of tokens.
pub open spec fn token_views(v: Seq<Token>) -> Seq<TokenView> {
    Seq::new(v.len(), |i: int| v[i]@)
}

impl View for ScanState {
    type V = ScanView;

    open spec fn view(&self) -> ScanView {
        ScanView {
            prefix: self.prefix@,
            input: self.input@,
            start: self.start as int,
            base: self.base@,
            glob: self.glob@,
            is_brace: self.is_brace,
            is_bracket: self.is_bracket,
            is_glob: self.is_glob,
            is_ext_glob: self.is_ext_glob,
            is_glob_star: self.is_glob_star,
            negated: self.negated,
            negated_extglob: self.negated_extglob,
            slashes: match self.slashes {
                Some(v) => Some(v@),
                None => None,
            },
            parts: match self.parts {
                Some(v) => Some(texts_of(v@)),
                None => None,
            },
            max_depth: self.max_depth,
            tokens: match self.tokens {
                Some(v) => Some(token_views(v@)),
                None => None,
            },
        }
    }
}

/// The cursor as the scan runs it.
struct Walker {
    index: usize,
    start: usize,
    last_index: usize,
    braces: usize,
    prev: Option<char>,
    code: Option<char>,
    all: Marks,
    segment: Marks,
    negated_extglob: bool,
    finished: bool,
    stopped: bool,
    slashes: Vec<usize>,
    segments: Vec<Segment>,
}

/// What is left of the cursor when the scan is over.
struct Found {
    start: usize,
    last_index: usize,
    braces: usize,
    code: Option<char>,
    all: Marks,
    segment: Marks,
    negated_extglob: bool,
    slashes: Vec<usize>,
    segments: Vec<Segment>,
}

fn is_char(c: Option<char>, x: char) -> (b: bool)
    ensures
        b == (c == Some(x)),
{
    match c {
        Some(v) => v == x,
        None => false,
    }
}

fn plain_marks() -> (m: Marks)
    ensures
        m == no_marks(),
{
    Marks {
        is_glob: false,
        back_slashes: false,
        is_brace: false,
        is_ext_glob: false,
        is_glob_star: false,
        is_bracket: false,
        negated: false,
    }
}

impl View for Walker {
    type V = Cursor;

    closed spec fn view(&self) -> Cursor {
        self.model()
    }
}

impl Walker {
    #[verifier::opaque]
    spec fn model(&self) -> Cursor {
        Cursor {
            index: self.index as int,
            start: self.start as int,
            last_index: self.last_index as int,
            braces: self.braces as int,
            prev: self.prev,
            code: self.code,
            all: self.all,
            segment: self.segment,
            negated_extglob: self.negated_extglob,
            finished: self.finished,
            stopped: self.stopped,
            slashes: self.slashes@,
            segments: self.segments@,
        }
    }

    /// The fields fit the machine's integers, which the model does not know.
    #[verifier::opaque]
    spec fn wf(&self, p: Seq<char>) -> bool {
        sound(p, self@) && p.len() <= usize::MAX
    }

    fn new(p: &Vec<char>) -> (w: Walker)
        ensures
            w@ == initial(),
            w.wf(p@),
    {
        reveal(Walker::model);
        reveal(Walker::wf);
        assert(p@.len() == p.len());
        Walker {
            index: 0,
            start: 0,
            last_index: 0,
            braces: 0,
            prev: None,
            code: None,
            all: plain_marks(),
            segment: plain_marks(),
            negated_extglob: false,
            finished: false,
            stopped: false,
            slashes: Vec::new(),
            segments: Vec::new(),
        }
    }

    /// What `wf` says of the cursor.
    proof fn lemma_sound(&self, p: Seq<char>)
        requires
            self.wf(p),
        ensures
            sound(p, self@),
    {
        reveal(Walker::wf);
    }

    fn more(&self, p: &Vec<char>) -> (b: bool)
        requires
            self.wf(p@),
        ensures
            b == (self@.index < p@.len()),
            sound(p@, self@),
    {
        reveal(Walker::model);
        reveal(Walker::wf);
        self.index < p.len()
    }

    fn going(&self) -> (b: bool)
        ensures
            b == !self@.stopped,
    {
        reveal(Walker::model);
        !self.stopped
    }

    fn next(&self, p: &Vec<char>) -> (c: Option<char>)
        requires
            self.wf(p@),
        ensures
            c == char_at(p@, self@.index),
    {
        reveal(Walker::model);
        reveal(Walker::wf);
        if self.index < p.len() {
            Some(p[self.index])
        } else {
            None
        }
    }

    fn code_is(&self, x: char) -> (b: bool)
        ensures
            b == (self@.code == Some(x)),
    {
        reveal(Walker::model);
        is_char(self.code, x)
    }

    fn prev_is(&self, x: char) -> (b: bool)
        ensures
            b == (self@.prev == Some(x)),
    {
        reveal(Walker::model);
        is_char(self.prev, x)
    }

    fn at_start(&self) -> (b: bool)
        ensures
            b == (self@.index - 1 == self@.start),
    {
        reveal(Walker::model);
        self.index >= 1 && self.index - 1 == self.start
    }

    fn one_brace(&self) -> (b: bool)
        ensures
            b == (self@.braces == 1),
    {
        reveal(Walker::model);
        self.braces == 1
    }

    fn seen_glob(&self) -> (b: bool)
        ensures
            b == self@.all.is_glob,
    {
        reveal(Walker::model);
        self.all.is_glob
    }

    /// Hands out what the scan has found.
    fn outcome(self, p: &Vec<char>) -> (r: Found)
        requires
            self.wf(p@),
        ensures
            sound(p@, self@),
            r.of(self@),
    {
        reveal(Walker::model);
        reveal(Walker::wf);
        Found {
            start: self.start,
            last_index: self.last_index,
            braces: self.braces,
            code: self.code,
            all: self.all,
            segment: self.segment,
            negated_extglob: self.negated_extglob,
            slashes: self.slashes,
            segments: self.segments,
        }
    }

    fn pass(self, p: &Vec<char>) -> (r: Walker)
        requires
            self.wf(p@),
        ensures
            r.wf(p@),
            r@ == pass(p@, self@),
    {
        reveal(Walker::model);
        reveal(Walker::wf);
        let index = if self.index < p.len() {
            self.index + 1
        } else {
            self.index
        };
        Walker { prev: self.code, index, ..self }
    }

    fn take(self, p: &Vec<char>) -> (r: Walker)
        requires
            self.wf(p@),
        ensures
            r.wf(p@),
            r@ == take(p@, self@),
    {
        reveal(Walker::model);
        reveal(Walker::wf);
        let code = if self.index < p.len() {
            Some(p[self.index])
        } else {
            None
        };
        let index = if self.index < p.len() {
            self.index + 1
        } else {
            self.index
        };
        Walker { prev: self.code, code, index, ..self }
    }

    fn mark_escape(self, p: &Vec<char>) -> (r: Walker)
        requires
            self.wf(p@),
        ensures
            r.wf(p@),
            r@ == with_escape(self@),
    {
        reveal(Walker::model);
        reveal(Walker::wf);
        Walker {
            all: Marks { back_slashes: true, ..self.all },
            segment: Marks { back_slashes: true, ..self.segment },
            ..self
        }
    }

    fn mark_glob(self, p: &Vec<char>) -> (r: Walker)
        requires
            self.wf(p@),
        ensures
            r.wf(p@),
            r@ == with_glob(self@),
    {
        reveal(Walker::model);
        reveal(Walker::wf);
        Walker {
            all: Marks { is_glob: true, ..self.all },
            segment: Marks { is_glob: true, ..self.segment },
            ..self
        }
    }

    fn mark_brace(self, p: &Vec<char>) -> (r: Walker)
        requires
            self.wf(p@),
        ensures
            r.wf(p@),
            r@ == with_brace(self@),
    {
        reveal(Walker::model);
        reveal(Walker::wf);
        Walker {
            all: Marks { is_brace: true, ..self.all },
            segment: Marks { is_brace: true, ..self.segment },
            ..self
        }
    }

    fn mark_bracket(self, p: &Vec<char>) -> (r: Walker)
        requires
            self.wf(p@),
        ensures
            r.wf(p@),
            r@ == with_bracket(self@),
    {
        reveal(Walker::model);
        reveal(Walker::wf);
        Walker {
            all: Marks { is_bracket: true, ..self.all },
            segment: Marks { is_bracket: true, ..self.segment },
            ..self
        }
    }

    fn mark_ext_glob(self, p: &Vec<char>) -> (r: Walker)
        requires
            self.wf(p@),
        ensures
            r.wf(p@),
            r@ == with_ext_glob(self@),
    {
        reveal(Walker::model);
        reveal(Walker::wf);
        Walker {
            all: Marks { is_ext_glob: true, ..self.all },
            segment: Marks { is_ext_glob: true, ..self.segment },
            ..self
        }
    }

    fn mark_glob_star(self, p: &Vec<char>, yes: bool) -> (r: Walker)
        requires
            self.wf(p@),
        ensures
            r.wf(p@),
            r@ == with_glob_star(yes, self@),
    {
        reveal(Walker::model);
        reveal(Walker::wf);
        Walker {
            all: Marks { is_glob_star: self.all.is_glob_star || yes, ..self.all },
            segment: Marks { is_glob_star: self.segment.is_glob_star || yes, ..self.segment },
            ..self
        }
    }

    fn mark_negation(self, p: &Vec<char>) -> (r: Walker)
        requires
            self.wf(p@),
            self@.index - 1 == self@.start,
        ensures
            r.wf(p@),
            r@ == with_negation(self@),
    {
        reveal(Walker::model);
        reveal(Walker::wf);
        Walker {
            all: Marks { negated: true, ..self.all },
            segment: Marks { negated: true, ..self.segment },
            start: self.start + 1,
            ..self
        }
    }

    fn mark_negated_extglob(self, p: &Vec<char>, yes: bool) -> (r: Walker)
        requires
            self.wf(p@),
        ensures
            r.wf(p@),
            r@ == (Cursor { negated_extglob: self@.negated_extglob || yes, ..self@ }),
    {
        reveal(Walker::model);
        reveal(Walker::wf);
        Walker { negated_extglob: self.negated_extglob || yes, ..self }
    }

    fn finish(self, p: &Vec<char>) -> (r: Walker)
        requires
            self.wf(p@),
        ensures
            r.wf(p@),
            r@ == finish(self@),
    {
        reveal(Walker::model);
        reveal(Walker::wf);
        Walker { finished: true, ..self }
    }

    fn leave(self, p: &Vec<char>, to_end: bool) -> (r: Walker)
        requires
            self.wf(p@),
        ensures
            r.wf(p@),
            r@ == leave(to_end, self@),
    {
        reveal(Walker::model);
        reveal(Walker::wf);
        Walker { stopped: !to_end, ..self }
    }

    /// One more brace is open; the brace itself has just been read.
    fn open_brace(self, p: &Vec<char>) -> (r: Walker)
        requires
            self.wf(p@),
            self@.braces < self@.index,
        ensures
            r.wf(p@),
            r@ == (Cursor { braces: self@.braces + 1, ..self@ }),
    {
        reveal(Walker::model);
        reveal(Walker::wf);
        Walker { braces: self.braces + 1, ..self }
    }

    fn close_brace(self, p: &Vec<char>) -> (r: Walker)
        requires
            self.wf(p@),
            self@.braces >= 1,
        ensures
            r.wf(p@),
            r@ == (Cursor { braces: self@.braces - 1, ..self@ }),
    {
        reveal(Walker::model);
        reveal(Walker::wf);
        Walker { braces: self.braces - 1, ..self }
    }

    fn at_separator(self, p: &Vec<char>) -> (r: Walker)
        requires
            self.wf(p@),
            1 <= self@.index,
        ensures
            r.wf(p@),
            r@ == at_separator(self@),
    {
        reveal(Walker::model);
        reveal(Walker::wf);
        let ahead = !self.finished && is_char(self.prev, '.') && self.index >= 2 && self.index - 2
            == self.start;
        let start = if ahead {
            self.start + 2
        } else {
            self.start
        };
        let last_index = if self.finished || ahead {
            self.last_index
        } else {
            self.index
        };
        let closed = Segment { marks: self.segment, depth: self.braces };
        let at = self.index - 1;
        let mut slashes = self.slashes;
        let mut segments = self.segments;
        slashes.push(at);
        segments.push(closed);
        Walker {
            index: self.index,
            start,
            last_index,
            braces: self.braces,
            prev: self.prev,
            code: self.code,
            all: self.all,
            segment: plain_marks(),
            negated_extglob: self.negated_extglob,
            finished: self.finished,
            stopped: self.stopped,
            slashes,
            segments,
        }
    }

    fn braces_mark(self, p: &Vec<char>, to_end: bool, dotted: bool) -> (r: (Walker, bool))
        requires
            self.wf(p@),
            self@.braces >= 1,
        ensures
            r.0.wf(p@),
            (r.0@, r.1) == braces_mark(to_end, dotted, self@),
            r.1 ==> r.0@.braces >= 1,
            r.0@.index == self@.index,
    {
        if (dotted && self.code_is('.')) || self.code_is(',') {
            return (self.mark_brace(p).mark_glob(p).finish(p), to_end);
        }
        if self.code_is('}') {
            if self.one_brace() {
                return (self.close_brace(p).mark_brace(p).finish(p), false);
            }
            return (self.close_brace(p), true);
        }
        (self, true)
    }

    fn braces_round(self, p: &Vec<char>, to_end: bool) -> (r: (Walker, bool))
        requires
            self.wf(p@),
            self@.index < p@.len(),
            self@.braces >= 1,
        ensures
            r.0.wf(p@),
            (r.0@, r.1) == braces_round(p@, to_end, self@),
            r.1 ==> r.0@.braces >= 1,
            r.0@.index > self@.index,
    {
        proof {
            self.lemma_sound(p@);
        }
        let c = self.next(p);
        let t = self.take(p);
        if is_char(c, '\\') {
            return (t.mark_escape(p).pass(p), true);
        }
        if is_char(c, '{') {
            return (t.open_brace(p), true);
        }
        if is_char(c, '.') {
            return t.take(p).braces_mark(p, to_end, true);
        }
        t.braces_mark(p, to_end, false)
    }

    fn in_braces(self, p: &Vec<char>, to_end: bool) -> (r: Walker)
        requires
            self.wf(p@),
            self@.braces >= 1,
        ensures
            r.wf(p@),
            r@ == in_braces(p@, to_end, self@),
    {
        let ghost entry = self@;
        let mut w = self;
        while w.more(p)
            invariant_except_break
                w@.braces >= 1,
                in_braces(p@, to_end, w@) == in_braces(p@, to_end, entry),
            invariant
                w.wf(p@),
            ensures
                w@ == in_braces(p@, to_end, entry),
            decreases p@.len() - w@.index,
        {
            let (next, go) = w.braces_round(p, to_end);
            w = next;
            if !go {
                break;
            }
        }
        w
    }

    fn brackets_round(self, p: &Vec<char>) -> (r: (Walker, bool))
        requires
            self.wf(p@),
            self@.index < p@.len(),
        ensures
            r.0.wf(p@),
            (r.0@, r.1) == brackets_round(p@, self@),
            r.0@.index > self@.index,
    {
        proof {
            self.lemma_sound(p@);
        }
        let c = self.next(p);
        let t = self.pass(p);
        if is_char(c, '\\') {
            return (t.mark_escape(p).pass(p), true);
        }
        if is_char(c, ']') {
            return (t.mark_bracket(p).mark_glob(p).finish(p), false);
        }
        (t, true)
    }

    fn in_brackets(self, p: &Vec<char>) -> (r: Walker)
        requires
            self.wf(p@),
        ensures
            r.wf(p@),
            r@ == in_brackets(p@, self@),
    {
        let ghost entry = self@;
        let mut w = self;
        while w.more(p)
            invariant_except_break
                in_brackets(p@, w@) == in_brackets(p@, entry),
            invariant
                w.wf(p@),
            ensures
                w@ == in_brackets(p@, entry),
            decreases p@.len() - w@.index,
        {
            let (next, go) = w.brackets_round(p);
            w = next;
            if !go {
                break;
            }
        }
        w
    }

    fn group_round(self, p: &Vec<char>) -> (r: (Walker, bool))
        requires
            self.wf(p@),
            self@.index < p@.len(),
        ensures
            r.0.wf(p@),
            (r.0@, r.1) == group_round(p@, self@),
            r.0@.index > self@.index,
    {
        proof {
            self.lemma_sound(p@);
        }
        let c = self.next(p);
        let t = self.take(p);
        if is_char(c, '\\') {
            return (t.mark_escape(p).take(p), true);
        }
        if is_char(c, ')') {
            return (t.mark_glob(p).finish(p), false);
        }
        (t, true)
    }

    fn in_group(self, p: &Vec<char>) -> (r: Walker)
        requires
            self.wf(p@),
        ensures
            r.wf(p@),
            r@ == in_group(p@, self@),
    {
        let ghost entry = self@;
        let mut w = self;
        while w.more(p)
            invariant_except_break
                in_group(p@, w@) == in_group(p@, entry),
            invariant
                w.wf(p@),
            ensures
                w@ == in_group(p@, entry),
            decreases p@.len() - w@.index,
        {
            let (next, go) = w.group_round(p);
            w = next;
            if !go {
                break;
            }
        }
        w
    }

    fn open_extglob(self, p: &Vec<char>, to_end: bool, c: char) -> (r: Walker)
        requires
            self.wf(p@),
        ensures
            r.wf(p@),
            r@ == open_extglob(p@, to_end, c, self@),
    {
        let first = c == '!' && self.at_start();
        let u = self.mark_glob(p).mark_ext_glob(p).finish(p).mark_negated_extglob(p, first);
        if to_end {
            return u.in_group(p);
        }
        u.leave(p, to_end)
    }

    fn open_group(self, p: &Vec<char>, to_end: bool) -> (r: Walker)
        requires
            self.wf(p@),
        ensures
            r.wf(p@),
            r@ == open_group(p@, to_end, self@),
    {
        let u = self.mark_glob(p);
        if to_end {
            return u.in_group(p);
        }
        u.leave(p, to_end)
    }

    fn at_star(self, p: &Vec<char>, to_end: bool) -> (r: Walker)
        requires
            self.wf(p@),
        ensures
            r.wf(p@),
            r@ == at_star(to_end, self@),
    {
        let twice = self.prev_is('*');
        self.mark_glob_star(p, twice).mark_glob(p).finish(p).leave(p, to_end)
    }

    fn at_marker(self, p: &Vec<char>, o: &ScanOptions, c: char) -> (r: Walker)
        requires
            self.wf(p@),
        ensures
            r.wf(p@),
            r@ == at_marker(p@, *o, c, self@),
    {
        let to_end = is_on(o.scan_to_end) || is_on(o.parts);
        if !is_on(o.noext) && (c == '+' || c == '@' || c == '*' || c == '?' || c == '!')
            && is_char(self.next(p), '(') {
            return self.open_extglob(p, to_end, c);
        }
        if c == '*' {
            return self.at_star(p, to_end);
        }
        if c == '?' {
            return self.mark_glob(p).finish(p).leave(p, to_end);
        }
        if c == '[' {
            return self.in_brackets(p).leave(p, to_end);
        }
        if !is_on(o.nonegate) && c == '!' && self.at_start() {
            return self.mark_negation(p);
        }
        if !is_on(o.noparen) && c == '(' {
            return self.open_group(p, to_end);
        }
        if self.seen_glob() {
            return self.finish(p).leave(p, to_end);
        }
        self
    }

    fn step(self, p: &Vec<char>, o: &ScanOptions) -> (r: Walker)
        requires
            self.wf(p@),
            self@.index < p@.len(),
        ensures
            r.wf(p@),
            r@ == step(p@, *o, self@),
    {
        let to_end = is_on(o.scan_to_end) || is_on(o.parts);
        proof {
            self.lemma_sound(p@);
        }
        let c = match self.next(p) {
            Some(c) => c,
            None => ' ',
        };
        let t = self.take(p);
        proof {
            t.lemma_sound(p@);
        }
        if c == '\\' {
            return t.mark_escape(p).take(p);
        }
        if c == '{' {
            return t.open_brace(p).in_braces(p, to_end).leave(p, to_end);
        }
        if c == '/' {
            return t.at_separator(p);
        }
        t.at_marker(p, o, c)
    }

    fn run(self, p: &Vec<char>, o: &ScanOptions) -> (r: Walker)
        requires
            self.wf(p@),
        ensures
            r.wf(p@),
            r@ == run(p@, *o, self@),
    {
        let ghost entry = self@;
        let mut w = self;
        while w.going() && w.more(p)
            invariant
                w.wf(p@),
                run(p@, *o, w@) == run(p@, *o, entry),
            decreases p@.len() - w@.index,
        {
            proof {
                lemma_step_moves_on(p@, *o, w@);
            }
            w = w.step(p, o);
        }
        proof {
            w.lemma_sound(p@);
        }
        w
    }
}

/// The scanner.
pub struct Scan {}

/// The byte offsets of the positions `at`, looked up in the table of all
/// byte offsets of `p`.
fn offsets_at(table: &Vec<usize>, Ghost(p): Ghost<Seq<char>>, at: &Vec<usize>) -> (r: Vec<usize>)
    requires
        table@.len() == p.len() + 1,
        forall|i: int| 0 <= i <= p.len() ==> table@[i] == byte_offset(p, i),
        forall|k: int| 0 <= k < at@.len() ==> at@[k] < p.len(),
    ensures
        r@ == byte_offsets(p, at@),
{
    let mut r: Vec<usize> = Vec::new();
    let mut k: usize = 0;
    while k < at.len()
        invariant
            k <= at.len(),
            table@.len() == p.len() + 1,
            forall|i: int| 0 <= i <= p.len() ==> table@[i] == byte_offset(p, i),
            forall|j: int| 0 <= j < at@.len() ==> at@[j] < p.len(),
            r@.len() == k,
            forall|j: int| 0 <= j < k ==> r@[j] == byte_offset(p, at@[j] as int) as usize,
        decreases at.len() - k,
    {
        r.push(table[at[k]]);
        k += 1;
    }
    assert(r@ =~= byte_offsets(p, at@));
    r
}

/// The string of `p[from..to]`, empty where that is no range of `p`.
fn text_between(p: &Vec<char>, from: usize, to: usize) -> (r: String)
    ensures
        r@ == between(p@, from as int, to as int),
{
    if from <= to && to <= p.len() {
        string_between(p, from, to)
    } else {
        String::new()
    }
}

/// The strings of the segments that lie between the separators.
fn list_parts(p: &Vec<char>, start: usize, slashes: &Vec<usize>) -> (r: Vec<String>)
    requires
        forall|i: int| 0 <= i < slashes@.len() ==> slashes@[i] < p@.len(),
    ensures
        texts_of(r@) == parts_of(p@, start as int, slashes@),
{
    let mut r: Vec<String> = Vec::new();
    let mut k: usize = 0;
    let n = p.len();
    assert(texts_of(r@) =~= heads(p@, start as int, slashes@, 0));
    while k < slashes.len()
        invariant
            k <= slashes.len(),
            n == p@.len(),
            forall|i: int| 0 <= i < slashes@.len() ==> slashes@[i] < p@.len(),
            texts_of(r@) == heads(p@, start as int, slashes@, k as int),
        decreases slashes.len() - k,
    {
        let from = if k == 0 {
            start
        } else {
            slashes[k - 1] + 1
        };
        let text = text_between(p, from, slashes[k]);
        let ghost before = r@;
        if k != 0 || !text.as_str().is_empty() {
            r.push(text);
            assert(texts_of(r@) =~= texts_of(before).push(text@));
        }
        k += 1;
    }
    if slashes.len() > 0 {
        let last = slashes[slashes.len() - 1];
        if last + 1 < n {
            let ghost before = r@;
            let text = text_between(p, last + 1, p.len());
            r.push(text);
            assert(texts_of(r@) =~= texts_of(before).push(text@));
        }
    }
    r
}

/// The tokens of the segments `all`, each with its text.
fn list_tokens(p: &Vec<char>, start: usize, slashes: &Vec<usize>, all: &Vec<Segment>) -> (r: Vec<
    Token,
>)
    requires
        forall|i: int| 0 <= i < slashes@.len() ==> slashes@[i] < p@.len(),
    ensures
        token_views(r@) == Seq::new(
            all@.len(),
            |k: int| token_of(p@, start as int, slashes@, all@, k),
        ),
{
    let mut r: Vec<Token> = Vec::new();
    let mut k: usize = 0;
    let n = p.len();
    let total = all.len();
    let tail = slashes.len() > 0 && slashes[slashes.len() - 1] + 1 < n;
    while k < total
        invariant
            k <= total,
            total == all@.len(),
            n == p@.len(),
            tail == has_tail(p@, slashes@),
            forall|i: int| 0 <= i < slashes@.len() ==> slashes@[i] < p@.len(),
            r@.len() == k,
            forall|j: int|
                0 <= j < k ==> (#[trigger] r@[j])@ == token_of(
                    p@,
                    start as int,
                    slashes@,
                    all@,
                    j,
                ),
        decreases total - k,
    {
        let value = if tail && k == total - 1 {
            text_between(p, slashes[slashes.len() - 1] + 1, n)
        } else if k < slashes.len() {
            if k == 0 && start != 0 {
                text_between(p, 0, start)
            } else if k == 0 {
                text_between(p, start, slashes[k])
            } else {
                text_between(p, slashes[k - 1] + 1, slashes[k])
            }
        } else {
            String::new()
        };
        let seg = all[k];
        r.push(
            Token {
                value,
                depth: seg.depth,
                is_glob: seg.marks.is_glob,
                back_slashes: seg.marks.back_slashes,
                is_brace: seg.marks.is_brace,
                is_ext_glob: seg.marks.is_ext_glob,
                is_glob_star: seg.marks.is_glob_star,
                is_bracket: seg.marks.is_bracket,
                is_prefix: if k == 0 && start != 0 && k < slashes.len() {
                    Some(true)
                } else {
                    None
                },
                negated: if seg.marks.negated {
                    Some(true)
                } else {
                    None
                },
            },
        );
        k += 1;
    }
    assert(token_views(r@) =~= Seq::new(
        all@.len(),
        |k: int| token_of(p@, start as int, slashes@, all@, k),
    ));
    r
}

/// The greatest depth among the segments.
fn greatest_depth(all: &Vec<Segment>) -> (d: usize)
    ensures
        d == deepest(all@, all@.len() as int),
{
    let mut d: usize = 0;
    let mut k: usize = 0;
    while k < all.len()
        invariant
            k <= all.len(),
            d == deepest(all@, k as int),
        decreases all.len() - k,
    {
        if all[k].depth > d {
            d = all[k].depth;
        }
        k += 1;
    }
    d
}

impl Found {
    /// The cursor that this was taken from.
    spec fn of(&self, s: Cursor) -> bool {
        &&& self.start == s.start
        &&& self.last_index == s.last_index
        &&& self.braces == s.braces
        &&& self.code == s.code
        &&& self.all == s.all
        &&& self.segment == s.segment
        &&& self.negated_extglob == s.negated_extglob
        &&& self.slashes@ == s.slashes
        &&& self.segments@ == s.segments
    }

    fn base(&self, p: &Vec<char>, o: &ScanOptions, Ghost(s): Ghost<Cursor>) -> (r: String)
        requires
            self.of(s),
            sound(p@, s),
        ensures
            r@ == base_of(p@, *o, s),
    {
        let n = p.len();
        let is_glob = self.all.is_glob && !is_on(o.noext);
        let split = is_glob && self.last_index > self.start;
        let from = if is_glob && !split {
            n
        } else {
            self.start
        };
        let to = if split {
            self.last_index
        } else {
            n
        };
        let ghost b0 = raw_base(p@, s, is_glob);
        assert(p@.subrange(from as int, to as int) =~= b0);
        let sheds = to > from && !(to - from == 1 && p[from] == '/') && to != n && (p[to - 1] == '/'
            || p[to - 1] == '\\');
        proof {
            if to > from {
                assert(b0.last() == p@[to - 1]);
                assert(b0[0] == p@[from as int]);
                assert(b0.len() == to - from);
                assert(between(p@, s.start, p@.len() as int).len() == n - from);
                if to - from == 1 && p@[from as int] == '/' {
                    assert(b0 =~= seq!['/']);
                }
            }
            assert(sheds == sheds_separator(p@, s, b0));
        }
        let end = if sheds {
            to - 1
        } else {
            to
        };
        assert(p@.subrange(from as int, end as int) =~= if sheds {
            b0.drop_last()
        } else {
            b0
        });
        let base = string_between(p, from, end);
        if is_on(o.unescape) && !base.as_str().is_empty() && self.all.back_slashes {
            remove_back_slashes(&base)
        } else {
            base
        }
    }

    fn glob(&self, p: &Vec<char>, o: &ScanOptions, Ghost(s): Ghost<Cursor>) -> (r: String)
        requires
            self.of(s),
            sound(p@, s),
        ensures
            r@ == glob_of(p@, *o, s),
    {
        let n = p.len();
        let is_glob = self.all.is_glob && !is_on(o.noext);
        let glob = if is_glob && self.last_index > self.start {
            string_between(p, self.last_index, n)
        } else if is_glob {
            string_between(p, self.start, n)
        } else {
            String::new()
        };
        if is_on(o.unescape) && !glob.as_str().is_empty() {
            remove_back_slashes(&glob)
        } else {
            glob
        }
    }

    /// The tokens and the greatest depth among them.
    fn tokens(&self, p: &Vec<char>, Ghost(s): Ghost<Cursor>) -> (r: (usize, Vec<Token>))
        requires
            self.of(s),
            sound(p@, s),
        ensures
            r.0 == deepest(closing(s), closing(s).len() as int),
            token_views(r.1@) == tokens_of(p@, s),
    {
        let mut all: Vec<Segment> = Vec::new();
        let mut k: usize = 0;
        while k < self.segments.len()
            invariant
                k <= self.segments.len(),
                all@ == self.segments@.take(k as int),
            decreases self.segments.len() - k,
        {
            all.push(self.segments[k]);
            k += 1;
            assert(self.segments@.take(k as int) =~= self.segments@.take(k - 1).push(
                self.segments@[k - 1],
            ));
        }
        assert(self.segments@.take(k as int) =~= self.segments@);
        if !is_path_separator(self.code) {
            all.push(Segment { marks: self.segment, depth: self.braces });
        }
        assert(all@ == closing(s));
        (greatest_depth(&all), list_tokens(p, self.start, &self.slashes, &all))
    }
}

impl Scan {
    /// A scanner.
    pub fn new() -> Scan {
        Scan {  }
    }

    /// Scans the pattern `input`. Nothing is rejected: a group that is not
    /// closed leaves its mark unset and counts as plain text.
    pub fn scan(&self, input: String, options: ScanOptions) -> (res: ScanState)
        ensures
            res@ == scanned(input@, options),
    {
        let p = chars_of(input.as_str());
        // The pattern is a string, so its bytes are counted by a `usize`.
        let _size = input.as_str().as_bytes().len();
        let table = byte_offsets_of(&p);
        let w = Walker::new(&p).run(&p, &options);
        let ghost s = w@;
        let found = w.outcome(&p);
        let base = found.base(&p, &options, Ghost(s));
        let glob = found.glob(&p, &options, Ghost(s));
        let listed = is_on(options.parts) || is_on(options.tokens);
        let parts = if listed {
            Some(list_parts(&p, found.start, &found.slashes))
        } else {
            None
        };
        let (max_depth, tokens) = if is_on(options.tokens) {
            let t = found.tokens(&p, Ghost(s));
            (Some(t.0), Some(t.1))
        } else {
            (None, None)
        };
        ScanState {
            prefix: string_between(&p, 0, found.start),
            input,
            start: table[found.start],
            base,
            glob,
            is_brace: found.all.is_brace,
            is_bracket: found.all.is_bracket,
            is_glob: found.all.is_glob && !is_on(options.noext),
            is_ext_glob: found.all.is_ext_glob && !is_on(options.noext),
            is_glob_star: found.all.is_glob_star,
            negated: found.all.negated,
            negated_extglob: found.negated_extglob,
            slashes: if listed {
                Some(offsets_at(&table, Ghost(p@), &found.slashes))
            } else {
                None
            },
            parts,
            max_depth,
            tokens,
        }
    }
}

} // verus!
