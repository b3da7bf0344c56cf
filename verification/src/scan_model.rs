//! The model of the scanner: a cursor that walks the pattern, and what is
//! made of its last state. `scanned` is what `Scan::scan` computes.
//!
//! The cursor counts positions in characters. The result gives `start` and
//! `slashes` as byte offsets into the pattern.

use vstd::prelude::*;
use crate::scan::{Marks, ScanOptions, Segment};
use crate::text::byte_offset;
use crate::utils::without_back_slashes;

verus! {

/// An option counts as set only when it is `Some(true)`.
pub open spec fn on(o: Option<bool>) -> bool {
    o == Some(true)
}

/// Whether the scan goes on past the first glob marker.
pub open spec fn scans_to_end(o: ScanOptions) -> bool {
    on(o.scan_to_end) || on(o.parts)
}

/// Whether `c` is a character that separates path segments.
pub open spec fn path_separator(c: Option<char>) -> bool {
    c == Some('/') || c == Some('\\')
}

/// The characters that open an extglob when a `(` follows them.
pub open spec fn extglob_lead(c: char) -> bool {
    c == '+' || c == '@' || c == '*' || c == '?' || c == '!'
}

/// The character at position `i` of `p`, if there is one.
pub open spec fn char_at(p: Seq<char>, i: int) -> Option<char> {
    if 0 <= i < p.len() {
        Some(p[i])
    } else {
        None
    }
}

/// The state of a scan. `index` is the number of characters read, `code` the
/// character read last and `prev` the one read before it; `start` is where the
/// base begins and `last_index` the position just after the last separator of
/// the static part. All positions, those in `slashes` too, are counted in
/// characters.
pub struct Cursor {
    pub index: int,
    pub start: int,
    pub last_index: int,
    pub braces: int,
    pub prev: Option<char>,
    pub code: Option<char>,
    pub all: Marks,
    pub segment: Marks,
    pub negated_extglob: bool,
    pub finished: bool,
    pub stopped: bool,
    pub slashes: Seq<usize>,
    pub segments: Seq<Segment>,
}

/// No mark is set.
pub open spec fn no_marks() -> Marks {
    Marks {
        is_glob: false,
        back_slashes: false,
        is_brace: false,
        is_ext_glob: false,
        is_glob_star: false,
        is_bracket: false,
        negated: false,
    }
}

/// The cursor before anything is read.
pub open spec fn initial() -> Cursor {
    Cursor {
        index: 0,
        start: 0,
        last_index: 0,
        braces: 0,
        prev: None,
        code: None,
        all: no_marks(),
        segment: no_marks(),
        negated_extglob: false,
        finished: false,
        stopped: false,
        slashes: Seq::empty(),
        segments: Seq::empty(),
    }
}

/// Moves over one character without looking at it.
pub open spec fn pass(p: Seq<char>, s: Cursor) -> Cursor {
    Cursor { prev: s.code, index: if s.index < p.len() { s.index + 1 } else { s.index }, ..s }
}

/// Reads one character; past the end there is none to read.
pub open spec fn take(p: Seq<char>, s: Cursor) -> Cursor {
    Cursor { code: char_at(p, s.index), ..pass(p, s) }
}

/// The pattern and the segment hold an escape.
pub open spec fn with_escape(s: Cursor) -> Cursor {
    Cursor {
        all: Marks { back_slashes: true, ..s.all },
        segment: Marks { back_slashes: true, ..s.segment },
        ..s
    }
}

/// The pattern and the segment are a glob.
pub open spec fn with_glob(s: Cursor) -> Cursor {
    Cursor {
        all: Marks { is_glob: true, ..s.all },
        segment: Marks { is_glob: true, ..s.segment },
        ..s
    }
}

/// The pattern and the segment hold a brace group.
pub open spec fn with_brace(s: Cursor) -> Cursor {
    Cursor {
        all: Marks { is_brace: true, ..s.all },
        segment: Marks { is_brace: true, ..s.segment },
        ..s
    }
}

/// The pattern and the segment hold a bracket expression.
pub open spec fn with_bracket(s: Cursor) -> Cursor {
    Cursor {
        all: Marks { is_bracket: true, ..s.all },
        segment: Marks { is_bracket: true, ..s.segment },
        ..s
    }
}

/// The pattern and the segment hold an extglob.
pub open spec fn with_ext_glob(s: Cursor) -> Cursor {
    Cursor {
        all: Marks { is_ext_glob: true, ..s.all },
        segment: Marks { is_ext_glob: true, ..s.segment },
        ..s
    }
}

/// Marks a globstar if `yes`.
pub open spec fn with_glob_star(yes: bool, s: Cursor) -> Cursor {
    Cursor {
        all: Marks { is_glob_star: s.all.is_glob_star || yes, ..s.all },
        segment: Marks { is_glob_star: s.segment.is_glob_star || yes, ..s.segment },
        ..s
    }
}

/// The pattern is negated, and its base begins one character later.
pub open spec fn with_negation(s: Cursor) -> Cursor {
    Cursor {
        all: Marks { negated: true, ..s.all },
        segment: Marks { negated: true, ..s.segment },
        start: s.start + 1,
        ..s
    }
}

/// A glob marker has been seen: the static part of the pattern is over.
pub open spec fn finish(s: Cursor) -> Cursor {
    Cursor { finished: true, ..s }
}

/// After a glob marker the scan goes on only when it was asked to.
pub open spec fn leave(to_end: bool, s: Cursor) -> Cursor {
    Cursor { stopped: !to_end, ..s }
}

/// What the character read last does in brace mode, if it is neither an
/// escape nor an opening brace. `dotted` tells that a dot came just before
/// it.
pub open spec fn braces_mark(to_end: bool, dotted: bool, u: Cursor) -> (Cursor, bool) {
    if (dotted && u.code == Some('.')) || u.code == Some(',') {
        (finish(with_glob(with_brace(u))), to_end)
    } else if u.code == Some('}') {
        if u.braces == 1 {
            (finish(with_brace(Cursor { braces: 0, ..u })), false)
        } else {
            (Cursor { braces: u.braces - 1, ..u }, true)
        }
    } else {
        (u, true)
    }
}

/// One round of brace mode: nested braces are counted, a comma or two dots in
/// a row mark the pattern as a brace glob, and the brace that closes the
/// outermost one ends the mode. After a dot the next character is read in the
/// same round. The flag says whether another round follows.
pub open spec fn braces_round(p: Seq<char>, to_end: bool, s: Cursor) -> (Cursor, bool)
    recommends
        0 <= s.index < p.len(),
{
    let c = p[s.index];
    let t = take(p, s);
    if c == '\\' {
        (pass(p, with_escape(t)), true)
    } else if c == '{' {
        (Cursor { braces: t.braces + 1, ..t }, true)
    } else if c == '.' {
        braces_mark(to_end, true, take(p, t))
    } else {
        braces_mark(to_end, false, t)
    }
}

/// Brace mode, entered after an opening brace: rounds are made until one ends
/// the mode or the pattern is read.
pub open spec fn in_braces(p: Seq<char>, to_end: bool, s: Cursor) -> Cursor
    decreases p.len() - s.index,
{
    if s.index < 0 || s.index >= p.len() {
        s
    } else {
        let r = braces_round(p, to_end, s);
        if r.1 {
            in_braces(p, to_end, r.0)
        } else {
            r.0
        }
    }
}

/// One round of bracket mode: the first `]` that no backslash escapes closes
/// the bracket expression.
pub open spec fn brackets_round(p: Seq<char>, s: Cursor) -> (Cursor, bool)
    recommends
        0 <= s.index < p.len(),
{
    let c = p[s.index];
    let t = pass(p, s);
    if c == '\\' {
        (pass(p, with_escape(t)), true)
    } else if c == ']' {
        (finish(with_glob(with_bracket(t))), false)
    } else {
        (t, true)
    }
}

/// Bracket mode, entered after `[`. Without a closing bracket the pattern has
/// no bracket expression.
pub open spec fn in_brackets(p: Seq<char>, s: Cursor) -> Cursor
    decreases p.len() - s.index,
{
    if s.index < 0 || s.index >= p.len() {
        s
    } else {
        let r = brackets_round(p, s);
        if r.1 {
            in_brackets(p, r.0)
        } else {
            r.0
        }
    }
}

/// One round of group mode: the first `)` that no backslash escapes closes
/// the group.
pub open spec fn group_round(p: Seq<char>, s: Cursor) -> (Cursor, bool)
    recommends
        0 <= s.index < p.len(),
{
    let c = p[s.index];
    let t = take(p, s);
    if c == '\\' {
        (take(p, with_escape(t)), true)
    } else if c == ')' {
        (finish(with_glob(t)), false)
    } else {
        (t, true)
    }
}

/// Group mode, entered after the `(` of an extglob or of a plain group.
pub open spec fn in_group(p: Seq<char>, s: Cursor) -> Cursor
    decreases p.len() - s.index,
{
    if s.index < 0 || s.index >= p.len() {
        s
    } else {
        let r = group_round(p, s);
        if r.1 {
            in_group(p, r.0)
        } else {
            r.0
        }
    }
}

/// A separator closes the segment. While no glob marker has been seen it also
/// moves the end of the static part, or, right after a leading dot, the start.
pub open spec fn at_separator(s: Cursor) -> Cursor {
    let t = Cursor {
        slashes: s.slashes.push((s.index - 1) as usize),
        segments: s.segments.push(Segment { marks: s.segment, depth: s.braces as usize }),
        segment: no_marks(),
        ..s
    };
    if s.finished {
        t
    } else if s.prev == Some('.') && s.index - 1 == s.start + 1 {
        Cursor { start: s.start + 2, ..t }
    } else {
        Cursor { last_index: s.index, ..t }
    }
}

/// An extglob opens: its lead character `c` has been read and a `(` follows.
/// A `!` at the very start tells that the whole pattern is a negated extglob.
pub open spec fn open_extglob(p: Seq<char>, to_end: bool, c: char, t: Cursor) -> Cursor {
    let u = Cursor {
        negated_extglob: t.negated_extglob || (c == '!' && t.index - 1 == t.start),
        ..finish(with_ext_glob(with_glob(t)))
    };
    if to_end {
        in_group(p, u)
    } else {
        leave(to_end, u)
    }
}

/// A plain group opens: its `(` has been read.
pub open spec fn open_group(p: Seq<char>, to_end: bool, t: Cursor) -> Cursor {
    if to_end {
        in_group(p, with_glob(t))
    } else {
        leave(to_end, with_glob(t))
    }
}

/// A star has been read; a second one in a row is a globstar.
pub open spec fn at_star(to_end: bool, t: Cursor) -> Cursor {
    leave(to_end, finish(with_glob(with_glob_star(t.prev == Some('*'), t))))
}

/// What a character other than a backslash, an opening brace or a separator
/// does: it may open a group or a bracket expression, mark a glob, or negate
/// the pattern. After a glob marker every further character ends the static
/// part.
pub open spec fn at_marker(p: Seq<char>, o: ScanOptions, c: char, t: Cursor) -> Cursor {
    let to_end = scans_to_end(o);
    if !on(o.noext) && extglob_lead(c) && char_at(p, t.index) == Some('(') {
        open_extglob(p, to_end, c, t)
    } else if c == '*' {
        at_star(to_end, t)
    } else if c == '?' {
        leave(to_end, finish(with_glob(t)))
    } else if c == '[' {
        leave(to_end, in_brackets(p, t))
    } else if !on(o.nonegate) && c == '!' && t.index - 1 == t.start {
        with_negation(t)
    } else if !on(o.noparen) && c == '(' {
        open_group(p, to_end, t)
    } else if t.all.is_glob {
        leave(to_end, finish(t))
    } else {
        t
    }
}

/// One round of the scan: reads the next character and acts on it. A
/// backslash takes the character after it along, uninterpreted.
pub open spec fn step(p: Seq<char>, o: ScanOptions, s: Cursor) -> Cursor
    recommends
        0 <= s.index < p.len(),
{
    let to_end = scans_to_end(o);
    let c = p[s.index];
    let t = take(p, s);
    if c == '\\' {
        take(p, with_escape(t))
    } else if c == '{' {
        leave(to_end, in_braces(p, to_end, Cursor { braces: t.braces + 1, ..t }))
    } else if c == '/' {
        at_separator(t)
    } else {
        at_marker(p, o, c, t)
    }
}

/// Brace mode reads on and stays within the pattern.
pub proof fn lemma_in_braces_moves_on(p: Seq<char>, to_end: bool, s: Cursor)
    ensures
        in_braces(p, to_end, s).index >= s.index,
        s.index <= p.len() ==> in_braces(p, to_end, s).index <= p.len(),
    decreases p.len() - s.index,
{
    if 0 <= s.index < p.len() {
        let r = braces_round(p, to_end, s);
        if r.1 {
            lemma_in_braces_moves_on(p, to_end, r.0);
        }
    }
}

/// Bracket mode reads on and stays within the pattern.
pub proof fn lemma_in_brackets_moves_on(p: Seq<char>, s: Cursor)
    ensures
        in_brackets(p, s).index >= s.index,
        s.index <= p.len() ==> in_brackets(p, s).index <= p.len(),
    decreases p.len() - s.index,
{
    if 0 <= s.index < p.len() {
        let r = brackets_round(p, s);
        if r.1 {
            lemma_in_brackets_moves_on(p, r.0);
        }
    }
}

/// Group mode reads on and stays within the pattern.
pub proof fn lemma_in_group_moves_on(p: Seq<char>, s: Cursor)
    ensures
        in_group(p, s).index >= s.index,
        s.index <= p.len() ==> in_group(p, s).index <= p.len(),
    decreases p.len() - s.index,
{
    if 0 <= s.index < p.len() {
        let r = group_round(p, s);
        if r.1 {
            lemma_in_group_moves_on(p, r.0);
        }
    }
}

/// Every round reads at least one character.
pub proof fn lemma_step_moves_on(p: Seq<char>, o: ScanOptions, s: Cursor)
    requires
        0 <= s.index < p.len(),
    ensures
        s.index < step(p, o, s).index <= p.len(),
{
    let to_end = scans_to_end(o);
    let t = take(p, s);
    lemma_in_braces_moves_on(p, to_end, Cursor { braces: t.braces + 1, ..t });
    lemma_in_brackets_moves_on(p, t);
    lemma_in_group_moves_on(p, with_glob(t));
    lemma_in_group_moves_on(
        p,
        Cursor {
            negated_extglob: t.negated_extglob || (p[s.index] == '!' && t.index - 1 == t.start),
            ..finish(with_ext_glob(with_glob(t)))
        },
    );
}

/// The scan: rounds are made until the pattern is read or a round stops it.
pub open spec fn run(p: Seq<char>, o: ScanOptions, s: Cursor) -> Cursor
    decreases p.len() - s.index,
{
    if s.stopped || s.index < 0 || s.index >= p.len() {
        s
    } else {
        proof {
            lemma_step_moves_on(p, o, s);
        }
        run(p, o, step(p, o, s))
    }
}

/// A token as contracts see it.
pub struct TokenView {
    pub value: Seq<char>,
    pub depth: usize,
    pub is_glob: bool,
    pub back_slashes: bool,
    pub is_brace: bool,
    pub is_ext_glob: bool,
    pub is_glob_star: bool,
    pub is_bracket: bool,
    pub is_prefix: Option<bool>,
    pub negated: Option<bool>,
}

/// A scan's result as contracts see it.
pub struct ScanView {
    pub prefix: Seq<char>,
    pub input: Seq<char>,
    pub start: int,
    pub base: Seq<char>,
    pub glob: Seq<char>,
    pub is_brace: bool,
    pub is_bracket: bool,
    pub is_glob: bool,
    pub is_ext_glob: bool,
    pub is_glob_star: bool,
    pub negated: bool,
    pub negated_extglob: bool,
    pub slashes: Option<Seq<usize>>,
    pub parts: Option<Seq<Seq<char>>>,
    pub max_depth: Option<usize>,
    pub tokens: Option<Seq<TokenView>>,
}

/// The characters `p[from..to]`, and nothing where that is no range of `p`.
pub open spec fn between(p: Seq<char>, from: int, to: int) -> Seq<char> {
    if 0 <= from <= to <= p.len() {
        p.subrange(from, to)
    } else {
        Seq::empty()
    }
}

/// The text of the `k`-th segment: from the start of the scan, or from the
/// separator before it, up to the `k`-th separator.
pub open spec fn segment_text(p: Seq<char>, start: int, slashes: Seq<usize>, k: int) -> Seq<char>
    recommends
        0 <= k < slashes.len(),
{
    between(
        p,
        if k == 0 {
            start
        } else {
            slashes[k - 1] + 1
        },
        slashes[k] as int,
    )
}

/// Whether text follows the last separator.
pub open spec fn has_tail(p: Seq<char>, slashes: Seq<usize>) -> bool {
    slashes.len() > 0 && slashes.last() + 1 < p.len()
}

/// The text after the last separator.
pub open spec fn tail_text(p: Seq<char>, slashes: Seq<usize>) -> Seq<char>
    recommends
        slashes.len() > 0,
{
    between(p, slashes.last() + 1, p.len() as int)
}

/// The texts of the first `n` segments; an empty first segment is left out.
pub open spec fn heads(p: Seq<char>, start: int, slashes: Seq<usize>, n: int) -> Seq<Seq<char>>
    recommends
        n <= slashes.len(),
    decreases n,
{
    if n <= 0 {
        Seq::empty()
    } else if n == 1 && segment_text(p, start, slashes, 0).len() == 0 {
        Seq::empty()
    } else {
        heads(p, start, slashes, n - 1).push(segment_text(p, start, slashes, n - 1))
    }
}

/// The path segments of the pattern: the texts between its separators, and
/// the text after the last one if there is any.
pub open spec fn parts_of(p: Seq<char>, start: int, slashes: Seq<usize>) -> Seq<Seq<char>> {
    let h = heads(p, start, slashes, slashes.len() as int);
    if has_tail(p, slashes) {
        h.push(tail_text(p, slashes))
    } else {
        h
    }
}

/// The segments at the end of the scan: those that a separator closed, and
/// the open one unless the scan ended on a separator.
pub open spec fn closing(s: Cursor) -> Seq<Segment> {
    if path_separator(s.code) {
        s.segments
    } else {
        s.segments.push(Segment { marks: s.segment, depth: s.braces as usize })
    }
}

/// The text of the `k`-th of `total` tokens. The first token of a pattern
/// with a prefix holds the prefix; the last one holds the text after the last
/// separator, if there is any.
pub open spec fn token_value(
    p: Seq<char>,
    start: int,
    slashes: Seq<usize>,
    total: int,
    k: int,
) -> Seq<char> {
    if has_tail(p, slashes) && k == total - 1 {
        tail_text(p, slashes)
    } else if k < slashes.len() {
        if k == 0 && start != 0 {
            between(p, 0, start)
        } else {
            segment_text(p, start, slashes, k)
        }
    } else {
        Seq::empty()
    }
}

/// The `k`-th token: the marks and the depth of the `k`-th segment, and its
/// text.
pub open spec fn token_of(
    p: Seq<char>,
    start: int,
    slashes: Seq<usize>,
    all: Seq<Segment>,
    k: int,
) -> TokenView
    recommends
        0 <= k < all.len(),
{
    TokenView {
        value: token_value(p, start, slashes, all.len() as int, k),
        depth: all[k].depth,
        is_glob: all[k].marks.is_glob,
        back_slashes: all[k].marks.back_slashes,
        is_brace: all[k].marks.is_brace,
        is_ext_glob: all[k].marks.is_ext_glob,
        is_glob_star: all[k].marks.is_glob_star,
        is_bracket: all[k].marks.is_bracket,
        is_prefix: if k == 0 && start != 0 && k < slashes.len() {
            Some(true)
        } else {
            None
        },
        negated: if all[k].marks.negated {
            Some(true)
        } else {
            None
        },
    }
}

/// The tokens at the end of the scan, one for each segment.
pub open spec fn tokens_of(p: Seq<char>, s: Cursor) -> Seq<TokenView> {
    let all = closing(s);
    Seq::new(all.len(), |k: int| token_of(p, s.start, s.slashes, all, k))
}

/// The greatest depth among the first `n` segments.
pub open spec fn deepest(all: Seq<Segment>, n: int) -> usize
    recommends
        n <= all.len(),
    decreases n,
{
    if n <= 0 {
        0
    } else {
        let d = deepest(all, n - 1);
        if all[n - 1].depth > d {
            all[n - 1].depth
        } else {
            d
        }
    }
}

/// The static part of the pattern before its trailing separator is taken off.
pub open spec fn raw_base(p: Seq<char>, s: Cursor, is_glob: bool) -> Seq<char> {
    if is_glob && s.last_index > s.start {
        between(p, s.start, s.last_index)
    } else if is_glob {
        Seq::empty()
    } else {
        between(p, s.start, p.len() as int)
    }
}

/// The dynamic part of the pattern.
pub open spec fn raw_glob(p: Seq<char>, s: Cursor, is_glob: bool) -> Seq<char> {
    if is_glob && s.last_index > s.start {
        between(p, s.last_index, p.len() as int)
    } else if is_glob {
        between(p, s.start, p.len() as int)
    } else {
        Seq::empty()
    }
}

/// Whether the base loses its last character: it ends in a separator, is more
/// than `/`, and is not all that follows the prefix.
pub open spec fn sheds_separator(p: Seq<char>, s: Cursor, base: Seq<char>) -> bool {
    &&& base.len() > 0
    &&& base != seq!['/']
    &&& base != between(p, s.start, p.len() as int)
    &&& path_separator(Some(base.last()))
}

/// Whether the result calls the pattern a glob: switching extglobs off
/// takes the mark away.
pub open spec fn counts_as_glob(o: ScanOptions, s: Cursor) -> bool {
    s.all.is_glob && !on(o.noext)
}

/// The static part of the pattern: without one trailing separator and, on
/// demand, without its escapes.
pub open spec fn base_of(p: Seq<char>, o: ScanOptions, s: Cursor) -> Seq<char> {
    let b0 = raw_base(p, s, counts_as_glob(o, s));
    let b1 = if sheds_separator(p, s, b0) {
        b0.drop_last()
    } else {
        b0
    };
    if on(o.unescape) && b1.len() > 0 && s.all.back_slashes {
        without_back_slashes(b1)
    } else {
        b1
    }
}

/// The dynamic part of the pattern, on demand without its escapes.
pub open spec fn glob_of(p: Seq<char>, o: ScanOptions, s: Cursor) -> Seq<char> {
    let g0 = raw_glob(p, s, counts_as_glob(o, s));
    if on(o.unescape) && g0.len() > 0 {
        without_back_slashes(g0)
    } else {
        g0
    }
}

/// The byte offsets of the positions `at` in `p`.
pub open spec fn byte_offsets(p: Seq<char>, at: Seq<usize>) -> Seq<usize> {
    Seq::new(at.len(), |k: int| byte_offset(p, at[k] as int) as usize)
}

/// The result of scanning `p` under the options `o`. Where the scan began
/// and where the separators lie is given in bytes.
pub open spec fn scanned(p: Seq<char>, o: ScanOptions) -> ScanView {
    let s = run(p, o, initial());
    let listed = on(o.parts) || on(o.tokens);
    ScanView {
        prefix: between(p, 0, s.start),
        input: p,
        start: byte_offset(p, s.start) as int,
        base: base_of(p, o, s),
        glob: glob_of(p, o, s),
        is_brace: s.all.is_brace,
        is_bracket: s.all.is_bracket,
        is_glob: counts_as_glob(o, s),
        is_ext_glob: s.all.is_ext_glob && !on(o.noext),
        is_glob_star: s.all.is_glob_star,
        negated: s.all.negated,
        negated_extglob: s.negated_extglob,
        slashes: if listed {
            Some(byte_offsets(p, s.slashes))
        } else {
            None
        },
        parts: if listed {
            Some(parts_of(p, s.start, s.slashes))
        } else {
            None
        },
        max_depth: if on(o.tokens) {
            Some(deepest(closing(s), closing(s).len() as int))
        } else {
            None
        },
        tokens: if on(o.tokens) {
            Some(tokens_of(p, s))
        } else {
            None
        },
    }
}

/// What holds of the cursor throughout a scan of `p`.
pub open spec fn sound(p: Seq<char>, s: Cursor) -> bool {
    &&& 0 <= s.start <= s.index <= p.len()
    &&& 0 <= s.last_index <= s.index
    &&& 0 <= s.braces <= s.index
    &&& s.slashes.len() == s.segments.len()
    &&& forall|i: int| 0 <= i < s.slashes.len() ==> s.slashes[i] < p.len()
}

} // verus!
