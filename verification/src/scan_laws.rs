//! What holds of every scan.

use vstd::prelude::*;
use crate::scan::{ScanOptions};
use crate::scan_model::{
    at_marker, at_separator, braces_mark, braces_round, brackets_round, char_at, counts_as_glob,
    finish, group_round, in_braces, in_brackets, in_group, initial, lemma_step_moves_on, no_marks,
    on, raw_base, raw_glob, run, scanned, scans_to_end, sheds_separator, sound, step, take,
    with_ext_glob, with_glob, Cursor, ScanView,
};
use crate::text::{byte_offset, lemma_byte_offset_rises, lemma_byte_offset_step, lemma_char_width};
use crate::utils::has_dot_slash;
use vstd::utf8::encode_utf8;

verus! {

proof fn lemma_braces_mark_sound(p: Seq<char>, to_end: bool, dotted: bool, u: Cursor)
    requires
        sound(p, u),
        u.braces >= 1,
    ensures
        sound(p, braces_mark(to_end, dotted, u).0),
        braces_mark(to_end, dotted, u).1 ==> braces_mark(to_end, dotted, u).0.braces >= 1,
        braces_mark(to_end, dotted, u).0.index == u.index,
        braces_mark(to_end, dotted, u).0.start == u.start,
        braces_mark(to_end, dotted, u).0.slashes == u.slashes,
        braces_mark(to_end, dotted, u).0.segments == u.segments,
{
}

proof fn lemma_braces_round_sound(p: Seq<char>, to_end: bool, s: Cursor)
    requires
        sound(p, s),
        s.index < p.len(),
        s.braces >= 1,
    ensures
        sound(p, braces_round(p, to_end, s).0),
        braces_round(p, to_end, s).1 ==> braces_round(p, to_end, s).0.braces >= 1,
        braces_round(p, to_end, s).0.index > s.index,
        braces_round(p, to_end, s).0.start == s.start,
        braces_round(p, to_end, s).0.slashes == s.slashes,
        braces_round(p, to_end, s).0.segments == s.segments,
{
    let c = p[s.index];
    let t = take(p, s);
    if c == '\\' {
    } else if c == '{' {
    } else if c == '.' {
        lemma_braces_mark_sound(p, to_end, true, take(p, t));
    } else {
        lemma_braces_mark_sound(p, to_end, false, t);
    }
}

proof fn lemma_in_braces_sound(p: Seq<char>, to_end: bool, s: Cursor)
    requires
        sound(p, s),
        s.braces >= 1,
    ensures
        sound(p, in_braces(p, to_end, s)),
        in_braces(p, to_end, s).start == s.start,
        in_braces(p, to_end, s).index == s.index ==> in_braces(p, to_end, s) == s,
        in_braces(p, to_end, s).slashes == s.slashes,
        in_braces(p, to_end, s).segments == s.segments,
    decreases p.len() - s.index,
{
    if s.index < p.len() {
        lemma_braces_round_sound(p, to_end, s);
        let r = braces_round(p, to_end, s);
        if r.1 {
            lemma_in_braces_sound(p, to_end, r.0);
            crate::scan_model::lemma_in_braces_moves_on(p, to_end, r.0);
        }
    }
}

proof fn lemma_in_brackets_sound(p: Seq<char>, s: Cursor)
    requires
        sound(p, s),
    ensures
        sound(p, in_brackets(p, s)),
        in_brackets(p, s).start == s.start,
        in_brackets(p, s).index == s.index ==> in_brackets(p, s) == s,
        in_brackets(p, s).slashes == s.slashes,
        in_brackets(p, s).segments == s.segments,
    decreases p.len() - s.index,
{
    if s.index < p.len() {
        let r = brackets_round(p, s);
        if r.1 {
            lemma_in_brackets_sound(p, r.0);
            crate::scan_model::lemma_in_brackets_moves_on(p, r.0);
        }
    }
}

proof fn lemma_in_group_sound(p: Seq<char>, s: Cursor)
    requires
        sound(p, s),
    ensures
        sound(p, in_group(p, s)),
        in_group(p, s).start == s.start,
        in_group(p, s).index == s.index ==> in_group(p, s) == s,
        in_group(p, s).slashes == s.slashes,
        in_group(p, s).segments == s.segments,
    decreases p.len() - s.index,
{
    if s.index < p.len() {
        let r = group_round(p, s);
        if r.1 {
            lemma_in_group_sound(p, r.0);
            crate::scan_model::lemma_in_group_moves_on(p, r.0);
        }
    }
}

proof fn lemma_at_marker_sound(p: Seq<char>, o: ScanOptions, c: char, t: Cursor)
    requires
        sound(p, t),
        t.index >= 1,
    ensures
        sound(p, at_marker(p, o, c, t)),
        at_marker(p, o, c, t).slashes == t.slashes,
        at_marker(p, o, c, t).segments == t.segments,
        at_marker(p, o, c, t).index >= t.index,
{
    let to_end = scans_to_end(o);
    if !on(o.noext) && crate::scan_model::extglob_lead(c) && char_at(p, t.index) == Some('(') {
        lemma_in_group_sound(
            p,
            Cursor {
                negated_extglob: t.negated_extglob || (c == '!' && t.index - 1 == t.start),
                ..finish(with_ext_glob(with_glob(t)))
            },
        );
        crate::scan_model::lemma_in_group_moves_on(
            p,
            Cursor {
                negated_extglob: t.negated_extglob || (c == '!' && t.index - 1 == t.start),
                ..finish(with_ext_glob(with_glob(t)))
            },
        );
    } else if c == '*' {
    } else if c == '?' {
    } else if c == '[' {
        lemma_in_brackets_sound(p, t);
        crate::scan_model::lemma_in_brackets_moves_on(p, t);
    } else if !on(o.nonegate) && c == '!' && t.index - 1 == t.start {
    } else if !on(o.noparen) && c == '(' {
        lemma_in_group_sound(p, with_glob(t));
        crate::scan_model::lemma_in_group_moves_on(p, with_glob(t));
    } else {
    }
}

/// A round of the scan keeps the cursor within the pattern.
pub proof fn lemma_step_sound(p: Seq<char>, o: ScanOptions, s: Cursor)
    requires
        sound(p, s),
        s.index < p.len(),
    ensures
        sound(p, step(p, o, s)),
{
    let to_end = scans_to_end(o);
    let t = take(p, s);
    let c = p[s.index];
    if c == '\\' {
    } else if c == '{' {
        lemma_in_braces_sound(p, to_end, Cursor { braces: t.braces + 1, ..t });
    } else if c == '/' {
    } else {
        lemma_at_marker_sound(p, o, c, t);
    }
}

/// The whole scan keeps the cursor within the pattern.
pub proof fn lemma_run_sound(p: Seq<char>, o: ScanOptions, s: Cursor)
    requires
        sound(p, s),
    ensures
        sound(p, run(p, o, s)),
    decreases p.len() - s.index,
{
    if !(s.stopped || s.index >= p.len()) {
        lemma_step_sound(p, o, s);
        lemma_step_moves_on(p, o, s);
        lemma_run_sound(p, o, step(p, o, s));
    }
}

/// Prefix, base and glob are the pattern cut in three: put together again
/// they give the pattern, but for the one separator that the base may have
/// lost at its end. The scan starts at the byte offset where the prefix
/// ends. (Removing escapes changes the parts, so this is said of scans that
/// leave them in.)
pub proof fn lemma_scan_partitions_pattern(p: Seq<char>, o: ScanOptions)
    requires
        !on(o.unescape),
    ensures
        ({
            let r = scanned(p, o);
            ||| r.prefix + r.base + r.glob == p
            ||| r.prefix + r.base.push('/') + r.glob == p
            ||| r.prefix + r.base.push('\\') + r.glob == p
        }),
        scanned(p, o).input == p,
        scanned(p, o).prefix == p.take(scanned(p, o).prefix.len() as int),
        scanned(p, o).start == byte_offset(p, scanned(p, o).prefix.len() as int),
{
    lemma_run_sound(p, o, initial());
    let s = run(p, o, initial());
    let r = scanned(p, o);
    let g = counts_as_glob(o, s);
    let b0 = raw_base(p, s, g);
    assert(r.prefix + b0 + raw_glob(p, s, g) =~= p);
    assert(r.prefix =~= p.take(s.start));
    if sheds_separator(p, s, b0) {
        let last = b0.last();
        assert(b0 =~= b0.drop_last().push(last));
    }
}

/// The characters that make the scanner do more than read on.
pub open spec fn glob_meta(c: char) -> bool {
    c == '\\' || c == '{' || c == '*' || c == '?' || c == '[' || c == '(' || c == '!'
}

/// A pattern without any such character.
pub open spec fn plain(p: Seq<char>) -> bool {
    forall|i: int| 0 <= i < p.len() ==> !glob_meta(#[trigger] p[i])
}

/// A cursor that has met nothing but plain text.
spec fn calm(s: Cursor) -> bool {
    s.all == no_marks() && s.segment == no_marks() && !s.finished && !s.stopped
        && !s.negated_extglob
}

proof fn lemma_plain_run(p: Seq<char>, o: ScanOptions, s: Cursor)
    requires
        plain(p),
        calm(s),
        0 <= s.index,
    ensures
        calm(run(p, o, s)),
    decreases p.len() - s.index,
{
    if !(s.stopped || s.index >= p.len()) {
        let c = p[s.index];
        assert(!glob_meta(c));
        let t = take(p, s);
        if t.index < p.len() {
            assert(!glob_meta(p[t.index]));
        }
        lemma_step_moves_on(p, o, s);
        lemma_plain_run(p, o, step(p, o, s));
    }
}

/// A pattern without glob characters is no glob, and all of it that follows
/// the prefix is its base.
pub proof fn lemma_plain_pattern_is_its_base(p: Seq<char>, o: ScanOptions)
    requires
        plain(p),
    ensures
        !scanned(p, o).is_glob,
        !scanned(p, o).is_brace,
        !scanned(p, o).is_bracket,
        !scanned(p, o).is_ext_glob,
        !scanned(p, o).is_glob_star,
        !scanned(p, o).negated,
        scanned(p, o).glob == Seq::<char>::empty(),
        scanned(p, o).prefix + scanned(p, o).base == p,
{
    lemma_plain_run(p, o, initial());
    lemma_run_sound(p, o, initial());
    let s = run(p, o, initial());
    assert(scanned(p, o).prefix + scanned(p, o).base =~= p);
}

/// Whether an exclamation mark right after a leading `./` negates the
/// pattern: it does unless negation is off or the mark leads an extglob in.
pub open spec fn negates_after_prefix(p: Seq<char>, o: ScanOptions) -> bool {
    &&& char_at(p, 2) == Some('!')
    &&& !on(o.nonegate)
    &&& !(!on(o.noext) && char_at(p, 3) == Some('('))
}

/// Whether a second `./` follows the leading one.
pub open spec fn repeats_prefix(p: Seq<char>) -> bool {
    char_at(p, 2) == Some('.') && char_at(p, 3) == Some('/')
}

/// A cursor past the prefix `./` whose start no further round will move.
spec fn past_prefix(p: Seq<char>, s: Cursor) -> bool {
    &&& sound(p, s)
    &&& s.start == 2
    &&& s.index >= 3
    &&& (s.index == 3 && s.code == Some('.') ==> p[2] == '.')
}

proof fn lemma_start_stays(p: Seq<char>, o: ScanOptions, s: Cursor)
    requires
        past_prefix(p, s),
        !repeats_prefix(p),
    ensures
        run(p, o, s).start == 2,
    decreases p.len() - s.index,
{
    if !(s.stopped || s.index >= p.len()) {
        let to_end = scans_to_end(o);
        let t = take(p, s);
        let c = p[s.index];
        lemma_step_sound(p, o, s);
        lemma_step_moves_on(p, o, s);
        if c == '\\' {
        } else if c == '{' {
            lemma_in_braces_sound(p, to_end, Cursor { braces: t.braces + 1, ..t });
        } else if c == '/' {
        } else {
            lemma_in_brackets_sound(p, t);
            lemma_in_group_sound(p, with_glob(t));
            lemma_in_group_sound(
                p,
                Cursor {
                    negated_extglob: t.negated_extglob || (c == '!' && t.index - 1 == t.start),
                    ..finish(with_ext_glob(with_glob(t)))
                },
            );
        }
        lemma_start_stays(p, o, step(p, o, s));
    }
}

/// A leading `./` is the prefix of the pattern, and the scan starts behind
/// it. Left out are the patterns in which the start moves on: those with a
/// negating `!` or with another `./` right after the prefix.
pub proof fn lemma_leading_dot_slash_is_prefix(p: Seq<char>, o: ScanOptions)
    requires
        has_dot_slash(p),
        !negates_after_prefix(p, o),
        !repeats_prefix(p),
    ensures
        scanned(p, o).start == 2,
        scanned(p, o).prefix == seq!['.', '/'],
{
    let to_end = scans_to_end(o);
    let s0 = initial();
    let s1 = step(p, o, s0);
    let s2 = step(p, o, s1);
    assert(run(p, o, s0) == run(p, o, s1));
    assert(s2.start == 2 && s2.index == 2 && sound(p, s2) && !s2.stopped && !s2.finished);
    assert(run(p, o, s1) == run(p, o, s2));
    if p.len() > 2 {
        let s3 = step(p, o, s2);
        let t = take(p, s2);
        let c = p[2];
        lemma_step_sound(p, o, s2);
        lemma_step_moves_on(p, o, s2);
        if c == '\\' {
        } else if c == '{' {
            lemma_in_braces_sound(p, to_end, Cursor { braces: t.braces + 1, ..t });
        } else if c == '/' {
        } else {
            lemma_in_brackets_sound(p, t);
            lemma_in_group_sound(p, with_glob(t));
            lemma_in_group_sound(
                p,
                Cursor {
                    negated_extglob: t.negated_extglob || (c == '!' && t.index - 1 == t.start),
                    ..finish(with_ext_glob(with_glob(t)))
                },
            );
        }
        assert(past_prefix(p, s3));
        lemma_start_stays(p, o, s3);
        assert(run(p, o, s2) == run(p, o, s3));
    }
    assert(scanned(p, o).prefix =~= seq!['.', '/']);
    lemma_byte_offset_rises(p, 0, 0);
    lemma_byte_offset_step(p, 0);
    lemma_byte_offset_step(p, 1);
    lemma_char_width(p[0]);
    lemma_char_width(p[1]);
}

/// The separators recorded so far lie before the cursor, in rising order,
/// and each is the position of a `/`.
spec fn in_order(p: Seq<char>, s: Cursor) -> bool {
    &&& forall|i: int| 0 <= i < s.slashes.len() ==> s.slashes[i] < s.index
    &&& forall|i: int| 0 <= i < s.slashes.len() ==> p[#[trigger] s.slashes[i] as int] == '/'
    &&& forall|i: int, j: int| 0 <= i < j < s.slashes.len() ==> s.slashes[i] < s.slashes[j]
}

proof fn lemma_at_separator_in_order(p: Seq<char>, t: Cursor)
    requires
        sound(p, t),
        1 <= t.index <= p.len() <= usize::MAX,
        p[t.index - 1] == '/',
        forall|i: int| 0 <= i < t.slashes.len() ==> t.slashes[i] < t.index - 1,
        forall|i: int| 0 <= i < t.slashes.len() ==> p[#[trigger] t.slashes[i] as int] == '/',
        forall|i: int, j: int| 0 <= i < j < t.slashes.len() ==> t.slashes[i] < t.slashes[j],
    ensures
        in_order(p, at_separator(t)),
{
    let u = at_separator(t);
    assert(u.slashes == t.slashes.push((t.index - 1) as usize));
    assert(u.index == t.index);
    assert forall|i: int| 0 <= i < u.slashes.len() implies u.slashes[i] < u.index && p[u.slashes[i] as int]
        == '/' by {
        if i < t.slashes.len() {
            assert(u.slashes[i] == t.slashes[i]);
        }
    }
    assert forall|i: int, j: int| 0 <= i < j < u.slashes.len() implies u.slashes[i]
        < u.slashes[j] by {
        assert(u.slashes[i] == t.slashes[i]);
        if j < t.slashes.len() {
            assert(u.slashes[j] == t.slashes[j]);
        }
    }
}

proof fn lemma_step_in_order(p: Seq<char>, o: ScanOptions, s: Cursor)
    requires
        sound(p, s),
        in_order(p, s),
        s.index < p.len() <= usize::MAX,
    ensures
        in_order(p, step(p, o, s)),
{
    let to_end = scans_to_end(o);
    let t = take(p, s);
    let c = p[s.index];
    let u = step(p, o, s);
    if c == '/' {
        lemma_at_separator_in_order(p, t);
    } else {
        if c == '\\' {
        } else if c == '{' {
            lemma_in_braces_sound(p, to_end, Cursor { braces: t.braces + 1, ..t });
            crate::scan_model::lemma_in_braces_moves_on(p, to_end, Cursor { braces: t.braces + 1, ..t });
        } else {
            lemma_at_marker_sound(p, o, c, t);
        }
        assert(u.slashes == s.slashes);
        assert(u.index >= s.index);
    }
}

proof fn lemma_run_in_order(p: Seq<char>, o: ScanOptions, s: Cursor)
    requires
        sound(p, s),
        in_order(p, s),
        p.len() <= usize::MAX,
    ensures
        in_order(p, run(p, o, s)),
    decreases p.len() - s.index,
{
    if !(s.stopped || s.index >= p.len()) {
        lemma_step_sound(p, o, s);
        lemma_step_in_order(p, o, s);
        lemma_step_moves_on(p, o, s);
        lemma_run_in_order(p, o, step(p, o, s));
    }
}

/// The separators that a scan lists are the byte offsets of characters `/`
/// of the pattern, in rising order, and there is one token for each segment
/// that a separator closes and at most one more for what follows the last.
/// `at` holds the positions of those characters, counted in characters.
pub proof fn lemma_separators_in_order(p: Seq<char>, o: ScanOptions)
    requires
        encode_utf8(p).len() <= usize::MAX,
        scanned(p, o).slashes is Some,
    ensures
        ({
            let slashes = scanned(p, o).slashes->0;
            let at = run(p, o, initial()).slashes;
            &&& slashes.len() == at.len()
            &&& forall|k: int|
                0 <= k < at.len() ==> at[k] < p.len() && p[#[trigger] at[k] as int] == '/'
                    && slashes[k] == byte_offset(p, at[k] as int)
            &&& forall|i: int, j: int| 0 <= i < j < slashes.len() ==> slashes[i] < slashes[j]
            &&& match scanned(p, o).tokens {
                Some(tokens) => tokens.len() == slashes.len() || tokens.len() == slashes.len() + 1,
                None => true,
            }
        }),
{
    lemma_byte_offset_rises(p, 0, p.len() as int);
    lemma_encoding_is_no_shorter(p);
    lemma_run_sound(p, o, initial());
    lemma_run_in_order(p, o, initial());
    let slashes = scanned(p, o).slashes->0;
    let at = run(p, o, initial()).slashes;
    assert forall|k: int| 0 <= k < at.len() implies slashes[k] == byte_offset(
        p,
        at[k] as int,
    ) by {
        lemma_byte_offset_rises(p, at[k] as int, p.len() as int);
    }
    assert forall|i: int, j: int| 0 <= i < j < slashes.len() implies slashes[i] < slashes[j] by {
        lemma_byte_offset_rises(p, at[i] as int, at[j] as int);
        lemma_byte_offset_rises(p, at[i] as int, p.len() as int);
        lemma_byte_offset_rises(p, at[j] as int, p.len() as int);
    }
}

/// A text has at least as many bytes as characters.
proof fn lemma_encoding_is_no_shorter(p: Seq<char>)
    ensures
        p.len() <= encode_utf8(p).len(),
    decreases p.len(),
{
    if p.len() > 0 {
        lemma_byte_offset_step(p, p.len() - 1);
        lemma_char_width(p.last());
        lemma_byte_offset_rises(p, 0, p.len() as int);
        lemma_byte_offset_rises(p, 0, p.len() - 1);
        assert(p.take(p.len() - 1) =~= p.drop_last());
        lemma_encoding_is_no_shorter(p.drop_last());
    }
}

/// A globstar, an extglob and a bracket expression each make a glob.
spec fn marks_agree(s: Cursor) -> bool {
    &&& s.all.is_glob_star ==> s.all.is_glob
    &&& s.all.is_ext_glob ==> s.all.is_glob
    &&& s.all.is_bracket ==> s.all.is_glob
    &&& s.negated_extglob ==> s.all.is_ext_glob
}

proof fn lemma_in_braces_marks(p: Seq<char>, to_end: bool, s: Cursor)
    requires
        marks_agree(s),
    ensures
        marks_agree(in_braces(p, to_end, s)),
    decreases p.len() - s.index,
{
    if 0 <= s.index < p.len() {
        let r = braces_round(p, to_end, s);
        if r.1 {
            lemma_in_braces_marks(p, to_end, r.0);
        }
    }
}

proof fn lemma_in_brackets_marks(p: Seq<char>, s: Cursor)
    requires
        marks_agree(s),
    ensures
        marks_agree(in_brackets(p, s)),
    decreases p.len() - s.index,
{
    if 0 <= s.index < p.len() {
        let r = brackets_round(p, s);
        if r.1 {
            lemma_in_brackets_marks(p, r.0);
        }
    }
}

proof fn lemma_in_group_marks(p: Seq<char>, s: Cursor)
    requires
        marks_agree(s),
    ensures
        marks_agree(in_group(p, s)),
    decreases p.len() - s.index,
{
    if 0 <= s.index < p.len() {
        let r = group_round(p, s);
        if r.1 {
            lemma_in_group_marks(p, r.0);
        }
    }
}

proof fn lemma_run_marks(p: Seq<char>, o: ScanOptions, s: Cursor)
    requires
        marks_agree(s),
    ensures
        marks_agree(run(p, o, s)),
    decreases p.len() - s.index,
{
    if !(s.stopped || s.index < 0 || s.index >= p.len()) {
        let to_end = scans_to_end(o);
        let t = take(p, s);
        let c = p[s.index];
        if c == '\\' {
        } else if c == '{' {
            lemma_in_braces_marks(p, to_end, Cursor { braces: t.braces + 1, ..t });
        } else if c == '/' {
        } else {
            lemma_in_brackets_marks(p, t);
            lemma_in_group_marks(p, with_glob(t));
            lemma_in_group_marks(
                p,
                Cursor {
                    negated_extglob: t.negated_extglob || (c == '!' && t.index - 1 == t.start),
                    ..finish(with_ext_glob(with_glob(t)))
                },
            );
        }
        lemma_step_moves_on(p, o, s);
        lemma_run_marks(p, o, step(p, o, s));
    }
}

/// A pattern with a globstar, an extglob or a bracket expression is a glob,
/// and a pattern with a negated extglob has an extglob. (With extglobs
/// switched off the result calls no pattern a glob.)
pub proof fn lemma_marks_make_a_glob(p: Seq<char>, o: ScanOptions)
    requires
        !on(o.noext),
    ensures
        scanned(p, o).is_glob_star ==> scanned(p, o).is_glob,
        scanned(p, o).is_ext_glob ==> scanned(p, o).is_glob,
        scanned(p, o).is_bracket ==> scanned(p, o).is_glob,
        scanned(p, o).negated_extglob ==> scanned(p, o).is_ext_glob,
{
    lemma_run_marks(p, o, initial());
}

/// Scanning is a function of the pattern and the options: two scans of the
/// same pattern under the same options give the same result.
pub proof fn lemma_scan_is_deterministic(p: Seq<char>, o: ScanOptions, a: ScanView, b: ScanView)
    requires
        a == scanned(p, o),
        b == scanned(p, o),
    ensures
        a == b,
{
}

} // verus!
