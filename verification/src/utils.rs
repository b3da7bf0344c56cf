//! Helpers that the scanner, the fast paths and the parser share.

use vstd::prelude::*;
use crate::constants::{posix_chars, posix_fragments, windows_chars, windows_fragments, GlobChars};
use crate::text::{chars_of, push_str, string_between, string_of};

verus! {

/// One pattern or a list of patterns.
#[derive(Clone, Debug)]
pub enum StringOrArray {
    String(String),
    Array(Vec<String>),
}

/// The texts of a list of strings.
pub open spec fn texts_of(v: Seq<String>) -> Seq<Seq<char>> {
    Seq::new(v.len(), |i: int| v[i]@)
}

/// A copy of a list of strings.
pub fn copy_strings(v: &Vec<String>) -> (r: Vec<String>)
    ensures
        texts_of(r@) == texts_of(v@),
{
    let mut r: Vec<String> = Vec::new();
    let mut i: usize = 0;
    while i < v.len()
        invariant
            i <= v.len(),
            r@.len() == i,
            forall|j: int| 0 <= j < i ==> r@[j]@ == v@[j]@,
        decreases v.len() - i,
    {
        r.push(v[i].clone());
        i += 1;
    }
    assert(texts_of(r@) =~= texts_of(v@));
    r
}

impl StringOrArray {
    /// The patterns as contracts see them: one pattern is a list of one.
    pub open spec fn patterns(&self) -> Seq<Seq<char>> {
        match self {
            StringOrArray::String(s) => seq![s@],
            StringOrArray::Array(v) => texts_of(v@),
        }
    }

    /// The patterns as a list.
    pub fn to_array(&self) -> (r: Vec<String>)
        ensures
            texts_of(r@) == self.patterns(),
    {
        match self {
            StringOrArray::String(s) => {
                let mut r: Vec<String> = Vec::new();
                r.push(s.clone());
                assert(texts_of(r@) =~= seq![s@]);
                r
            },
            StringOrArray::Array(arr) => copy_strings(arr),
        }
    }

    /// Whether this is a list of patterns.
    pub fn is_array(&self) -> (b: bool)
        ensures
            b == (self is Array),
    {
        match self {
            StringOrArray::Array(_) => true,
            StringOrArray::String(_) => false,
        }
    }
}

/// The regex fragments of the platform: of Windows if `win32`, else of POSIX.
pub fn glob_chars(win32: bool) -> (r: GlobChars)
    ensures
        r@ == if win32 {
            windows_fragments()
        } else {
            posix_fragments()
        },
{
    if win32 {
        windows_chars()
    } else {
        posix_chars()
    }
}

/// How one kind of extglob is written as a regex: what opens the group and
/// what closes it.
#[derive(Debug, Clone)]
pub struct ExtglobChar {
    pub char_type: &'static str,
    pub open: &'static str,
    pub close: String,
}

/// An entry of the extglob table as contracts see it.
pub struct ExtglobView {
    pub char_type: Seq<char>,
    pub open: Seq<char>,
    pub close: Seq<char>,
}

impl View for ExtglobChar {
    type V = ExtglobView;

    open spec fn view(&self) -> ExtglobView {
        ExtglobView { char_type: self.char_type@, open: self.open@, close: self.close@ }
    }
}

/// The five kinds of extglob, each under the character that leads it in.
#[derive(Debug, Clone)]
pub struct ExtglobChars {
    pub negate: ExtglobChar,
    pub qmark: ExtglobChar,
    pub plus: ExtglobChar,
    pub star: ExtglobChar,
    pub at: ExtglobChar,
}

/// How the extglob that `lead` leads in is written, where a star is written
/// `star`. A negated group is a negative lookahead with a star behind it, the
/// two in a group of their own; the others are groups with the quantifier
/// that their lead character names.
pub open spec fn extglob_of(star: Seq<char>, lead: char) -> Option<ExtglobView> {
    if lead == '!' {
        Some(
            ExtglobView {
                char_type: "negate"@,
                open: "(?:(?!(?:"@,
                close: "))"@ + star + ")"@,
            },
        )
    } else if lead == '?' {
        Some(ExtglobView { char_type: "qmark"@, open: "(?:"@, close: ")?"@ })
    } else if lead == '+' {
        Some(ExtglobView { char_type: "plus"@, open: "(?:"@, close: ")+"@ })
    } else if lead == '*' {
        Some(ExtglobView { char_type: "star"@, open: "(?:"@, close: ")*"@ })
    } else if lead == '@' {
        Some(ExtglobView { char_type: "at"@, open: "(?:"@, close: ")"@ })
    } else {
        None
    }
}

impl ExtglobChars {
    /// The entry under the lead character `lead`.
    pub open spec fn entry(&self, lead: char) -> Option<ExtglobChar> {
        if lead == '!' {
            Some(self.negate)
        } else if lead == '?' {
            Some(self.qmark)
        } else if lead == '+' {
            Some(self.plus)
        } else if lead == '*' {
            Some(self.star)
        } else if lead == '@' {
            Some(self.at)
        } else {
            None
        }
    }

    /// The table holds, under each lead character, what `extglob_of` says.
    pub open spec fn holds(&self, star: Seq<char>) -> bool {
        forall|lead: char|
            match #[trigger] self.entry(lead) {
                Some(e) => extglob_of(star, lead) == Some(e@),
                None => extglob_of(star, lead) is None,
            }
    }

    /// The entry under the lead character `c`.
    pub fn get(&self, c: char) -> (r: Option<&ExtglobChar>)
        ensures
            match r {
                Some(e) => self.entry(c) == Some(*e),
                None => self.entry(c) is None,
            },
    {
        if c == '!' {
            Some(&self.negate)
        } else if c == '?' {
            Some(&self.qmark)
        } else if c == '+' {
            Some(&self.plus)
        } else if c == '*' {
            Some(&self.star)
        } else if c == '@' {
            Some(&self.at)
        } else {
            None
        }
    }
}

/// The extglob table for the fragments `chars`.
pub fn extglob_chars(chars: &GlobChars) -> (r: ExtglobChars)
    ensures
        r.holds(chars@.star),
{
    let mut close: Vec<char> = Vec::new();
    push_str(&mut close, "))");
    push_str(&mut close, chars.star);
    push_str(&mut close, ")");
    ExtglobChars {
        negate: ExtglobChar { char_type: "negate", open: "(?:(?!(?:", close: string_of(&close) },
        qmark: ExtglobChar { char_type: "qmark", open: "(?:", close: String::from_str(")?") },
        plus: ExtglobChar { char_type: "plus", open: "(?:", close: String::from_str(")+") },
        star: ExtglobChar { char_type: "star", open: "(?:", close: String::from_str(")*") },
        at: ExtglobChar { char_type: "at", open: "(?:", close: String::from_str(")") },
    }
}

/// Where the bracket expression ends that opens before `k - 1`: at the first
/// `]` from `k` on that no backslash precedes, provided that no line break
/// lies between.
pub open spec fn bracket_end(s: Seq<char>, k: int) -> Option<int>
    decreases s.len() - k,
{
    if k < 1 || k >= s.len() {
        None
    } else if s[k] == ']' && s[k - 1] != '\\' {
        Some(k)
    } else if s[k - 1] == '\n' {
        None
    } else {
        bracket_end(s, k + 1)
    }
}

/// A bracket expression ends at or behind where the search for its end
/// begins, and within the text.
pub proof fn lemma_bracket_end_bounds(s: Seq<char>, k: int)
    ensures
        match bracket_end(s, k) {
            Some(e) => k <= e < s.len(),
            None => true,
        },
    decreases s.len() - k,
{
    if k < 1 || k >= s.len() {
    } else if s[k] == ']' && s[k - 1] != '\\' {
    } else if s[k - 1] == '\n' {
    } else {
        lemma_bracket_end_bounds(s, k + 1);
    }
}

/// `s[i..]` without its escapes: a bracket expression with at least one
/// character in it is kept as it stands; elsewhere every backslash that has
/// a character other than a line break after it is dropped.
pub open spec fn unescaped_from(s: Seq<char>, i: int) -> Seq<char>
    decreases s.len() - i,
{
    if i < 0 || i >= s.len() {
        Seq::empty()
    } else if s[i] == '[' && bracket_end(s, i + 2) is Some {
        let e = bracket_end(s, i + 2)->0;
        proof {
            lemma_bracket_end_bounds(s, i + 2);
        }
        s.subrange(i, e + 1) + unescaped_from(s, e + 1)
    } else if s[i] == '\\' && i + 1 < s.len() && s[i + 1] != '\n' {
        unescaped_from(s, i + 1)
    } else {
        seq![s[i]] + unescaped_from(s, i + 1)
    }
}

/// `s` without its escapes.
pub open spec fn without_back_slashes(s: Seq<char>) -> Seq<char> {
    unescaped_from(s, 0)
}

/// The end of the bracket expression that opens at `i`, if it has one.
fn find_bracket_end(s: &Vec<char>, i: usize) -> (r: Option<usize>)
    requires
        i < s.len(),
    ensures
        match r {
            Some(e) => bracket_end(s@, i + 2) == Some(e as int) && i < e < s.len(),
            None => bracket_end(s@, i + 2) is None,
        },
{
    if s.len() - i < 3 {
        return None;
    }
    let mut k: usize = i + 2;
    while k < s.len()
        invariant
            i + 2 <= k <= s.len(),
            bracket_end(s@, i + 2) == bracket_end(s@, k as int),
        decreases s.len() - k,
    {
        if s[k] == ']' && s[k - 1] != '\\' {
            return Some(k);
        }
        if s[k - 1] == '\n' {
            return None;
        }
        k += 1;
    }
    None
}

/// `input` without its escapes.
pub fn remove_back_slashes(input: &String) -> (r: String)
    ensures
        r@ == without_back_slashes(input@),
{
    let s = chars_of(input.as_str());
    let mut out: Vec<char> = Vec::new();
    let mut i: usize = 0;
    while i < s.len()
        invariant
            i <= s.len(),
            out@ + unescaped_from(s@, i as int) == unescaped_from(s@, 0),
        decreases s.len() - i,
    {
        let ghost before = out@;
        let c = s[i];
        let end = if c == '[' {
            find_bracket_end(&s, i)
        } else {
            None
        };
        match end {
            Some(e) => {
                let mut k: usize = i;
                while k <= e
                    invariant
                        i <= k <= e + 1 <= s.len(),
                        out@ == before + s@.subrange(i as int, k as int),
                    decreases e + 1 - k,
                {
                    out.push(s[k]);
                    k += 1;
                    assert(s@.subrange(i as int, k as int) == s@.subrange(i as int, k - 1).push(
                        s@[k - 1],
                    ));
                }
                assert(out@ + unescaped_from(s@, e + 1) =~= before + unescaped_from(s@, i as int));
                i = e + 1;
            },
            None => {
                if c == '\\' && i + 1 < s.len() && s[i + 1] != '\n' {
                } else {
                    out.push(c);
                    assert(out@ + unescaped_from(s@, i + 1) =~= before + unescaped_from(
                        s@,
                        i as int,
                    ));
                }
                i += 1;
            },
        }
    }
    assert(out@ + unescaped_from(s@, i as int) =~= out@);
    string_of(&out)
}

/// The text of an optional string.
pub open spec fn option_text(o: Option<String>) -> Option<Seq<char>> {
    match o {
        Some(s) => Some(s@),
        None => None,
    }
}

/// A state that records the prefix taken off a pattern.
pub trait HasPrefix {
    /// The prefix recorded so far; empty if there is none.
    spec fn prefix_text(&self) -> Seq<char>;

    fn has_prefix(&self, prefix: &str) -> (r: &String)
        ensures
            r@ == self.prefix_text(),
    ;

    fn set_prefix(&mut self, prefix: String)
        ensures
            final(self).prefix_text() == prefix@,
    ;
}

/// A state that records a prefix and whether the pattern is negated.
pub trait HasPrefixAndNegated {
    spec fn prefix_text(&self) -> Option<Seq<char>>;

    spec fn is_negated(&self) -> bool;

    fn prefix(&self) -> (r: &Option<String>)
        ensures
            option_text(*r) == self.prefix_text(),
    ;

    fn negated(&self) -> (r: bool)
        ensures
            r == self.is_negated(),
    ;

    /// Records the prefix and leaves the negation as it is.
    fn set_prefix(&mut self, prefix: String)
        ensures
            final(self).prefix_text() == Some(prefix@),
            final(self).is_negated() == old(self).is_negated(),
    ;
}

/// What is noted of a pattern while it is made ready: the prefix taken off
/// it, and whether it is negated.
#[derive(Debug, Default)]
pub struct State {
    pub prefix: Option<String>,
    pub negated: bool,
}

impl HasPrefixAndNegated for State {
    open spec fn prefix_text(&self) -> Option<Seq<char>> {
        option_text(self.prefix)
    }

    open spec fn is_negated(&self) -> bool {
        self.negated
    }

    fn prefix(&self) -> (r: &Option<String>) {
        &self.prefix
    }

    fn negated(&self) -> (r: bool) {
        self.negated
    }

    fn set_prefix(&mut self, prefix: String) {
        self.prefix = Some(prefix);
    }
}

/// Whether `s` begins with `./`.
pub open spec fn has_dot_slash(s: Seq<char>) -> bool {
    s.len() >= 2 && s[0] == '.' && s[1] == '/'
}

/// `s` without a leading `./`.
pub open spec fn without_prefix(s: Seq<char>) -> Seq<char> {
    if has_dot_slash(s) {
        s.subrange(2, s.len() as int)
    } else {
        s
    }
}

/// Takes a leading `./` off `input` and records it in `state`.
pub fn remove_prefix<T: HasPrefixAndNegated>(input: &str, state: &mut T) -> (r: String)
    ensures
        r@ == without_prefix(input@),
        final(state).is_negated() == old(state).is_negated(),
        final(state).prefix_text() == if has_dot_slash(input@) {
            Some("./"@)
        } else {
            old(state).prefix_text()
        },
{
    let chars = chars_of(input);
    if chars.len() >= 2 && chars[0] == '.' && chars[1] == '/' {
        state.set_prefix(String::from_str("./"));
        string_between(&chars, 2, chars.len())
    } else {
        string_of(&chars)
    }
}

/// Where the index `i` of a slice falls in a text of `len` characters: a
/// negative index counts from the end, and none falls outside the text.
pub open spec fn slice_bound(i: int, len: int) -> int {
    if i < 0 {
        if len + i > 0 {
            len + i
        } else {
            0
        }
    } else if i < len {
        i
    } else {
        len
    }
}

/// The characters of `s` from `start` up to `end`, or to the end of `s`
/// without an `end`; nothing if `end` falls before `start`.
pub open spec fn sliced(s: Seq<char>, start: int, end: Option<int>) -> Seq<char> {
    let a = slice_bound(start, s.len() as int);
    let b = match end {
        Some(e) => slice_bound(e, s.len() as int),
        None => s.len() as int,
    };
    if a <= b {
        s.subrange(a, b)
    } else {
        Seq::empty()
    }
}

fn bound_in(i: isize, len: usize) -> (r: usize)
    ensures
        r == slice_bound(i as int, len as int),
{
    if i < 0 {
        let back: usize = (-(i + 1)) as usize;
        if back < len {
            len - back - 1
        } else {
            0
        }
    } else {
        let at: usize = i as usize;
        if at < len {
            at
        } else {
            len
        }
    }
}

/// The characters of `s` from `start` up to `end`; a negative index counts
/// from the end of `s`.
pub fn slice(s: &str, start: isize, end: Option<isize>) -> (r: String)
    ensures
        r@ == sliced(
            s@,
            start as int,
            match end {
                Some(e) => Some(e as int),
                None => None,
            },
        ),
{
    let chars = chars_of(s);
    let a = bound_in(start, chars.len());
    let b = match end {
        Some(e) => bound_in(e, chars.len()),
        None => chars.len(),
    };
    if a <= b {
        string_between(&chars, a, b)
    } else {
        String::new()
    }
}

} // verus!
