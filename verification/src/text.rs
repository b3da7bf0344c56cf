//! Conversions between strings and vectors of characters, on which all the
//! scanning and parsing of this crate is done.

use vstd::prelude::*;
use vstd::utf8::{char_is_scalar, encode_scalar, encode_utf8};

verus! {

/// `String::push` appends one character at the end of the string.
pub assume_specification[ std::string::String::push ](s: &mut std::string::String, c: char)
    ensures
        final(s)@ == old(s)@.push(c),
;

/// The characters of `s`, in order.
pub fn chars_of(s: &str) -> (v: Vec<char>)
    ensures
        v@ == s@,
{
    let mut v: Vec<char> = Vec::new();
    for c in it: s.chars()
        invariant
            v@ == it.seq().take(it.index() as int),
            it.seq() == s@,
    {
        v.push(c);
    }
    v
}

/// The string made of the characters `chars[from..to]`.
pub fn string_between(chars: &Vec<char>, from: usize, to: usize) -> (s: String)
    requires
        from <= to <= chars.len(),
    ensures
        s@ == chars@.subrange(from as int, to as int),
{
    let mut s = String::new();
    let mut i: usize = from;
    while i < to
        invariant
            from <= i <= to <= chars.len(),
            s@ == chars@.subrange(from as int, i as int),
        decreases to - i,
    {
        s.push(chars[i]);
        i += 1;
        assert(chars@.subrange(from as int, i as int) == chars@.subrange(
            from as int,
            i - 1,
        ).push(chars@[i - 1]));
    }
    s
}

/// The string made of all of `chars`.
pub fn string_of(chars: &Vec<char>) -> (s: String)
    ensures
        s@ == chars@,
{
    let s = string_between(chars, 0, chars.len());
    assert(chars@.subrange(0, chars.len() as int) == chars@);
    s
}

/// Appends the characters `src[from..to]` to `out`.
pub fn push_between(out: &mut Vec<char>, src: &Vec<char>, from: usize, to: usize)
    requires
        from <= to <= src.len(),
    ensures
        final(out)@ == old(out)@ + src@.subrange(from as int, to as int),
{
    let mut i: usize = from;
    while i < to
        invariant
            from <= i <= to <= src.len(),
            out@ == old(out)@ + src@.subrange(from as int, i as int),
        decreases to - i,
    {
        out.push(src[i]);
        i += 1;
        assert(src@.subrange(from as int, i as int) == src@.subrange(from as int, i - 1).push(
            src@[i - 1],
        ));
    }
}

/// Appends all of `src` to `out`.
pub fn push_all(out: &mut Vec<char>, src: &Vec<char>)
    ensures
        final(out)@ == old(out)@ + src@,
{
    push_between(out, src, 0, src.len());
    assert(src@.subrange(0, src.len() as int) == src@);
}

/// Appends the characters of `s` to `out`.
pub fn push_str(out: &mut Vec<char>, s: &str)
    ensures
        final(out)@ == old(out)@ + s@,
{
    let src = chars_of(s);
    push_all(out, &src);
}

/// Whether `a[from..]` begins with `b`.
pub fn starts_with_at(a: &Vec<char>, from: usize, b: &Vec<char>) -> (r: bool)
    ensures
        r == (from + b.len() <= a.len() && a@.subrange(from as int, from + b.len()) == b@),
{
    if from > a.len() || b.len() > a.len() - from {
        return false;
    }
    let mut i: usize = 0;
    while i < b.len()
        invariant
            i <= b.len(),
            from + b.len() <= a.len(),
            a@.subrange(from as int, from + i) == b@.take(i as int),
        decreases b.len() - i,
    {
        if a[from + i] != b[i] {
            assert(a@.subrange(from as int, from + b.len())[i as int] != b@[i as int]);
            return false;
        }
        i += 1;
        assert(a@.subrange(from as int, from + i) == a@.subrange(from as int, from + i - 1).push(
            a@[from + i - 1],
        ));
        assert(b@.take(i as int) == b@.take(i - 1).push(b@[i - 1]));
    }
    assert(b@.take(b.len() as int) == b@);
    true
}

/// Whether the two vectors hold the same characters.
pub fn same_chars(a: &Vec<char>, b: &Vec<char>) -> (r: bool)
    ensures
        r == (a@ == b@),
{
    if a.len() != b.len() {
        return false;
    }
    let r = starts_with_at(a, 0, b);
    assert(a@.subrange(0, a.len() as int) == a@);
    r
}

/// Whether `a` holds exactly the characters of `s`.
pub fn is_str(a: &Vec<char>, s: &str) -> (r: bool)
    ensures
        r == (a@ == s@),
{
    let b = chars_of(s);
    same_chars(a, &b)
}

/// How many bytes the character `c` takes in UTF-8.
pub open spec fn char_width(c: char) -> nat {
    encode_scalar(c as u32).len()
}

/// The byte offset of the position `i` in the text `p`: how many bytes the
/// characters before it take in UTF-8.
pub open spec fn byte_offset(p: Seq<char>, i: int) -> nat {
    if 0 <= i <= p.len() {
        encode_utf8(p.take(i)).len()
    } else {
        0
    }
}

/// A character takes one to four bytes.
pub proof fn lemma_char_width(c: char)
    ensures
        1 <= char_width(c) <= 4,
        c as u32 <= 0x7F ==> char_width(c) == 1,
{
}

/// The encoding of a text with one more character at its end is the
/// encoding of the text with that of the character behind it.
pub proof fn lemma_encode_push(a: Seq<char>, c: char)
    ensures
        encode_utf8(a.push(c)) == encode_utf8(a) + encode_scalar(c as u32),
    decreases a.len(),
{
    if a.len() == 0 {
        let b = a.push(c);
        assert(b.drop_first() =~= Seq::<char>::empty());
        assert(b[0] == c);
        assert(encode_utf8(b.drop_first()) =~= Seq::<u8>::empty());
        assert(encode_utf8(a) =~= Seq::<u8>::empty());
        assert(encode_utf8(b) =~= encode_scalar(c as u32));
        assert(encode_utf8(a) + encode_scalar(c as u32) =~= encode_scalar(c as u32));
    } else {
        let b = a.push(c);
        assert(b.drop_first() =~= a.drop_first().push(c));
        assert(b[0] == a[0]);
        lemma_encode_push(a.drop_first(), c);
        assert(encode_utf8(b) =~= encode_utf8(a) + encode_scalar(c as u32));
    }
}

/// One position on, the byte offset is greater by the width of the
/// character in between.
pub proof fn lemma_byte_offset_step(p: Seq<char>, i: int)
    requires
        0 <= i < p.len(),
    ensures
        byte_offset(p, i + 1) == byte_offset(p, i) + char_width(p[i]),
{
    assert(p.take(i + 1) =~= p.take(i).push(p[i]));
    lemma_encode_push(p.take(i), p[i]);
}

/// Byte offsets rise with the positions.
pub proof fn lemma_byte_offset_rises(p: Seq<char>, i: int, j: int)
    requires
        0 <= i <= j <= p.len(),
    ensures
        byte_offset(p, i) <= byte_offset(p, j),
        i < j ==> byte_offset(p, i) < byte_offset(p, j),
        byte_offset(p, 0) == 0,
        byte_offset(p, p.len() as int) == encode_utf8(p).len(),
    decreases j - i,
{
    assert(p.take(0) =~= Seq::<char>::empty());
    assert(p.take(p.len() as int) =~= p);
    if i < j {
        lemma_byte_offset_step(p, j - 1);
        lemma_char_width(p[j - 1]);
        lemma_byte_offset_rises(p, i, j - 1);
    }
}

/// How many bytes `c` takes in UTF-8.
pub fn width_of(c: char) -> (w: usize)
    ensures
        w == char_width(c),
{
    proof {
        char_is_scalar(c);
    }
    let v = c as u32;
    if v <= 0x7F {
        1
    } else if v <= 0x7FF {
        2
    } else if v <= 0xFFFF {
        3
    } else {
        4
    }
}

/// The byte offsets of all positions in `p`, the end included.
pub fn byte_offsets_of(p: &Vec<char>) -> (r: Vec<usize>)
    requires
        encode_utf8(p@).len() <= usize::MAX,
    ensures
        r@.len() == p@.len() + 1,
        forall|i: int| 0 <= i <= p@.len() ==> r@[i] == byte_offset(p@, i),
{
    let mut r: Vec<usize> = Vec::new();
    let mut at: usize = 0;
    let mut i: usize = 0;
    proof {
        lemma_byte_offset_rises(p@, 0, 0);
    }
    r.push(at);
    while i < p.len()
        invariant
            i <= p.len(),
            encode_utf8(p@).len() <= usize::MAX,
            at == byte_offset(p@, i as int),
            r@.len() == i + 1,
            forall|k: int| 0 <= k <= i ==> r@[k] == byte_offset(p@, k),
        decreases p.len() - i,
    {
        proof {
            lemma_byte_offset_step(p@, i as int);
            lemma_byte_offset_rises(p@, i + 1, p@.len() as int);
        }
        at = at + width_of(p[i]);
        r.push(at);
        i += 1;
    }
    r
}

} // verus!
