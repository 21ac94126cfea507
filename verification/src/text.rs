//! Characters, blanks and the pieces of a line.
//!
//! A line is modelled as a `Seq<char>`. Everything the parser needs from a
//! text is said here over that model: how a text falls into pieces at a
//! delimiter, what trimming removes, and which pieces are words.

use vstd::prelude::*;
use vstd::utf8::{encode_utf8, encode_utf8_decode_utf8};
use crate::text::laws::lemma_non_empty_push;

pub mod laws;

verus! {

/// The blanks that separate the words of a command: the space and the five
/// ASCII controls from the horizontal tab (U+0009) to the carriage return (U+000D).
pub open spec fn is_blank(c: char) -> bool {
    c == ' ' || c == '\t' || c == '\n' || c == '\x0B' || c == '\x0C' || c == '\r'
}

/// Tells whether `c` is a blank.
pub fn blank(c: char) -> (b: bool)
    ensures
        b == is_blank(c),
{
    c == ' ' || c == '\t' || c == '\n' || c == '\x0B' || c == '\x0C' || c == '\r'
}

/// What a text is cut at.
#[derive(Clone, Copy, Debug)]
pub enum Delimiter {
    /// The pipe character, which separates the stages of a pipeline.
    Pipe,
    /// Any blank, which separates the words of a stage.
    Blank,
}

impl Delimiter {
    /// Whether the text is cut at the character `c`.
    pub open spec fn matches(self, c: char) -> bool {
        match self {
            Delimiter::Pipe => c == '|',
            Delimiter::Blank => is_blank(c),
        }
    }

    /// Tells whether the text is cut at the character `c`.
    pub fn cuts_at(self, c: char) -> (b: bool)
        ensures
            b == self.matches(c),
    {
        match self {
            Delimiter::Pipe => c == '|',
            Delimiter::Blank => blank(c),
        }
    }
}

/// The pieces of `s` between its delimiters, in order. Every delimiter ends
/// one piece and starts the next, so a text with `k` delimiters has `k + 1`
/// pieces, some of which may be empty.
pub open spec fn split(s: Seq<char>, d: Delimiter) -> Seq<Seq<char>>
    decreases s.len(),
{
    if s.len() == 0 {
        seq![Seq::empty()]
    } else {
        let before = split(s.drop_last(), d);
        if d.matches(s.last()) {
            before.push(Seq::empty())
        } else {
            before.drop_last().push(before.last().push(s.last()))
        }
    }
}

/// `s` without the blanks it starts with.
pub open spec fn trim_start(s: Seq<char>) -> Seq<char>
    decreases s.len(),
{
    if s.len() > 0 && is_blank(s.first()) {
        trim_start(s.drop_first())
    } else {
        s
    }
}

/// `s` without the blanks it ends with.
pub open spec fn trim_end(s: Seq<char>) -> Seq<char>
    decreases s.len(),
{
    if s.len() > 0 && is_blank(s.last()) {
        trim_end(s.drop_last())
    } else {
        s
    }
}

/// `s` without the blanks around it.
pub open spec fn trim(s: Seq<char>) -> Seq<char> {
    trim_end(trim_start(s))
}

/// The test that a piece holds at least one character.
pub open spec fn holds_a_char() -> spec_fn(Seq<char>) -> bool {
    |p: Seq<char>| p.len() > 0
}

/// The pieces that hold at least one character, in order.
pub open spec fn non_empty(pieces: Seq<Seq<char>>) -> Seq<Seq<char>> {
    pieces.filter(holds_a_char())
}

/// The words of `s`: the non-empty pieces between its blanks.
pub open spec fn words(s: Seq<char>) -> Seq<Seq<char>> {
    non_empty(split(s, Delimiter::Blank))
}

/// Whether `s` holds nothing but blanks.
pub open spec fn all_blank(s: Seq<char>) -> bool {
    forall|i: int| 0 <= i < s.len() ==> is_blank(#[trigger] s[i])
}

/// What a vector of string slices holds, slice by slice.
pub open spec fn texts(parts: Seq<&str>) -> Seq<Seq<char>> {
    Seq::new(parts.len(), |i: int| parts[i]@)
}

/// The characters of `text`, in a vector that can be indexed.
pub fn chars_of(text: &str) -> (chars: Vec<char>)
    ensures
        chars@ == text@,
{
    let mut chars: Vec<char> = Vec::new();
    for c in it: text.chars()
        invariant
            chars@ == it.seq().take(it.index() as int),
    {
        chars.push(c);
    }
    chars
}

/// Tells whether two texts hold the same characters.
pub fn same_text(a: &str, b: &str) -> (same: bool)
    ensures
        same == (a@ == b@),
{
    let left = a.as_bytes();
    let right = b.as_bytes();
    proof {
        // Two texts with the same bytes decode to the same characters.
        encode_utf8_decode_utf8(a@);
        encode_utf8_decode_utf8(b@);
    }
    if left.len() != right.len() {
        return false;
    }
    let mut i: usize = 0;
    while i < left.len()
        invariant
            left@ == encode_utf8(a@),
            right@ == encode_utf8(b@),
            left.len() == right.len(),
            i <= left.len(),
            forall|j: int| 0 <= j < i ==> left@[j] == right@[j],
        decreases left.len() - i,
    {
        if left[i] != right[i] {
            return false;
        }
        i += 1;
    }
    assert(left@ =~= right@);
    true
}

/// Cuts `text` at every delimiter and returns the pieces between them.
pub fn split_text<'a>(text: &'a str, d: Delimiter) -> (pieces: Vec<&'a str>)
    ensures
        texts(pieces@) == split(text@, d),
{
    let chars = chars_of(text);
    let n = chars.len();
    let mut pieces: Vec<&'a str> = Vec::new();
    let mut start: usize = 0;
    let mut i: usize = 0;
    assert(text@.take(0) =~= Seq::<char>::empty());
    assert(text@.subrange(0, 0) =~= Seq::<char>::empty());
    assert(split(text@.take(0), d) =~= texts(pieces@).push(text@.subrange(0, 0)));
    while i < n
        invariant
            chars@ == text@,
            n == chars.len(),
            start <= i <= n,
            split(text@.take(i as int), d) == texts(pieces@).push(
                text@.subrange(start as int, i as int),
            ),
        decreases n - i,
    {
        let ghost done = texts(pieces@);
        let ghost open = text@.subrange(start as int, i as int);
        proof {
            let next = text@.take(i + 1);
            assert(next.drop_last() =~= text@.take(i as int));
            assert(next.last() == text@[i as int]);
        }
        if d.cuts_at(chars[i]) {
            pieces.push(text.substring_char(start, i));
            start = i + 1;
            proof {
                assert(texts(pieces@) =~= done.push(open));
                assert(text@.subrange(start as int, i + 1) =~= Seq::<char>::empty());
            }
        } else {
            proof {
                assert(done.push(open).drop_last() =~= done);
                assert(open.push(text@[i as int]) =~= text@.subrange(start as int, i + 1));
            }
        }
        i += 1;
    }
    pieces.push(text.substring_char(start, n));
    proof {
        assert(text@.take(n as int) =~= text@);
        assert(texts(pieces@) =~= split(text@, d));
    }
    pieces
}

/// Removes the blanks around `text`.
pub fn trim_text<'a>(text: &'a str) -> (trimmed: &'a str)
    ensures
        trimmed@ == trim(text@),
{
    let chars = chars_of(text);
    let n = chars.len();
    let mut from: usize = 0;
    assert(text@.subrange(0, n as int) =~= text@);
    while from < n && blank(chars[from])
        invariant
            chars@ == text@,
            n == chars.len(),
            from <= n,
            trim_start(text@) == trim_start(text@.subrange(from as int, n as int)),
        decreases n - from,
    {
        proof {
            let rest = text@.subrange(from as int, n as int);
            assert(rest.first() == text@[from as int]);
            assert(rest.drop_first() =~= text@.subrange(from + 1, n as int));
        }
        from += 1;
    }
    let mut to: usize = n;
    proof {
        let rest = text@.subrange(from as int, n as int);
        assert(rest.len() > 0 ==> rest.first() == text@[from as int]);
        assert(trim_start(text@) == rest);
    }
    while from < to && blank(chars[to - 1])
        invariant
            chars@ == text@,
            n == chars.len(),
            from <= to <= n,
            trim(text@) == trim_end(text@.subrange(from as int, to as int)),
        decreases to,
    {
        proof {
            let rest = text@.subrange(from as int, to as int);
            assert(rest.last() == text@[to - 1]);
            assert(rest.drop_last() =~= text@.subrange(from as int, to - 1));
        }
        to -= 1;
    }
    proof {
        let rest = text@.subrange(from as int, to as int);
        assert(rest.len() > 0 ==> rest.last() == text@[to - 1]);
    }
    text.substring_char(from, to)
}

/// The words of `text`, in order.
pub fn words_of<'a>(text: &'a str) -> (found: Vec<&'a str>)
    ensures
        texts(found@) == words(text@),
{
    let pieces = split_text(text, Delimiter::Blank);
    let mut found: Vec<&'a str> = Vec::new();
    let mut k: usize = 0;
    proof {
        reveal(Seq::filter);
        assert(texts(pieces@).take(0) =~= Seq::<Seq<char>>::empty());
        assert(texts(found@) =~= non_empty(texts(pieces@).take(0)));
    }
    while k < pieces.len()
        invariant
            k <= pieces.len(),
            texts(found@) == non_empty(texts(pieces@).take(k as int)),
        decreases pieces.len() - k,
    {
        let piece = pieces[k];
        let ghost before = texts(found@);
        proof {
            let seen = texts(pieces@).take(k as int);
            assert(texts(pieces@).take(k + 1) =~= seen.push(piece@));
            lemma_non_empty_push(seen, piece@);
        }
        if !piece.is_empty() {
            found.push(piece);
            assert(texts(found@) =~= before.push(piece@));
        }
        k += 1;
    }
    assert(texts(pieces@).take(k as int) =~= texts(pieces@));
    found
}

} // verus!
