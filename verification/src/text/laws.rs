//! What holds of pieces, words and trimming.

use vstd::prelude::*;
use crate::text::{
    all_blank, holds_a_char, is_blank, non_empty, split, trim, trim_end, trim_start, words,
    Delimiter,
};

verus! {

/// A text always has at least one piece.
pub proof fn lemma_split_has_a_piece(s: Seq<char>, d: Delimiter)
    ensures
        split(s, d).len() >= 1,
    decreases s.len(),
{
    if s.len() > 0 {
        lemma_split_has_a_piece(s.drop_last(), d);
    }
}

/// A text without a delimiter is its own single piece.
pub proof fn lemma_split_without_delimiter(s: Seq<char>, d: Delimiter)
    requires
        forall|i: int| 0 <= i < s.len() ==> !d.matches(#[trigger] s[i]),
    ensures
        split(s, d) == seq![s],
    decreases s.len(),
{
    if s.len() == 0 {
        assert(split(s, d) =~~= seq![s]);
    } else {
        let front = s.drop_last();
        assert forall|i: int| 0 <= i < front.len() implies !d.matches(#[trigger] front[i]) by {
            assert(front[i] == s[i]);
        }
        lemma_split_without_delimiter(front, d);
        assert(!d.matches(s[s.len() - 1]));
        assert(front.push(s.last()) =~= s);
        assert(split(s, d) =~~= seq![s]);
    }
}

/// The delimiters of `s`, in order.
pub open spec fn delimiters(s: Seq<char>, d: Delimiter) -> Seq<char>
    decreases s.len(),
{
    if s.len() == 0 {
        s
    } else if d.matches(s.last()) {
        delimiters(s.drop_last(), d).push(s.last())
    } else {
        delimiters(s.drop_last(), d)
    }
}

/// The text made of `pieces` with one of `between` after each piece but the last.
pub open spec fn join(pieces: Seq<Seq<char>>, between: Seq<char>) -> Seq<char>
    decreases pieces.len(),
{
    if pieces.len() == 0 {
        Seq::empty()
    } else if pieces.len() == 1 {
        pieces[0]
    } else {
        join(pieces.drop_last(), between.drop_last()).push(between.last()) + pieces.last()
    }
}

/// Cutting loses nothing: a text has one piece more than it has delimiters,
/// and its pieces with its delimiters put back between them are the text.
pub proof fn lemma_split_joins_back(s: Seq<char>, d: Delimiter)
    ensures
        split(s, d).len() == delimiters(s, d).len() + 1,
        join(split(s, d), delimiters(s, d)) == s,
    decreases s.len(),
{
    if s.len() > 0 {
        let front = s.drop_last();
        lemma_split_joins_back(front, d);
        let before = split(front, d);
        let cuts = delimiters(front, d);
        if d.matches(s.last()) {
            let pieces = before.push(Seq::empty());
            let more = cuts.push(s.last());
            assert(pieces.drop_last() =~= before);
            assert(more.drop_last() =~= cuts);
            assert(join(pieces, more) =~= front.push(s.last()));
        } else {
            let grown = before.last().push(s.last());
            let pieces = before.drop_last().push(grown);
            if before.len() == 1 {
                assert(grown =~= front.push(s.last()));
            } else {
                assert(pieces.drop_last() =~= before.drop_last());
                assert(join(pieces, cuts) =~= join(before, cuts).push(s.last()));
            }
        }
        assert(front.push(s.last()) =~= s);
    }
}

/// No piece holds a delimiter.
pub proof fn lemma_pieces_hold_no_delimiter(s: Seq<char>, d: Delimiter)
    ensures
        forall|k: int, j: int|
            0 <= k < split(s, d).len() && 0 <= j < split(s, d)[k].len() ==> !d.matches(
                #[trigger] split(s, d)[k][j],
            ),
    decreases s.len(),
{
    if s.len() > 0 {
        lemma_pieces_hold_no_delimiter(s.drop_last(), d);
        lemma_split_has_a_piece(s.drop_last(), d);
        let before = split(s.drop_last(), d);
        let pieces = split(s, d);
        assert forall|k: int, j: int|
            0 <= k < pieces.len() && 0 <= j < pieces[k].len() implies !d.matches(
            #[trigger] pieces[k][j],
        ) by {
            if k < before.len() - 1 {
                assert(pieces[k] == before[k]);
                assert(!d.matches(before[k][j]));
            } else if !d.matches(s.last()) && j < before.last().len() {
                assert(pieces[k][j] == before[before.len() - 1][j]);
            } else if !d.matches(s.last()) {
                assert(pieces[k][j] == s.last());
            } else if k == before.len() - 1 {
                assert(pieces[k] == before[k]);
                assert(!d.matches(before[k][j]));
            }
        }
    }
}

/// A delimiter in the first place cuts off an empty first piece.
pub proof fn lemma_split_after_delimiter(s: Seq<char>, d: Delimiter)
    requires
        s.len() > 0,
        d.matches(s.first()),
    ensures
        split(s, d) == seq![Seq::<char>::empty()] + split(s.drop_first(), d),
    decreases s.len(),
{
    let front = s.drop_last();
    let rest = s.drop_first();
    if front.len() == 0 {
        assert(rest =~= Seq::<char>::empty());
        assert(split(front, d) =~~= seq![Seq::<char>::empty()]);
        assert(split(s, d) =~~= seq![Seq::<char>::empty()] + split(rest, d));
    } else {
        assert(front.first() == s.first());
        lemma_split_after_delimiter(front, d);
        lemma_split_has_a_piece(front.drop_first(), d);
        assert(rest.drop_last() =~= front.drop_first());
        assert(rest.last() == s.last());
        let inner = split(front.drop_first(), d);
        let head = seq![Seq::<char>::empty()];
        if d.matches(s.last()) {
            assert((head + inner).push(Seq::<char>::empty()) =~= head + inner.push(
                Seq::<char>::empty(),
            ));
        } else {
            assert((head + inner).last() == inner.last());
            assert((head + inner).drop_last() =~= head + inner.drop_last());
            assert((head + inner).drop_last().push(inner.last().push(s.last())) =~= head
                + inner.drop_last().push(inner.last().push(s.last())));
        }
    }
}

/// Nothing is left of no pieces.
pub proof fn lemma_no_piece_no_word()
    ensures
        non_empty(Seq::<Seq<char>>::empty()) == Seq::<Seq<char>>::empty(),
{
    reveal(Seq::filter);
}

/// Adding a piece to a sequence of pieces adds it to the non-empty ones
/// exactly when it holds a character.
pub proof fn lemma_non_empty_push(pieces: Seq<Seq<char>>, piece: Seq<char>)
    ensures
        non_empty(pieces.push(piece)) == if piece.len() > 0 {
            non_empty(pieces).push(piece)
        } else {
            non_empty(pieces)
        },
{
    reveal(Seq::filter);
    assert(pieces.push(piece).drop_last() =~= pieces);
}

/// A blank at the end of a text adds no word to it.
pub proof fn lemma_words_before_blank(s: Seq<char>)
    requires
        s.len() > 0,
        is_blank(s.last()),
    ensures
        words(s) == words(s.drop_last()),
{
    lemma_non_empty_push(split(s.drop_last(), Delimiter::Blank), Seq::<char>::empty());
}

/// A blank at the start of a text adds no word to it.
pub proof fn lemma_words_after_blank(s: Seq<char>)
    requires
        s.len() > 0,
        is_blank(s.first()),
    ensures
        words(s) == words(s.drop_first()),
{
    lemma_split_after_delimiter(s, Delimiter::Blank);
    let head = seq![Seq::<char>::empty()];
    let rest = split(s.drop_first(), Delimiter::Blank);
    Seq::filter_distributes_over_add(head, rest, holds_a_char());
    assert(non_empty(head) =~= Seq::<Seq<char>>::empty()) by {
        lemma_no_piece_no_word();
        lemma_non_empty_push(Seq::<Seq<char>>::empty(), Seq::<char>::empty());
        assert(Seq::<Seq<char>>::empty().push(Seq::<char>::empty()) =~= head);
    }
    assert(non_empty(head + rest) =~= non_empty(rest));
}

/// Removing the blanks at the start of a text keeps its words.
pub proof fn lemma_trim_start_keeps_words(s: Seq<char>)
    ensures
        words(trim_start(s)) == words(s),
    decreases s.len(),
{
    if s.len() > 0 && is_blank(s.first()) {
        lemma_words_after_blank(s);
        lemma_trim_start_keeps_words(s.drop_first());
    }
}

/// Removing the blanks at the end of a text keeps its words.
pub proof fn lemma_trim_end_keeps_words(s: Seq<char>)
    ensures
        words(trim_end(s)) == words(s),
    decreases s.len(),
{
    if s.len() > 0 && is_blank(s.last()) {
        lemma_words_before_blank(s);
        lemma_trim_end_keeps_words(s.drop_last());
    }
}

/// Trimming a text keeps its words.
pub proof fn lemma_trim_keeps_words(s: Seq<char>)
    ensures
        words(trim(s)) == words(s),
{
    lemma_trim_start_keeps_words(s);
    lemma_trim_end_keeps_words(trim_start(s));
}

/// A text has no word exactly when it holds nothing but blanks.
pub proof fn lemma_no_word_iff_blank(s: Seq<char>)
    ensures
        words(s).len() == 0 <==> all_blank(s),
    decreases s.len(),
{
    if s.len() == 0 {
        lemma_no_piece_no_word();
        lemma_non_empty_push(Seq::<Seq<char>>::empty(), Seq::<char>::empty());
        assert(Seq::<Seq<char>>::empty().push(Seq::<char>::empty()) =~= split(
            s,
            Delimiter::Blank,
        ));
    } else {
        let front = s.drop_last();
        lemma_no_word_iff_blank(front);
        if is_blank(s.last()) {
            lemma_words_before_blank(s);
            if all_blank(front) {
                assert forall|i: int| 0 <= i < s.len() implies is_blank(#[trigger] s[i]) by {
                    if i < front.len() {
                        assert(front[i] == s[i]);
                    }
                }
            } else {
                let i = choose|i: int| 0 <= i < front.len() && !is_blank(#[trigger] front[i]);
                assert(!is_blank(s[i]));
            }
        } else {
            lemma_split_has_a_piece(front, Delimiter::Blank);
            let before = split(front, Delimiter::Blank);
            lemma_non_empty_push(before.drop_last(), before.last().push(s.last()));
            assert(!is_blank(s[s.len() - 1]));
        }
    }
}

/// What trimming leaves is empty exactly when the text holds nothing but blanks.
pub proof fn lemma_trim_empty_iff_blank(s: Seq<char>)
    ensures
        trim(s).len() == 0 <==> all_blank(s),
{
    lemma_trim_keeps_words(s);
    lemma_no_word_iff_blank(s);
    lemma_no_word_iff_blank(trim(s));
    lemma_trimmed_has_no_blank_end(trim_start(s));
    let t = trim(s);
    if t.len() > 0 {
        assert(!is_blank(t[t.len() - 1]));
    }
}

/// What is left after the blanks at the end are removed does not end with a blank.
pub proof fn lemma_trimmed_has_no_blank_end(s: Seq<char>)
    ensures
        trim_end(s).len() > 0 ==> !is_blank(trim_end(s).last()),
    decreases s.len(),
{
    if s.len() > 0 && is_blank(s.last()) {
        lemma_trimmed_has_no_blank_end(s.drop_last());
    }
}

/// Every word holds at least one character, and no blank.
pub proof fn lemma_words_are_solid(s: Seq<char>)
    ensures
        forall|k: int| 0 <= k < words(s).len() ==> (#[trigger] words(s)[k]).len() > 0,
        forall|k: int, j: int|
            0 <= k < words(s).len() && 0 <= j < words(s)[k].len() ==> !is_blank(
                #[trigger] words(s)[k][j],
            ),
{
    let pieces = split(s, Delimiter::Blank);
    let keep = holds_a_char();
    lemma_pieces_hold_no_delimiter(s, Delimiter::Blank);
    assert forall|k: int| 0 <= k < words(s).len() implies (#[trigger] words(s)[k]).len() > 0 by {
        pieces.lemma_filter_pred(keep, k);
    }
    assert forall|k: int, j: int|
        0 <= k < words(s).len() && 0 <= j < words(s)[k].len() implies !is_blank(
        #[trigger] words(s)[k][j],
    ) by {
        pieces.lemma_filter_contains_rev(keep, words(s)[k]);
        let i = choose|i: int| 0 <= i < pieces.len() && pieces[i] == words(s)[k];
        assert(!Delimiter::Blank.matches(pieces[i][j]));
    }
}

} // verus!
