//! Searching in text: where a piece of text occurs in another, and what
//! follows from that: replacing it and splitting at it.

use vstd::prelude::*;
use crate::text::push_char;
use crate::value::{texts_view, texts_view_push};

verus! {

/// Whether `needle` stands in `text` at the index `at`.
pub open spec fn occurs_at(text: Seq<char>, needle: Seq<char>, at: int) -> bool {
    0 <= at && at + needle.len() <= text.len() && text.subrange(at, at + needle.len()) == needle
}

/// The first index at or after `from` at which `needle` stands in `text`.
pub open spec fn first_occurrence(text: Seq<char>, needle: Seq<char>, from: int) -> Option<int>
    decreases text.len() - from + 1,
{
    if from < 0 || from + needle.len() > text.len() {
        None
    } else if occurs_at(text, needle, from) {
        Some(from)
    } else {
        first_occurrence(text, needle, from + 1)
    }
}

/// `text` from the index `from` on, with every occurrence of `needle`
/// replaced by `with`: the occurrences are found from left to right and do
/// not overlap. An empty `needle` occurs before every character and at the
/// end.
pub open spec fn replaced_from(text: Seq<char>, needle: Seq<char>, with: Seq<char>, from: int) -> Seq<
    char,
>
    decreases text.len() - from,
{
    if from < 0 || from >= text.len() {
        if needle.len() == 0 {
            with
        } else {
            Seq::empty()
        }
    } else if needle.len() == 0 {
        (with + seq![text[from]]) + replaced_from(text, needle, with, from + 1)
    } else if occurs_at(text, needle, from) {
        with + replaced_from(text, needle, with, from + needle.len())
    } else {
        seq![text[from]] + replaced_from(text, needle, with, from + 1)
    }
}

/// `text` with every occurrence of `needle` replaced by `with`.
pub open spec fn replaced(text: Seq<char>, needle: Seq<char>, with: Seq<char>) -> Seq<char> {
    replaced_from(text, needle, with, 0)
}

/// The pieces of `text` from the index `from` on that lie between the
/// occurrences of `separator`, which is not empty; `piece` is the start of
/// the first of them, read before `from`.
pub open spec fn split_from(text: Seq<char>, separator: Seq<char>, from: int, piece: Seq<char>) -> Seq<
    Seq<char>,
>
    decreases text.len() - from,
{
    if from < 0 || from >= text.len() || separator.len() == 0 {
        seq![piece]
    } else if occurs_at(text, separator, from) {
        seq![piece] + split_from(text, separator, from + separator.len(), Seq::empty())
    } else {
        split_from(text, separator, from + 1, piece.push(text[from]))
    }
}

/// The pieces of `text` that lie between the occurrences of `separator`. An
/// empty separator splits before every character and at both ends: the
/// pieces are an empty one, every character by itself, and an empty one.
pub open spec fn split(text: Seq<char>, separator: Seq<char>) -> Seq<Seq<char>> {
    if separator.len() == 0 {
        seq![Seq::empty()] + Seq::new(text.len(), |i: int| seq![text[i]]) + seq![Seq::empty()]
    } else {
        split_from(text, separator, 0, Seq::empty())
    }
}

/// Whether `needle` stands in `text` at the index `at`.
pub fn matches_at(text: &Vec<char>, needle: &Vec<char>, at: usize) -> (r: bool)
    ensures
        r == occurs_at(text@, needle@, at as int),
{
    if needle.len() > text.len() || at > text.len() - needle.len() {
        return false;
    }
    let mut i: usize = 0;
    while i < needle.len()
        invariant
            i <= needle.len(),
            at + needle.len() <= text.len(),
            forall|j: int| 0 <= j < i ==> text@[at + j] == needle@[j],
        decreases needle.len() - i,
    {
        if text[at + i] != needle[i] {
            assert(text@.subrange(at as int, at + needle.len())[i as int] != needle@[i as int]);
            return false;
        }
        i += 1;
    }
    assert(text@.subrange(at as int, at + needle.len()) =~= needle@);
    true
}

/// The first index at which `needle` stands in `text`.
pub fn find_in(text: &Vec<char>, needle: &Vec<char>) -> (r: Option<usize>)
    ensures
        match r {
            Some(i) => first_occurrence(text@, needle@, 0) == Some(i as int),
            None => first_occurrence(text@, needle@, 0) is None,
        },
{
    if needle.len() > text.len() {
        return None;
    }
    let last = text.len() - needle.len();
    let mut i: usize = 0;
    loop
        invariant
            i <= last,
            last == text.len() - needle.len(),
            first_occurrence(text@, needle@, 0) == first_occurrence(text@, needle@, i as int),
        decreases last - i,
    {
        if matches_at(text, needle, i) {
            return Some(i);
        }
        if i == last {
            assert(first_occurrence(text@, needle@, i + 1) is None);
            return None;
        }
        i += 1;
    }
}

fn push_all(out: &mut String, chars: &Vec<char>)
    ensures
        final(out)@ == old(out)@ + chars@,
{
    let mut i: usize = 0;
    while i < chars.len()
        invariant
            i <= chars.len(),
            out@ == old(out)@ + chars@.take(i as int),
        decreases chars.len() - i,
    {
        push_char(out, chars[i]);
        assert(chars@.take(i as int + 1) =~= chars@.take(i as int).push(chars@[i as int]));
        assert((old(out)@ + chars@.take(i as int)).push(chars@[i as int]) =~= old(out)@
            + chars@.take(i as int + 1));
        i += 1;
    }
    assert(chars@.take(chars.len() as int) =~= chars@);
}

/// One step of replacing: what stands at `from` on, given what stands after
/// the step.
proof fn replaced_unfold(text: Seq<char>, needle: Seq<char>, with: Seq<char>, from: int)
    requires
        0 <= from < text.len(),
    ensures
        needle.len() == 0 ==> replaced_from(text, needle, with, from) == (with + seq![text[from]])
            + replaced_from(text, needle, with, from + 1),
        needle.len() > 0 && occurs_at(text, needle, from) ==> replaced_from(
            text,
            needle,
            with,
            from,
        ) == with + replaced_from(text, needle, with, from + needle.len()),
        needle.len() > 0 && !occurs_at(text, needle, from) ==> replaced_from(
            text,
            needle,
            with,
            from,
        ) == seq![text[from]] + replaced_from(text, needle, with, from + 1),
{
}

/// `text` with every occurrence of `needle` replaced by `with`.
pub fn replace_in(text: &Vec<char>, needle: &Vec<char>, with: &Vec<char>) -> (r: String)
    ensures
        r@ == replaced(text@, needle@, with@),
{
    let mut out = String::new();
    let mut i: usize = 0;
    while i < text.len()
        invariant
            i <= text.len(),
            replaced(text@, needle@, with@) == out@ + replaced_from(
                text@,
                needle@,
                with@,
                i as int,
            ),
        decreases text.len() - i,
    {
        let ghost before = out@;
        proof {
            replaced_unfold(text@, needle@, with@, i as int);
        }
        if needle.len() == 0 {
            push_all(&mut out, with);
            push_char(&mut out, text[i]);
            assert(out@ + replaced_from(text@, needle@, with@, i + 1) =~= before + ((with@
                + seq![text@[i as int]]) + replaced_from(text@, needle@, with@, i + 1)));
            i += 1;
        } else if matches_at(text, needle, i) {
            push_all(&mut out, with);
            assert(out@ + replaced_from(text@, needle@, with@, i + needle.len()) =~= before + (
            with@ + replaced_from(text@, needle@, with@, i + needle.len())));
            i += needle.len();
        } else {
            push_char(&mut out, text[i]);
            assert(out@ + replaced_from(text@, needle@, with@, i + 1) =~= before + (
            seq![text@[i as int]] + replaced_from(text@, needle@, with@, i + 1)));
            i += 1;
        }
    }
    if needle.len() == 0 {
        push_all(&mut out, with);
    } else {
        assert(out@ + Seq::<char>::empty() =~= out@);
    }
    out
}

/// The pieces of `text` that lie between the occurrences of `separator`.
pub fn split_in(text: &Vec<char>, separator: &Vec<char>) -> (r: Vec<String>)
    ensures
        texts_view(r@) == split(text@, separator@),
{
    let mut pieces: Vec<String> = Vec::new();
    if separator.len() == 0 {
        pieces.push(String::new());
        let mut i: usize = 0;
        while i < text.len()
            invariant
                i <= text.len(),
                pieces.len() == i + 1,
                pieces@[0]@ == Seq::<char>::empty(),
                forall|j: int| 0 <= j < i ==> pieces@[j + 1]@ == seq![text@[j]],
            decreases text.len() - i,
        {
            let mut one = String::new();
            push_char(&mut one, text[i]);
            assert(one@ =~= seq![text@[i as int]]);
            pieces.push(one);
            i += 1;
        }
        pieces.push(String::new());
        assert(texts_view(pieces@) =~= split(text@, separator@));
        return pieces;
    }
    assert(texts_view(pieces@) =~= Seq::empty());
    let mut piece = String::new();
    let mut i: usize = 0;
    while i < text.len()
        invariant
            i <= text.len(),
            separator.len() > 0,
            split(text@, separator@) == texts_view(pieces@) + split_from(
                text@,
                separator@,
                i as int,
                piece@,
            ),
        decreases text.len() - i,
    {
        if matches_at(text, separator, i) {
            proof {
                texts_view_push(pieces@, piece);
                assert(texts_view(pieces@).push(piece@) + split_from(
                    text@,
                    separator@,
                    i + separator.len(),
                    Seq::empty(),
                ) =~= texts_view(pieces@) + (seq![piece@] + split_from(
                    text@,
                    separator@,
                    i + separator.len(),
                    Seq::empty(),
                )));
            }
            pieces.push(piece);
            piece = String::new();
            i += separator.len();
        } else {
            push_char(&mut piece, text[i]);
            i += 1;
        }
    }
    proof {
        texts_view_push(pieces@, piece);
        assert(texts_view(pieces@).push(piece@) =~= texts_view(pieces@) + seq![piece@]);
    }
    pieces.push(piece);
    pieces
}

/// The text of one character.
pub fn one_char(c: char) -> (r: String)
    ensures
        r@ == seq![c],
{
    let mut r = String::new();
    push_char(&mut r, c);
    assert(r@ =~= seq![c]);
    r
}

} // verus!
