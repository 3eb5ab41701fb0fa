//! Source lines: newline counts and the line an offset lies on.

use vstd::prelude::*;

use crate::number::utf8_str;

verus! {

/// How many newlines `s` holds.
pub open spec fn newlines(s: Seq<u8>) -> nat
    decreases s.len(),
{
    if s.len() == 0 {
        0
    } else {
        newlines(s.drop_last()) + if s.last() == 10u8 {
            1nat
        } else {
            0nat
        }
    }
}

/// `s` up to byte `offset`, or all of `s` where it is shorter.
pub open spec fn upto(s: Seq<u8>, offset: int) -> Seq<u8> {
    if offset < s.len() {
        s.take(offset)
    } else {
        s
    }
}

/// The 1-based line that byte `offset` of `src` lies on.
pub open spec fn line_at(src: Seq<u8>, offset: int) -> int {
    1 + newlines(upto(src, offset)) as int
}

/// A newline is one byte, so a text holds no more of them than bytes.
pub proof fn newlines_bound(s: Seq<u8>)
    ensures
        newlines(s) <= s.len(),
    decreases s.len(),
{
    if s.len() > 0 {
        newlines_bound(s.drop_last());
    }
}

/// The newlines of a text are those of its two halves.
pub proof fn newlines_concat(a: Seq<u8>, b: Seq<u8>)
    ensures
        newlines(a + b) == newlines(a) + newlines(b),
    decreases b.len(),
{
    if b.len() == 0 {
        assert(a + b =~= a);
    } else {
        newlines_concat(a, b.drop_last());
        assert((a + b).drop_last() =~= a + b.drop_last());
    }
}

/// Lines start at 1 and never go back as the offset grows; the distance between
/// two offsets is the newlines between them.
pub proof fn line_at_grows(src: Seq<u8>, from: int, to: int)
    requires
        0 <= from <= to <= src.len(),
    ensures
        1 <= line_at(src, from) <= line_at(src, to),
        line_at(src, to) == line_at(src, from) + newlines(src.subrange(from, to)),
{
    assert(upto(src, to) =~= src.take(to));
    assert(upto(src, from) =~= src.take(from));
    assert(src.take(to) =~= src.take(from) + src.subrange(from, to));
    newlines_concat(src.take(from), src.subrange(from, to));
}

/// Counts the newlines of `s`: the line distance between two source offsets.
pub fn count_newlines(s: &[u8]) -> (n: u32)
    requires
        newlines(s@) <= u32::MAX,
    ensures
        n == newlines(s@),
{
    let mut n: u32 = 0;
    let mut i: usize = 0;
    while i < s.len()
        invariant
            i <= s@.len(),
            n == newlines(s@.take(i as int)),
            newlines(s@) <= u32::MAX,
        decreases s@.len() - i,
    {
        assert(s@.take(i + 1).drop_last() =~= s@.take(i as int));
        proof {
            newlines_concat(s@.take(i + 1), s@.skip(i + 1));
            assert(s@.take(i + 1) + s@.skip(i + 1) =~= s@);
        }
        if s[i] == 10 {
            n = n + 1;
        }
        i = i + 1;
    }
    assert(s@.take(i as int) =~= s@);
    n
}

/// The 1-based source line of byte `offset` in `src`.
pub fn line_of(src: &[u8], offset: usize) -> (line: u32)
    requires
        line_at(src@, offset as int) <= u32::MAX,
    ensures
        line == line_at(src@, offset as int),
{
    let end: usize = if offset < src.len() {
        offset
    } else {
        src.len()
    };
    let ghost part = upto(src@, offset as int);
    assert(part =~= src@.take(end as int));
    let mut n: u32 = 0;
    let mut i: usize = 0;
    while i < end
        invariant
            i <= end <= src@.len(),
            part == src@.take(end as int),
            n == newlines(src@.take(i as int)),
            newlines(part) < u32::MAX,
        decreases end - i,
    {
        assert(src@.take(i + 1).drop_last() =~= src@.take(i as int));
        proof {
            newlines_concat(src@.take(i + 1), src@.subrange(i + 1, end as int));
            assert(src@.take(i + 1) + src@.subrange(i + 1, end as int) =~= part);
        }
        if src[i] == 10 {
            n = n + 1;
        }
        i = i + 1;
    }
    1 + n
}

/// One element of a list literal as the list facility finds it.
#[derive(Clone, Copy, PartialEq, Eq, Structural)]
pub struct ListElement {
    /// Where the element's value begins in the literal.
    pub start: usize,
    /// Whether the element is spelled without substitution.
    pub literal: bool,
}

/// What [`scan_list_offsets`] says of one element: the newlines before it, and
/// whether it is literal.
#[derive(Clone, Copy, PartialEq, Eq, Structural)]
pub struct ElementOffset {
    pub newlines: u32,
    pub literal: bool,
}

/// For each element of the list literal `src`, the newlines before it and
/// whether it is literal; `None` where `src` is not UTF-8 or not a well-formed
/// list. `elements` is what the list facility finds in `src`, `None` where it is
/// no list.
pub fn scan_list_offsets(src: &[u8], elements: &Option<Vec<ListElement>>) -> (r: Option<
    Vec<ElementOffset>,
>)
    requires
        newlines(src@) <= u32::MAX,
    ensures
        r is Some == (vstd::utf8::valid_utf8(src@) && elements is Some),
        r matches Some(out) ==> {
            &&& out@.len() == elements->0@.len()
            &&& forall|i: int|
                0 <= i < out@.len() ==> {
                    &&& (#[trigger] out@[i]).newlines == newlines(
                        upto(src@, elements->0@[i].start as int),
                    )
                    &&& out@[i].literal == elements->0@[i].literal
                }
        },
{
    if utf8_str(src).is_none() {
        return None;
    }
    match elements {
        None => None,
        Some(es) => {
            let mut out: Vec<ElementOffset> = Vec::new();
            let mut i: usize = 0;
            while i < es.len()
                invariant
                    i <= es@.len(),
                    newlines(src@) <= u32::MAX,
                    out@.len() == i,
                    forall|j: int|
                        0 <= j < i ==> {
                            &&& (#[trigger] out@[j]).newlines == newlines(
                                upto(src@, es@[j].start as int),
                            )
                            &&& out@[j].literal == es@[j].literal
                        },
                decreases es@.len() - i,
            {
                let start = es[i].start;
                let part: &[u8] = if start < src.len() {
                    vstd::slice::slice_subrange(src, 0, start)
                } else {
                    src
                };
                proof {
                    assert(part@ =~= upto(src@, start as int));
                    newlines_concat(part@, src@.skip(part@.len() as int));
                    assert(part@ + src@.skip(part@.len() as int) =~= src@);
                }
                out.push(
                    ElementOffset { newlines: count_newlines(part), literal: es[i].literal },
                );
                i = i + 1;
            }
            Some(out)
        },
    }
}

/// The first byte of a text lies on line one, and each newline begins another
/// line behind it.
pub proof fn a_newline_begins_another_line(src: Seq<u8>, at: int)
    requires
        0 <= at < src.len(),
    ensures
        line_at(src, 0) == 1,
        src[at] == 10u8 ==> line_at(src, at + 1) == line_at(src, at) + 1,
        src[at] != 10u8 ==> line_at(src, at + 1) == line_at(src, at),
{
    assert(upto(src, 0) =~= Seq::<u8>::empty());
    assert(upto(src, at + 1) =~= src.take(at + 1));
    assert(src.take(at + 1).drop_last() =~= src.take(at));
}

} // verus!
