//! Command words: joining them, and the names they spell.

use vstd::prelude::*;

use crate::bytes::{append, copied, views};

verus! {

/// `ws` with one space between neighbours.
pub open spec fn spaced(ws: Seq<Seq<u8>>) -> Seq<u8>
    decreases ws.len(),
{
    if ws.len() == 0 {
        Seq::empty()
    } else if ws.len() == 1 {
        ws[0]
    } else {
        spaced(ws.drop_last()).push(32u8) + ws.last()
    }
}

/// Joins words with single spaces: the script that several arguments make up.
pub fn join_words(args: &[Vec<u8>]) -> (r: Vec<u8>)
    ensures
        r@ == spaced(views(args@)),
{
    let mut out: Vec<u8> = Vec::new();
    let mut i: usize = 0;
    assert(out@ =~= spaced(views(args@).take(0)));
    while i < args.len()
        invariant
            i <= args@.len(),
            out@ == spaced(views(args@).take(i as int)),
        decreases args@.len() - i,
    {
        if i > 0 {
            out.push(32);
        }
        append(&mut out, &args[i]);
        proof {
            let ws = views(args@);
            assert(ws.take(i + 1).drop_last() =~= ws.take(i as int));
            if i == 0 {
                assert(out@ =~= ws[0]);
            }
        }
        i = i + 1;
    }
    assert(views(args@).take(i as int) =~= views(args@));
    out
}

/// Builds an error code from its elements, each spelled as a list element.
pub fn error_code_list(elements: &[Vec<u8>]) -> (r: Vec<u8>)
    ensures
        r@ == spaced(views(elements@)),
{
    join_words(elements)
}

/// The word a call was written with, empty for a call of no words.
pub open spec fn first_word(argv: Seq<Vec<u8>>) -> Seq<u8> {
    if argv.len() == 0 {
        Seq::empty()
    } else {
        argv[0]@
    }
}

/// The word a call was written with.
pub fn invoked_word(argv: &[Vec<u8>]) -> (r: Vec<u8>)
    ensures
        r@ == first_word(argv@),
{
    if argv.len() == 0 {
        Vec::new()
    } else {
        copied(&argv[0])
    }
}

/// Whether byte `i` of `s` is a colon.
pub open spec fn colon_at(s: Seq<u8>, i: int) -> bool {
    0 <= i < s.len() && s[i] == 58u8
}

/// `s` without the colons that follow two colons.
pub open spec fn collapsed(s: Seq<u8>) -> Seq<u8>
    decreases s.len(),
{
    if s.len() == 0 {
        s
    } else {
        let n = s.len() - 1;
        if colon_at(s, n) && colon_at(s, n - 1) && colon_at(s, n - 2) {
            collapsed(s.drop_last())
        } else {
            collapsed(s.drop_last()).push(s.last())
        }
    }
}

/// Whether `s` holds three colons in a row.
pub open spec fn has_colon_run(s: Seq<u8>) -> bool {
    exists|i: int| #[trigger] colon_at(s, i) && colon_at(s, i + 1) && colon_at(s, i + 2)
}

/// Collapses every run of more than two colons to the separator `::`. A lone
/// colon is a legal character of a name and stays.
pub fn normalize_colons(name: &[u8]) -> (r: Vec<u8>)
    ensures
        r@ == collapsed(name@),
{
    let mut out: Vec<u8> = Vec::new();
    let mut i: usize = 0;
    assert(out@ =~= collapsed(name@.take(0)));
    while i < name.len()
        invariant
            i <= name@.len(),
            out@ == collapsed(name@.take(i as int)),
        decreases name@.len() - i,
    {
        assert(name@.take(i + 1).drop_last() =~= name@.take(i as int));
        let third = name[i] == 58 && i >= 2 && name[i - 1] == 58 && name[i - 2] == 58;
        if !third {
            out.push(name[i]);
        }
        i = i + 1;
    }
    assert(name@.take(i as int) =~= name@);
    out
}

spec fn trailing_colons(s: Seq<u8>) -> int {
    if !colon_at(s, s.len() - 1) {
        0
    } else if !colon_at(s, s.len() - 2) {
        1
    } else {
        2
    }
}

proof fn collapsed_shape(s: Seq<u8>)
    ensures
        trailing_colons(collapsed(s)) == trailing_colons(s),
        !has_colon_run(collapsed(s)),
    decreases s.len(),
{
    if s.len() > 0 {
        let t = s.drop_last();
        collapsed_shape(t);
        let n = s.len() - 1;
        assert(colon_at(t, n - 1) == colon_at(s, n - 1));
        assert(colon_at(t, n - 2) == colon_at(s, n - 2));
        if !(colon_at(s, n) && colon_at(s, n - 1) && colon_at(s, n - 2)) {
            let c = collapsed(t);
            let d = c.push(s.last());
            assert(d == collapsed(s));
            assert(colon_at(d, d.len() - 2) == colon_at(c, c.len() - 1));
            assert forall|i: int| #[trigger] colon_at(d, i) && colon_at(d, i + 1) implies !colon_at(
                d,
                i + 2,
            ) by {
                if i + 2 < c.len() {
                    assert(colon_at(c, i) && colon_at(c, i + 1));
                } else if i + 2 == c.len() {
                    assert(colon_at(c, c.len() - 1) && colon_at(c, c.len() - 2));
                }
            }
        }
    }
}

/// A normalized name holds no run of three colons.
pub proof fn collapsed_has_no_run(s: Seq<u8>)
    ensures
        !has_colon_run(collapsed(s)),
{
    collapsed_shape(s);
}

/// A name without a run of three colons is normalized already.
pub proof fn collapsed_keeps_names(s: Seq<u8>)
    requires
        !has_colon_run(s),
    ensures
        collapsed(s) == s,
    decreases s.len(),
{
    if s.len() > 0 {
        let t = s.drop_last();
        let n = s.len() - 1;
        assert forall|i: int| #[trigger] colon_at(t, i) && colon_at(t, i + 1) implies !colon_at(
            t,
            i + 2,
        ) by {
            assert(colon_at(s, i));
        }
        collapsed_keeps_names(t);
        if colon_at(s, n - 2) {
            assert(!(colon_at(s, n - 2 + 1) && colon_at(s, n - 2 + 2)));
        }
        assert(t.push(s.last()) =~= s);
    }
}

/// Normalizing twice is normalizing once.
pub proof fn collapsed_twice(s: Seq<u8>)
    ensures
        collapsed(collapsed(s)) == collapsed(s),
{
    collapsed_has_no_run(s);
    collapsed_keeps_names(collapsed(s));
}

/// The words of `a` and then of `b` are spaced as `a` is, a space, and as `b`
/// is. One word is itself, and no word is nothing.
pub proof fn spaced_joins_at_a_space(a: Seq<Seq<u8>>, b: Seq<Seq<u8>>, w: Seq<u8>)
    ensures
        a.len() > 0 && b.len() > 0 ==> spaced(a + b) == spaced(a) + seq![32u8] + spaced(b),
        spaced(seq![w]) == w,
        spaced(Seq::empty()) == Seq::<u8>::empty(),
    decreases b.len(),
{
    if a.len() > 0 && b.len() > 0 {
        let all = a + b;
        assert(all.drop_last() =~= a + b.drop_last());
        if b.len() == 1 {
            assert(all.drop_last() =~= a);
            assert(spaced(all) =~= spaced(a) + seq![32u8] + spaced(b));
        } else {
            spaced_joins_at_a_space(a, b.drop_last(), w);
            assert(spaced(all) =~= spaced(a) + seq![32u8] + spaced(b));
        }
    }
}

/// Names that do not meet in a colon are normalized on their own, so a name is
/// changed only where its colons are.
pub proof fn collapsed_works_piece_by_piece(a: Seq<u8>, b: Seq<u8>)
    requires
        !colon_at(a, a.len() - 1) || !colon_at(b, 0),
    ensures
        collapsed(a + b) == collapsed(a) + collapsed(b),
    decreases b.len(),
{
    if b.len() == 0 {
        assert(a + b =~= a);
        assert(collapsed(a) + collapsed(b) =~= collapsed(a));
    } else {
        let all = a + b;
        let n = all.len() - 1;
        assert(all.drop_last() =~= a + b.drop_last());
        assert(colon_at(b.drop_last(), 0) ==> colon_at(b, 0));
        collapsed_works_piece_by_piece(a, b.drop_last());
        let k = b.len() - 1;
        assert(all[n] == b[k]);
        if k >= 1 {
            assert(all[n - 1] == b[k - 1]);
        }
        if k >= 2 {
            assert(all[n - 2] == b[k - 2]);
        }
        assert(collapsed(a) + collapsed(b.drop_last()).push(b.last()) =~= (collapsed(a)
            + collapsed(b.drop_last())).push(b.last()));
    }
}

/// A run of two or more colons becomes two, and a single colon stays.
pub proof fn a_run_of_colons_becomes_two(n: nat)
    ensures
        collapsed(Seq::new(n, |i: int| 58u8)) == Seq::new(
            if n < 2 {
                n
            } else {
                2
            },
            |i: int| 58u8,
        ),
    decreases n,
{
    let s = Seq::new(n, |i: int| 58u8);
    if n > 0 {
        let m = (n - 1) as nat;
        assert(s.drop_last() =~= Seq::new(m, |i: int| 58u8));
        a_run_of_colons_becomes_two(m);
        if n <= 2 {
            assert(Seq::new(m, |i: int| 58u8).push(58u8) =~= s);
        }
    }
}

/// The first word of a call is the one it begins with.
pub proof fn the_first_word_begins_the_call(argv: Seq<Vec<u8>>)
    ensures
        argv.len() > 0 ==> first_word(argv) == argv[0]@,
        argv.len() == 0 ==> first_word(argv) == Seq::<u8>::empty(),
{
}

} // verus!
