//! Byte strings in order, and sorted lists of them.

use vstd::prelude::*;

use crate::bytes::{copied, views};

verus! {

/// Whether `a` comes before `b`, byte by byte.
pub open spec fn precedes(a: Seq<u8>, b: Seq<u8>) -> bool
    decreases a.len(),
{
    if b.len() == 0 {
        false
    } else if a.len() == 0 {
        true
    } else if a[0] != b[0] {
        a[0] < b[0]
    } else {
        precedes(a.skip(1), b.skip(1))
    }
}

/// Whether `ws` is in ascending order with nothing twice.
pub open spec fn ascending(ws: Seq<Seq<u8>>) -> bool {
    forall|i: int, j: int| 0 <= i < j < ws.len() ==> precedes(#[trigger] ws[i], #[trigger] ws[j])
}

/// Nothing comes before itself.
pub proof fn precedes_irreflexive(a: Seq<u8>)
    ensures
        !precedes(a, a),
    decreases a.len(),
{
    if a.len() > 0 {
        precedes_irreflexive(a.skip(1));
    }
}

/// The order is transitive.
pub proof fn precedes_transitive(a: Seq<u8>, b: Seq<u8>, c: Seq<u8>)
    requires
        precedes(a, b),
        precedes(b, c),
    ensures
        precedes(a, c),
    decreases a.len(),
{
    if a.len() > 0 && b.len() > 0 && c.len() > 0 && a[0] == b[0] && b[0] == c[0] {
        precedes_transitive(a.skip(1), b.skip(1), c.skip(1));
    }
}

/// Of two different byte strings one comes before the other.
pub proof fn precedes_total(a: Seq<u8>, b: Seq<u8>)
    ensures
        a == b || precedes(a, b) || precedes(b, a),
    decreases a.len(),
{
    if a.len() == 0 || b.len() == 0 {
        if a.len() == b.len() {
            assert(a =~= b);
        }
    } else if a[0] == b[0] {
        precedes_total(a.skip(1), b.skip(1));
        if a.skip(1) == b.skip(1) {
            assert(a =~= seq![a[0]] + a.skip(1));
            assert(b =~= seq![b[0]] + b.skip(1));
        }
    }
}

/// Where one byte string stands to another.
#[derive(Debug, Clone, Copy, PartialEq, Eq, Structural)]
pub enum Rank {
    Before,
    Same,
    After,
}

/// Ranks `a` against `b`.
pub fn rank(a: &[u8], b: &[u8]) -> (r: Rank)
    ensures
        r == Rank::Before <==> precedes(a@, b@),
        r == Rank::Same <==> a@ == b@,
        r == Rank::After <==> precedes(b@, a@),
{
    let mut i: usize = 0;
    assert(a@.skip(0) =~= a@);
    assert(b@.skip(0) =~= b@);
    while i < a.len() && i < b.len()
        invariant
            i <= a@.len(),
            i <= b@.len(),
            a@.take(i as int) == b@.take(i as int),
            precedes(a@, b@) == precedes(a@.skip(i as int), b@.skip(i as int)),
            precedes(b@, a@) == precedes(b@.skip(i as int), a@.skip(i as int)),
        decreases a@.len() - i,
    {
        if a[i] < b[i] {
            assert(a@[i as int] != b@[i as int]);
            return Rank::Before;
        }
        if a[i] > b[i] {
            assert(a@[i as int] != b@[i as int]);
            return Rank::After;
        }
        assert(a@.skip(i as int).skip(1) =~= a@.skip(i + 1));
        assert(b@.skip(i as int).skip(1) =~= b@.skip(i + 1));
        assert(a@.take(i + 1) =~= a@.take(i as int).push(a@[i as int]));
        assert(b@.take(i + 1) =~= b@.take(i as int).push(b@[i as int]));
        i = i + 1;
    }
    if a.len() == b.len() {
        assert(a@.take(i as int) =~= a@);
        assert(b@.take(i as int) =~= b@);
        proof {
            precedes_irreflexive(a@);
        }
        Rank::Same
    } else if a.len() < b.len() {
        Rank::Before
    } else {
        Rank::After
    }
}

/// Where `w` stands in `ws`, or would stand.
pub enum Place {
    Found(usize),
    Missing(usize),
}

/// Finds the place of `w`.
pub fn place_of(ws: &[Vec<u8>], w: &[u8]) -> (r: Place)
    requires
        ascending(views(ws@)),
    ensures
        match r {
            Place::Found(i) => i < ws@.len() && ws@[i as int]@ == w@,
            Place::Missing(i) => {
                &&& i <= ws@.len()
                &&& !views(ws@).contains(w@)
                &&& forall|j: int| 0 <= j < i ==> precedes(#[trigger] views(ws@)[j], w@)
                &&& i < ws@.len() ==> precedes(w@, ws@[i as int]@)
            },
        },
{
    let ghost all = views(ws@);
    let mut i: usize = 0;
    while i < ws.len()
        invariant
            i <= ws@.len(),
            all == views(ws@),
            ascending(all),
            forall|j: int| 0 <= j < i ==> precedes(#[trigger] all[j], w@),
        decreases ws@.len() - i,
    {
        match rank(&ws[i], w) {
            Rank::Before => {},
            Rank::Same => {
                return Place::Found(i);
            },
            Rank::After => {
                proof {
                    absent(all, w@, i as int);
                }
                return Place::Missing(i);
            },
        }
        i = i + 1;
    }
    proof {
        absent(all, w@, i as int);
    }
    Place::Missing(i)
}

/// A word with smaller ones before position `i` and a greater one there is not
/// in an ascending list.
pub proof fn absent(all: Seq<Seq<u8>>, w: Seq<u8>, i: int)
    requires
        ascending(all),
        0 <= i <= all.len(),
        forall|j: int| 0 <= j < i ==> precedes(#[trigger] all[j], w),
        i < all.len() ==> precedes(w, all[i]),
    ensures
        !all.contains(w),
        forall|j: int| i <= j < all.len() ==> precedes(w, #[trigger] all[j]),
{
    precedes_irreflexive(w);
    assert forall|j: int| i <= j < all.len() implies precedes(w, #[trigger] all[j]) by {
        if j > i {
            precedes_transitive(w, all[i], all[j]);
        }
    }
}

/// Puts `w` in its place, unless it is there.
pub fn insert_word(ws: &mut Vec<Vec<u8>>, w: &[u8])
    requires
        ascending(views(old(ws)@)),
    ensures
        ascending(views(final(ws)@)),
        forall|v: Seq<u8>|
            #[trigger] views(final(ws)@).contains(v) <==> views(old(ws)@).contains(v) || v == w@,
{
    let ghost start = views(ws@);
    let i: usize = match place_of(ws, w) {
        Place::Found(k) => {
            assert(start[k as int] == w@);
            return;
        },
        Place::Missing(k) => k,
    };
    let w2 = copied(w);
    ws.insert(i, w2);
    proof {
        let out = views(ws@);
        assert(out =~= start.insert(i as int, w@));
        if i < start.len() {
            assert(precedes(w@, start[i as int]));
        }
        assert forall|a: int, b: int| 0 <= a < b < out.len() implies precedes(
            #[trigger] out[a],
            #[trigger] out[b],
        ) by {
            if a == i {
                if b - 1 > i {
                    precedes_transitive(w@, start[i as int], start[b - 1]);
                }
            } else if a < i && b > i {
                assert(precedes(start[a], start[b - 1]));
            } else if a > i {
                assert(precedes(start[a - 1], start[b - 1]));
            }
        }
        assert forall|v: Seq<u8>| #[trigger] out.contains(v) <==> start.contains(v) || v == w@ by {
            if start.contains(v) {
                let k = choose|k: int| 0 <= k < start.len() && start[k] == v;
                if k < i {
                    assert(out[k] == v);
                } else {
                    assert(out[k + 1] == v);
                }
            }
            assert(out[i as int] == w@);
            if out.contains(v) && v != w@ {
                let k = choose|k: int| 0 <= k < out.len() && out[k] == v;
                if k < i {
                    assert(start[k] == v);
                } else {
                    assert(start[k - 1] == v);
                }
            }
        }
    }
}

/// The words of `ws` in ascending order, each once.
pub fn sorted_words(ws: &[Vec<u8>]) -> (r: Vec<Vec<u8>>)
    ensures
        ascending(views(r@)),
        forall|v: Seq<u8>| #[trigger] views(r@).contains(v) <==> views(ws@).contains(v),
{
    let mut out: Vec<Vec<u8>> = Vec::new();
    let mut i: usize = 0;
    while i < ws.len()
        invariant
            i <= ws@.len(),
            ascending(views(out@)),
            forall|v: Seq<u8>| #[trigger]
                views(out@).contains(v) <==> views(ws@).take(i as int).contains(v),
        decreases ws@.len() - i,
    {
        insert_word(&mut out, &ws[i]);
        proof {
            let all = views(ws@);
            assert forall|v: Seq<u8>| #[trigger]
                views(out@).contains(v) <==> all.take(i + 1).contains(v) by {
                assert(all.take(i + 1)[i as int] == ws@[i as int]@);
                if all.take(i as int).contains(v) {
                    let k = choose|k: int|
                        0 <= k < all.take(i as int).len() && all.take(i as int)[k] == v;
                    assert(all.take(i + 1)[k] == v);
                }
                if all.take(i + 1).contains(v) && v != ws@[i as int]@ {
                    let next = all.take(i + 1);
                    let k = choose|k: int| 0 <= k < next.len() && next[k] == v;
                    assert(all.take(i as int)[k] == v);
                }
            }
        }
        i = i + 1;
    }
    assert(views(ws@).take(i as int) =~= views(ws@));
    out
}

proof fn ascending_tail(a: Seq<Seq<u8>>)
    requires
        ascending(a),
        a.len() > 0,
    ensures
        ascending(a.skip(1)),
        forall|v: Seq<u8>| #[trigger] a.skip(1).contains(v) <==> a.contains(v) && v != a[0],
{
    let t = a.skip(1);
    assert forall|i: int, j: int| 0 <= i < j < t.len() implies precedes(
        #[trigger] t[i],
        #[trigger] t[j],
    ) by {
        assert(precedes(a[i + 1], a[j + 1]));
    }
    assert forall|v: Seq<u8>| #[trigger] t.contains(v) <==> a.contains(v) && v != a[0] by {
        if t.contains(v) {
            let k = choose|k: int| 0 <= k < t.len() && t[k] == v;
            assert(a[k + 1] == v);
            assert(precedes(a[0], a[k + 1]));
            precedes_irreflexive(a[0]);
        }
        if a.contains(v) && v != a[0] {
            let k = choose|k: int| 0 <= k < a.len() && a[k] == v;
            assert(t[k - 1] == v);
        }
    }
}

/// An ascending list is determined by what it holds.
pub proof fn ascending_is_its_contents(a: Seq<Seq<u8>>, b: Seq<Seq<u8>>)
    requires
        ascending(a),
        ascending(b),
        forall|v: Seq<u8>| #[trigger] a.contains(v) <==> b.contains(v),
    ensures
        a == b,
    decreases a.len(),
{
    if a.len() == 0 {
        if b.len() > 0 {
            assert(b.contains(b[0]));
            assert(a.contains(b[0]));
        }
        assert(a =~= b);
    } else {
        assert(a.contains(a[0]));
        assert(b.contains(a[0]));
        let k = choose|k: int| 0 <= k < b.len() && b[k] == a[0];
        assert(b.contains(b[0]));
        assert(a.contains(b[0]));
        let m = choose|m: int| 0 <= m < a.len() && a[m] == b[0];
        if k > 0 {
            assert(precedes(b[0], b[k]));
            if m > 0 {
                assert(precedes(a[0], a[m]));
                precedes_transitive(a[0], b[0], a[0]);
            }
            precedes_irreflexive(a[0]);
        }
        assert(a[0] == b[0]);
        ascending_tail(a);
        ascending_tail(b);
        assert forall|v: Seq<u8>| #[trigger] a.skip(1).contains(v) <==> b.skip(1).contains(v) by {
            assert(a.contains(v) <==> b.contains(v));
        }
        ascending_is_its_contents(a.skip(1), b.skip(1));
        assert(a =~= seq![a[0]] + a.skip(1));
        assert(b =~= seq![b[0]] + b.skip(1));
    }
}

/// Where `w` stands or would stand in an ascending list: how many words come
/// before it.
pub open spec fn place(ws: Seq<Seq<u8>>, w: Seq<u8>) -> int
    decreases ws.len(),
{
    if ws.len() > 0 && precedes(ws[0], w) {
        1 + place(ws.skip(1), w)
    } else {
        0
    }
}

/// The place of a word is after the words that come before it.
pub proof fn place_is(ws: Seq<Seq<u8>>, w: Seq<u8>, i: int)
    requires
        0 <= i <= ws.len(),
        forall|j: int| 0 <= j < i ==> precedes(#[trigger] ws[j], w),
        i < ws.len() ==> !precedes(ws[i], w),
    ensures
        place(ws, w) == i,
    decreases ws.len(),
{
    if i > 0 {
        assert(precedes(ws[0], w));
        let t = ws.skip(1);
        assert forall|j: int| 0 <= j < i - 1 implies precedes(#[trigger] t[j], w) by {
            assert(t[j] == ws[j + 1]);
        }
        place_is(t, w, i - 1);
    }
}

/// Words are ordered by the first byte in which they differ, the smaller byte
/// first, and a word comes before those that it begins.
pub proof fn the_first_difference_decides(
    front: Seq<u8>,
    x: u8,
    y: u8,
    a: Seq<u8>,
    b: Seq<u8>,
)
    ensures
        x < y ==> precedes(front + seq![x] + a, front + seq![y] + b),
        precedes(front, front + seq![x] + a),
        !precedes(front + seq![x] + a, front),
    decreases front.len(),
{
    let p = front + seq![x] + a;
    let q = front + seq![y] + b;
    if front.len() == 0 {
        assert(p[0] == x);
        assert(q[0] == y);
    } else {
        let rest = front.skip(1);
        the_first_difference_decides(rest, x, y, a, b);
        assert(p.skip(1) =~= rest + seq![x] + a);
        assert(q.skip(1) =~= rest + seq![y] + b);
        assert(p[0] == front[0]);
        assert(q[0] == front[0]);
    }
}

} // verus!
