//! Small list operations the client's bookkeeping is built from: keeping
//! the entries that pass a test, reversing, copying.

use vstd::prelude::*;
use crate::client::{MyOffer, PendingTradeOffer};
use crate::rules::{BuildingInfo, PlayerId, PlayerInfo};

verus! {

/// The entries of `s` that pass `p`, in the order they stand in `s`.
pub open spec fn keep<A>(s: Seq<A>, p: spec_fn(A) -> bool) -> Seq<A>
    decreases s.len(),
{
    if s.len() == 0 {
        seq![]
    } else {
        let r = keep(s.drop_last(), p);
        if p(s.last()) {
            r.push(s.last())
        } else {
            r
        }
    }
}

/// Keeping over one more entry.
pub proof fn lemma_keep_step<A>(s: Seq<A>, j: int, p: spec_fn(A) -> bool)
    requires
        0 <= j < s.len(),
    ensures
        keep(s.take(j + 1), p) == if p(s[j]) {
            keep(s.take(j), p).push(s[j])
        } else {
            keep(s.take(j), p)
        },
{
    assert(s.take(j + 1).drop_last() =~= s.take(j));
    assert(s.take(j + 1).last() == s[j]);
}

/// One step of keeping in place: an entry that passes stays, one that
/// fails is removed.
pub proof fn lemma_keep_walk<A>(orig: Seq<A>, j: int, p: spec_fn(A) -> bool, before: Seq<A>, after: Seq<A>, i: int)
    requires
        0 <= j < orig.len(),
        before == keep(orig.take(j), p) + orig.skip(j),
        i == keep(orig.take(j), p).len(),
        p(orig[j]) ==> after == before,
        !p(orig[j]) ==> after == before.remove(i),
    ensures
        after == keep(orig.take(j + 1), p) + orig.skip(j + 1),
{
    lemma_keep_step(orig, j, p);
    let k = keep(orig.take(j), p);
    assert(orig.skip(j) =~= seq![orig[j]] + orig.skip(j + 1));
    if p(orig[j]) {
        assert(k + orig.skip(j) =~= k.push(orig[j]) + orig.skip(j + 1));
    } else {
        assert(before.remove(i) =~= k + orig.skip(j + 1));
    }
}

/// Everything kept passes the test.
pub proof fn lemma_keep_passes<A>(s: Seq<A>, p: spec_fn(A) -> bool)
    ensures
        forall|i: int| 0 <= i < keep(s, p).len() ==> p(#[trigger] keep(s, p)[i]),
        keep(s, p).len() <= s.len(),
    decreases s.len(),
{
    if s.len() > 0 {
        lemma_keep_passes(s.drop_last(), p);
    }
}

/// What is kept is exactly what was there and passes the test.
pub proof fn lemma_keep_contains<A>(s: Seq<A>, p: spec_fn(A) -> bool, x: A)
    ensures
        keep(s, p).contains(x) == (s.contains(x) && p(x)),
    decreases s.len(),
{
    if s.len() > 0 {
        let t = s.drop_last();
        lemma_keep_contains(t, p, x);
        let r = keep(t, p);
        if s.contains(x) && p(x) {
            let i = choose|i: int| 0 <= i < s.len() && s[i] == x;
            if i < t.len() {
                assert(t[i] == x);
                assert(t.contains(x));
                if p(s.last()) {
                    let k = choose|k: int| 0 <= k < r.len() && r[k] == x;
                    assert(r.push(s.last())[k] == x);
                }
            } else {
                assert(r.push(s.last())[r.len() as int] == x);
            }
        }
        if keep(s, p).contains(x) {
            if p(s.last()) {
                let k = choose|k: int| 0 <= k < r.push(s.last()).len() && r.push(s.last())[k] == x;
                if k < r.len() {
                    assert(r[k] == x);
                    assert(r.contains(x));
                    let i = choose|i: int| 0 <= i < t.len() && t[i] == x;
                    assert(s[i] == x);
                } else {
                    assert(s[s.len() - 1] == x);
                }
            } else {
                let i = choose|i: int| 0 <= i < t.len() && t[i] == x;
                assert(s[i] == x);
            }
        }
    }
}

/// Keeping twice is keeping by both tests.
pub proof fn lemma_keep_keep<A>(s: Seq<A>, p: spec_fn(A) -> bool, q: spec_fn(A) -> bool, r: spec_fn(A) -> bool)
    requires
        forall|x: A| #[trigger] r(x) == (p(x) && q(x)),
    ensures
        keep(keep(s, p), q) == keep(s, r),
    decreases s.len(),
{
    if s.len() > 0 {
        lemma_keep_keep(s.drop_last(), p, q, r);
        let t = keep(s.drop_last(), p);
        if p(s.last()) {
            assert(t.push(s.last()).drop_last() =~= t);
        }
    }
}

/// Tests that agree everywhere keep the same entries.
pub proof fn lemma_keep_same<A>(s: Seq<A>, p: spec_fn(A) -> bool, q: spec_fn(A) -> bool)
    requires
        forall|x: A| #[trigger] p(x) == q(x),
    ensures
        keep(s, p) == keep(s, q),
    decreases s.len(),
{
    if s.len() > 0 {
        lemma_keep_same(s.drop_last(), p, q);
    }
}

/// Keeps the ids that differ from `x`.
pub fn retain_u64(v: &mut Vec<u64>, x: u64)
    ensures
        final(v)@ == keep(old(v)@, |y: u64| y != x),
{
    let ghost orig = old(v)@;
    let ghost p = |y: u64| y != x;
    let mut i: usize = 0;
    let ghost mut j: int = 0;
    while i < v.len()
        invariant
            0 <= j <= orig.len(),
            p == (|y: u64| y != x),
            v@ == keep(orig.take(j), p) + orig.skip(j),
            i == keep(orig.take(j), p).len(),
        decreases v@.len() - i,
    {
        proof {
            lemma_keep_step(orig, j, p);
            assert(v@[i as int] == orig[j]);
        }
        let ghost before = v@;
        if v[i] != x {
            i = i + 1;
        } else {
            v.remove(i);
        }
        proof {
            lemma_keep_walk(orig, j, p, before, v@, keep(orig.take(j), p).len() as int);
            j = j + 1;
        }
    }
    proof {
        assert(orig.take(j) =~= orig);
    }
}

/// Keeps the players ids that differ from `x`.
pub fn retain_player_ids(v: &mut Vec<PlayerId>, x: PlayerId)
    ensures
        final(v)@ == keep(old(v)@, |y: PlayerId| y != x),
{
    let ghost orig = old(v)@;
    let ghost p = |y: PlayerId| y != x;
    let mut i: usize = 0;
    let ghost mut j: int = 0;
    while i < v.len()
        invariant
            0 <= j <= orig.len(),
            p == (|y: PlayerId| y != x),
            v@ == keep(orig.take(j), p) + orig.skip(j),
            i == keep(orig.take(j), p).len(),
        decreases v@.len() - i,
    {
        proof {
            lemma_keep_step(orig, j, p);
            assert(v@[i as int] == orig[j]);
        }
        let ghost before = v@;
        if v[i] != x {
            i = i + 1;
        } else {
            v.remove(i);
        }
        proof {
            lemma_keep_walk(orig, j, p, before, v@, keep(orig.take(j), p).len() as int);
            j = j + 1;
        }
    }
    proof {
        assert(orig.take(j) =~= orig);
    }
}

/// Keeps the counter records that mention `x` on neither side.
pub fn retain_counter_pairs(v: &mut Vec<(u64, u64)>, x: u64)
    ensures
        final(v)@ == keep(old(v)@, |c: (u64, u64)| c.0 != x && c.1 != x),
{
    let ghost orig = old(v)@;
    let ghost p = |c: (u64, u64)| c.0 != x && c.1 != x;
    let mut i: usize = 0;
    let ghost mut j: int = 0;
    while i < v.len()
        invariant
            0 <= j <= orig.len(),
            p == (|c: (u64, u64)| c.0 != x && c.1 != x),
            v@ == keep(orig.take(j), p) + orig.skip(j),
            i == keep(orig.take(j), p).len(),
        decreases v@.len() - i,
    {
        proof {
            lemma_keep_step(orig, j, p);
            assert(v@[i as int] == orig[j]);
        }
        let ghost before = v@;
        if v[i].0 != x && v[i].1 != x {
            i = i + 1;
        } else {
            v.remove(i);
        }
        proof {
            lemma_keep_walk(orig, j, p, before, v@, keep(orig.take(j), p).len() as int);
            j = j + 1;
        }
    }
    proof {
        assert(orig.take(j) =~= orig);
    }
}

/// Keeps the counter records that answer some offer other than `x`.
pub fn retain_counters_not_answering(v: &mut Vec<(u64, u64)>, x: u64)
    ensures
        final(v)@ == keep(old(v)@, |c: (u64, u64)| c.0 != x),
{
    let ghost orig = old(v)@;
    let ghost p = |c: (u64, u64)| c.0 != x;
    let mut i: usize = 0;
    let ghost mut j: int = 0;
    while i < v.len()
        invariant
            0 <= j <= orig.len(),
            p == (|c: (u64, u64)| c.0 != x),
            v@ == keep(orig.take(j), p) + orig.skip(j),
            i == keep(orig.take(j), p).len(),
        decreases v@.len() - i,
    {
        proof {
            lemma_keep_step(orig, j, p);
            assert(v@[i as int] == orig[j]);
        }
        let ghost before = v@;
        if v[i].0 != x {
            i = i + 1;
        } else {
            v.remove(i);
        }
        proof {
            lemma_keep_walk(orig, j, p, before, v@, keep(orig.take(j), p).len() as int);
            j = j + 1;
        }
    }
    proof {
        assert(orig.take(j) =~= orig);
    }
}

/// Keeps the incoming offers other than `x`.
pub fn retain_incoming_other(v: &mut Vec<PendingTradeOffer>, x: u64)
    ensures
        final(v)@ == keep(old(v)@, |t: PendingTradeOffer| t.offer_id != x),
{
    let ghost orig = old(v)@;
    let ghost p = |t: PendingTradeOffer| t.offer_id != x;
    let mut i: usize = 0;
    let ghost mut j: int = 0;
    while i < v.len()
        invariant
            0 <= j <= orig.len(),
            p == (|t: PendingTradeOffer| t.offer_id != x),
            v@ == keep(orig.take(j), p) + orig.skip(j),
            i == keep(orig.take(j), p).len(),
        decreases v@.len() - i,
    {
        proof {
            lemma_keep_step(orig, j, p);
            assert(v@[i as int] == orig[j]);
        }
        let ghost before = v@;
        if v[i].offer_id != x {
            i = i + 1;
        } else {
            v.remove(i);
        }
        proof {
            lemma_keep_walk(orig, j, p, before, v@, keep(orig.take(j), p).len() as int);
            j = j + 1;
        }
    }
    proof {
        assert(orig.take(j) =~= orig);
    }
}

/// Keeps the incoming offers that are not counters to `x`.
pub fn retain_incoming_not_countering(v: &mut Vec<PendingTradeOffer>, x: u64)
    ensures
        final(v)@ == keep(old(v)@, |t: PendingTradeOffer| t.counters != Some(x)),
{
    let ghost orig = old(v)@;
    let ghost p = |t: PendingTradeOffer| t.counters != Some(x);
    let mut i: usize = 0;
    let ghost mut j: int = 0;
    while i < v.len()
        invariant
            0 <= j <= orig.len(),
            p == (|t: PendingTradeOffer| t.counters != Some(x)),
            v@ == keep(orig.take(j), p) + orig.skip(j),
            i == keep(orig.take(j), p).len(),
        decreases v@.len() - i,
    {
        proof {
            lemma_keep_step(orig, j, p);
            assert(v@[i as int] == orig[j]);
        }
        let ghost before = v@;
        let counters_x = match v[i].counters {
            Some(c) => c == x,
            None => false,
        };
        if !counters_x {
            i = i + 1;
        } else {
            v.remove(i);
        }
        proof {
            lemma_keep_walk(orig, j, p, before, v@, keep(orig.take(j), p).len() as int);
            j = j + 1;
        }
    }
    proof {
        assert(orig.take(j) =~= orig);
    }
}

/// Keeps my offers other than `x`.
pub fn retain_offers_other(v: &mut Vec<MyOffer>, x: u64)
    ensures
        final(v)@ == keep(old(v)@, |o: MyOffer| o.offer_id != x),
{
    let ghost orig = old(v)@;
    let ghost p = |o: MyOffer| o.offer_id != x;
    let mut i: usize = 0;
    let ghost mut j: int = 0;
    while i < v.len()
        invariant
            0 <= j <= orig.len(),
            p == (|o: MyOffer| o.offer_id != x),
            v@ == keep(orig.take(j), p) + orig.skip(j),
            i == keep(orig.take(j), p).len(),
        decreases v@.len() - i,
    {
        proof {
            lemma_keep_step(orig, j, p);
            assert(v@[i as int] == orig[j]);
        }
        let ghost before = v@;
        if v[i].offer_id != x {
            i = i + 1;
        } else {
            v.remove(i);
        }
        proof {
            lemma_keep_walk(orig, j, p, before, v@, keep(orig.take(j), p).len() as int);
            j = j + 1;
        }
    }
    proof {
        assert(orig.take(j) =~= orig);
    }
}

/// Keeps the players other than `x`.
pub fn retain_players_other(v: &mut Vec<PlayerInfo>, x: PlayerId)
    ensures
        final(v)@ == keep(old(v)@, |pl: PlayerInfo| pl.player_id != x),
{
    let ghost orig = old(v)@;
    let ghost p = |pl: PlayerInfo| pl.player_id != x;
    let mut i: usize = 0;
    let ghost mut j: int = 0;
    while i < v.len()
        invariant
            0 <= j <= orig.len(),
            p == (|pl: PlayerInfo| pl.player_id != x),
            v@ == keep(orig.take(j), p) + orig.skip(j),
            i == keep(orig.take(j), p).len(),
        decreases v@.len() - i,
    {
        proof {
            lemma_keep_step(orig, j, p);
            assert(v@[i as int] == orig[j]);
        }
        let ghost before = v@;
        if v[i].player_id != x {
            i = i + 1;
        } else {
            v.remove(i);
        }
        proof {
            lemma_keep_walk(orig, j, p, before, v@, keep(orig.take(j), p).len() as int);
            j = j + 1;
        }
    }
    proof {
        assert(orig.take(j) =~= orig);
    }
}

/// Keeps the buildings that do not stand at `at`.
pub fn retain_buildings_elsewhere(v: &mut Vec<BuildingInfo>, at: (i32, i32))
    ensures
        final(v)@ == keep(old(v)@, |b: BuildingInfo| !(b.x == at.0 && b.y == at.1)),
{
    let ghost orig = old(v)@;
    let ghost p = |b: BuildingInfo| !(b.x == at.0 && b.y == at.1);
    let mut i: usize = 0;
    let ghost mut j: int = 0;
    while i < v.len()
        invariant
            0 <= j <= orig.len(),
            p == (|b: BuildingInfo| !(b.x == at.0 && b.y == at.1)),
            v@ == keep(orig.take(j), p) + orig.skip(j),
            i == keep(orig.take(j), p).len(),
        decreases v@.len() - i,
    {
        proof {
            lemma_keep_step(orig, j, p);
            assert(v@[i as int] == orig[j]);
        }
        let ghost before = v@;
        if !(v[i].x == at.0 && v[i].y == at.1) {
            i = i + 1;
        } else {
            v.remove(i);
        }
        proof {
            lemma_keep_walk(orig, j, p, before, v@, keep(orig.take(j), p).len() as int);
            j = j + 1;
        }
    }
    proof {
        assert(orig.take(j) =~= orig);
    }
}

/// Whether a list of ids holds `x`.
pub fn has_u64(v: &Vec<u64>, x: u64) -> (b: bool)
    ensures
        b == v@.contains(x),
{
    let mut i: usize = 0;
    while i < v.len()
        invariant
            i <= v@.len(),
            forall|k: int| 0 <= k < i ==> v@[k] != x,
        decreases v@.len() - i,
    {
        if v[i] == x {
            return true;
        }
        i = i + 1;
    }
    false
}

/// Whether a list of player ids holds `x`.
pub fn has_player_id(v: &Vec<PlayerId>, x: PlayerId) -> (b: bool)
    ensures
        b == v@.contains(x),
{
    let mut i: usize = 0;
    while i < v.len()
        invariant
            i <= v@.len(),
            forall|k: int| 0 <= k < i ==> v@[k] != x,
        decreases v@.len() - i,
    {
        if v[i] == x {
            return true;
        }
        i = i + 1;
    }
    false
}

/// A copy of a list of plain values.
pub fn copy_list<T: Copy>(v: &Vec<T>) -> (out: Vec<T>)
    ensures
        out@ == v@,
{
    let mut out: Vec<T> = Vec::new();
    let mut i: usize = 0;
    while i < v.len()
        invariant
            i <= v@.len(),
            out@ == v@.take(i as int),
        decreases v@.len() - i,
    {
        out.push(v[i]);
        proof {
            assert(v@.take(i as int + 1) =~= v@.take(i as int).push(v@[i as int]));
        }
        i = i + 1;
    }
    proof {
        assert(v@.take(v@.len() as int) =~= v@);
    }
    out
}

/// A list in the opposite order.
pub fn reversed<T>(v: Vec<T>) -> (out: Vec<T>)
    ensures
        out@ == v@.reverse(),
{
    let mut src = v;
    let ghost orig = src@;
    let mut out: Vec<T> = Vec::new();
    while src.len() > 0
        invariant
            src@ == orig.take(src@.len() as int),
            src@.len() <= orig.len(),
            out@ == orig.skip(src@.len() as int).reverse(),
        decreases src@.len(),
    {
        let ghost n = src@.len() as int;
        let x = src.pop().unwrap();
        out.push(x);
        proof {
            assert(x == orig[n - 1]);
            assert(src@ =~= orig.take(n - 1));
            assert(orig.skip(n - 1).reverse() =~= orig.skip(n).reverse().push(orig[n - 1]));
        }
    }
    proof {
        assert(orig.skip(0) =~= orig);
    }
    out
}

} // verus!
