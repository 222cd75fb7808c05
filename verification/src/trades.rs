//! The client's trade bookkeeping: offers it has made, offers it may answer,
//! and what a reconnect restores of both.

use vstd::prelude::*;
use crate::client::{GameState, MyOffer, PendingTradeOffer};
use crate::lists::{
    has_player_id, has_u64, keep, lemma_keep_keep, retain_counter_pairs, retain_counters_not_answering,
    retain_incoming_not_countering, retain_incoming_other, retain_offers_other,
    retain_player_ids, retain_u64, reversed,
};
use crate::client::name_of;
use crate::rules::{PlayerId, Resources, TradeSnapshot};

verus! {

/// `x` slotted into `s` after every entry whose id is not larger: one step
/// of a stable sort by offer id.
pub open spec fn insert_by_id(s: Seq<TradeSnapshot>, x: TradeSnapshot) -> Seq<TradeSnapshot>
    decreases s.len(),
{
    if s.len() == 0 || s.last().offer_id <= x.offer_id {
        s.push(x)
    } else {
        insert_by_id(s.drop_last(), x).push(s.last())
    }
}

/// Snapshots in order of offer id, keeping the order they came in among equal ids.
pub open spec fn sort_by_id(s: Seq<TradeSnapshot>) -> Seq<TradeSnapshot>
    decreases s.len(),
{
    if s.len() == 0 {
        s
    } else {
        insert_by_id(sort_by_id(s.drop_last()), s.last())
    }
}

/// A sequence of snapshots ordered by offer id.
pub open spec fn ids_ascending(s: Seq<TradeSnapshot>) -> bool {
    forall|a: int, b: int| 0 <= a < b < s.len() ==> s[a].offer_id <= s[b].offer_id
}

/// Inserting into an ordered sequence keeps it ordered and adds the entry.
pub proof fn lemma_insert_sorted(s: Seq<TradeSnapshot>, x: TradeSnapshot)
    requires
        ids_ascending(s),
    ensures
        ids_ascending(insert_by_id(s, x)),
        insert_by_id(s, x).len() == s.len() + 1,
        insert_by_id(s, x).to_multiset() == s.to_multiset().insert(x),
    decreases s.len(),
{
    broadcast use vstd::seq_lib::group_to_multiset_ensures;
    if s.len() == 0 || s.last().offer_id <= x.offer_id {
    } else {
        let t = s.drop_last();
        lemma_insert_sorted(t, x);
        let r = insert_by_id(t, x);
        assert forall|a: int, b: int| 0 <= a < b < r.push(s.last()).len() implies r.push(
            s.last(),
        )[a].offer_id <= r.push(s.last())[b].offer_id by {
            if b == r.len() {
                assert(r.to_multiset().contains(r[a]));
                assert(t.to_multiset().insert(x).contains(r[a]));
                if r[a] != x {
                    assert(t.to_multiset().contains(r[a]));
                    assert(t.contains(r[a]));
                    let i = choose|i: int| 0 <= i < t.len() && t[i] == r[a];
                    assert(s[i] == t[i]);
                }
            }
        }
        assert(s =~= t.push(s.last()));
    }
}

/// Sorting by offer id gives an ordered arrangement of the same snapshots.
pub proof fn lemma_sort_by_id(s: Seq<TradeSnapshot>)
    ensures
        ids_ascending(sort_by_id(s)),
        sort_by_id(s).to_multiset() == s.to_multiset(),
        sort_by_id(s).len() == s.len(),
    decreases s.len(),
{
    broadcast use vstd::seq_lib::group_to_multiset_ensures;
    if s.len() > 0 {
        lemma_sort_by_id(s.drop_last());
        lemma_insert_sorted(sort_by_id(s.drop_last()), s.last());
        assert(s =~= s.drop_last().push(s.last()));
    }
}

/// Where `x` goes when scanning back from the end past larger ids.
proof fn lemma_insert_at(s: Seq<TradeSnapshot>, x: TradeSnapshot, p: int)
    requires
        0 <= p <= s.len(),
        forall|k: int| p <= k < s.len() ==> s[k].offer_id > x.offer_id,
        p == 0 || s[p - 1].offer_id <= x.offer_id,
    ensures
        insert_by_id(s, x) == s.insert(p, x),
    decreases s.len(),
{
    if s.len() == 0 {
        assert(s.insert(p, x) =~= s.push(x));
    } else if s.last().offer_id <= x.offer_id {
        assert(s.insert(p, x) =~= s.push(x));
    } else {
        let t = s.drop_last();
        lemma_insert_at(t, x, p);
        assert(s.insert(p, x) =~= t.insert(p, x).push(s.last()));
    }
}

/// Sorts snapshots by offer id, stably.
fn sort_snapshots(v: Vec<TradeSnapshot>) -> (out: Vec<TradeSnapshot>)
    ensures
        out@ == sort_by_id(v@),
{
    let ghost orig = v@;
    let mut src = reversed(v);
    let mut out: Vec<TradeSnapshot> = Vec::new();
    let ghost mut n: int = 0;
    while src.len() > 0
        invariant
            0 <= n <= orig.len(),
            src@ == orig.skip(n).reverse(),
            out@ == sort_by_id(orig.take(n)),
        decreases src@.len(),
    {
        let x = src.pop().unwrap();
        proof {
            assert(x == orig[n]);
            assert(src@ =~= orig.skip(n + 1).reverse());
        }
        let mut p: usize = out.len();
        while p > 0 && out[p - 1].offer_id > x.offer_id
            invariant
                p <= out@.len(),
                forall|k: int| p <= k < out@.len() ==> out@[k].offer_id > x.offer_id,
            decreases p,
        {
            p = p - 1;
        }
        let ghost before = out@;
        out.insert(p, x);
        proof {
            lemma_insert_at(before, x, p as int);
            assert(orig.take(n + 1).drop_last() =~= orig.take(n));
            n = n + 1;
        }
    }
    proof {
        assert(orig.take(n) =~= orig);
    }
    out
}

/// The offers a reconnecting player has accepted.
pub open spec fn restored_accepted(snaps: Seq<TradeSnapshot>, me: PlayerId) -> Seq<u64>
    decreases snaps.len(),
{
    if snaps.len() == 0 {
        seq![]
    } else {
        let r = restored_accepted(snaps.drop_last(), me);
        if snaps.last().accepted_by@.contains(me) {
            r.push(snaps.last().offer_id)
        } else {
            r
        }
    }
}

/// The counters a reconnecting player has outstanding.
pub open spec fn restored_counters(snaps: Seq<TradeSnapshot>, me: PlayerId) -> Seq<(u64, u64)>
    decreases snaps.len(),
{
    if snaps.len() == 0 {
        seq![]
    } else {
        let r = restored_counters(snaps.drop_last(), me);
        let s = snaps.last();
        if s.proposer_id == me && s.counters is Some {
            r.push((s.counters.unwrap(), s.offer_id))
        } else {
            r
        }
    }
}

/// A snapshot of an offer of mine that is not a counter.
pub open spec fn is_own_offer(s: TradeSnapshot, me: PlayerId) -> bool {
    s.proposer_id == me && s.counters is None
}

/// A trade offer as it was received, with when it arrived.
pub open spec fn pending_from(s: TradeSnapshot, received_at: int) -> PendingTradeOffer {
    PendingTradeOffer {
        offer_id: s.offer_id,
        proposer_id: s.proposer_id,
        target_player_id: s.target_player_id,
        offering: s.offering,
        requesting: s.requesting,
        offering_any: s.offering_any,
        requesting_any: s.requesting_any,
        received_at: received_at as i128,
        counters: s.counters,
    }
}

/// Milliseconds an offer has been open, read off the seconds it has left.
pub open spec fn open_ms(s: TradeSnapshot) -> int {
    120_000 - s.seconds_remaining * 1000
}

/// The offers a reconnecting player may still answer, with their countdowns
/// wound back to where the server has them.
pub open spec fn restored_incoming(snaps: Seq<TradeSnapshot>, me: PlayerId, now: int) -> Seq<PendingTradeOffer>
    decreases snaps.len(),
{
    if snaps.len() == 0 {
        seq![]
    } else {
        let r = restored_incoming(snaps.drop_last(), me, now);
        let s = snaps.last();
        if s.proposer_id != me && !s.you_declined {
            r.push(pending_from(s, now - open_ms(s)))
        } else {
            r
        }
    }
}

/// A panel entry for one of my own offers, restored from its snapshot: its
/// terms and its bidders, with no refusals (the server does not say who
/// refused).
pub open spec fn offer_restored(o: MyOffer, s: TradeSnapshot) -> bool {
    &&& o.offer_id == s.offer_id
    &&& o.offering == s.offering
    &&& o.requesting == s.requesting
    &&& o.offering_any == s.offering_any
    &&& o.requesting_any == s.requesting_any
    &&& o.accepters@ == s.accepted_by@
    &&& o.decliners@.len() == 0
}

/// My own offers among the snapshots, ordered by offer id.
pub open spec fn restored_mine(snaps: Seq<TradeSnapshot>, me: PlayerId) -> Seq<TradeSnapshot> {
    sort_by_id(keep(snaps, |s: TradeSnapshot| is_own_offer(s, me)))
}

impl GameState {
    /// Drops any record of a counter once `offer_id` is gone, whether that
    /// id is the counter itself or the offer it was answering.
    pub(crate) fn forget_counters(&mut self, offer_id: u64)
        ensures
            final(self).my_counter_offers@ == keep(
                old(self).my_counter_offers@,
                |c: (u64, u64)| c.0 != offer_id && c.1 != offer_id,
            ),
            final(self).incoming_trades@ == keep(
                old(self).incoming_trades@,
                |t: PendingTradeOffer| t.counters != Some(offer_id),
            ),
            *final(self) == (GameState {
                my_counter_offers: final(self).my_counter_offers,
                incoming_trades: final(self).incoming_trades,
                ..*old(self)
            }),
    {
        retain_counter_pairs(&mut self.my_counter_offers, offer_id);
        retain_incoming_not_countering(&mut self.incoming_trades, offer_id);
    }

    /// Rebuilds the trade panel from a full sync: offers I may answer (with
    /// their countdowns where the server has them), offers I have accepted,
    /// my own offers by id, and my outstanding counters. All four lists are
    /// replaced wholesale.
    pub fn restore_trades(&mut self, me: PlayerId, snapshots: Vec<TradeSnapshot>, now: i64)
        ensures
            final(self).incoming_trades@ == restored_incoming(snapshots@, me, now as int),
            final(self).my_accepted_offers@ == restored_accepted(snapshots@, me),
            final(self).my_counter_offers@ == restored_counters(snapshots@, me),
            final(self).my_offers@.len() == restored_mine(snapshots@, me).len(),
            forall|k: int|
                0 <= k < final(self).my_offers@.len() ==> offer_restored(
                    #[trigger] final(self).my_offers@[k],
                    restored_mine(snapshots@, me)[k],
                ),
            *final(self) == (GameState {
                incoming_trades: final(self).incoming_trades,
                my_accepted_offers: final(self).my_accepted_offers,
                my_counter_offers: final(self).my_counter_offers,
                my_offers: final(self).my_offers,
                ..*old(self)
            }),
    {
        let ghost orig = snapshots@;
        let ghost own = |s: TradeSnapshot| is_own_offer(s, me);
        let mut src = reversed(snapshots);
        let mut incoming: Vec<PendingTradeOffer> = Vec::new();
        let mut accepted: Vec<u64> = Vec::new();
        let mut mine: Vec<TradeSnapshot> = Vec::new();
        let mut my_counters: Vec<(u64, u64)> = Vec::new();
        let ghost mut n: int = 0;
        while src.len() > 0
            invariant
                0 <= n <= orig.len(),
                own == (|s: TradeSnapshot| is_own_offer(s, me)),
                src@ == orig.skip(n).reverse(),
                incoming@ == restored_incoming(orig.take(n), me, now as int),
                accepted@ == restored_accepted(orig.take(n), me),
                my_counters@ == restored_counters(orig.take(n), me),
                mine@ == keep(orig.take(n), own),
            decreases src@.len(),
        {
            let snapshot = src.pop().unwrap();
            proof {
                assert(snapshot == orig[n]);
                assert(src@ =~= orig.skip(n + 1).reverse());
                assert(orig.take(n + 1).drop_last() =~= orig.take(n));
                assert(orig.take(n + 1).last() == snapshot);
                crate::lists::lemma_keep_step(orig, n, own);
            }
            if has_player_id(&snapshot.accepted_by, me) {
                accepted.push(snapshot.offer_id);
            }
            if snapshot.proposer_id == me {
                match snapshot.counters {
                    Some(countered) => {
                        my_counters.push((countered, snapshot.offer_id));
                    },
                    None => {
                        mine.push(snapshot);
                    },
                }
            } else if !snapshot.you_declined {
                let elapsed: i128 = 120_000i128 - (snapshot.seconds_remaining as i128) * 1000;
                incoming.push(PendingTradeOffer {
                    offer_id: snapshot.offer_id,
                    proposer_id: snapshot.proposer_id,
                    target_player_id: snapshot.target_player_id,
                    offering: snapshot.offering,
                    requesting: snapshot.requesting,
                    offering_any: snapshot.offering_any,
                    requesting_any: snapshot.requesting_any,
                    received_at: now as i128 - elapsed,
                    counters: snapshot.counters,
                });
            }
            proof {
                n = n + 1;
            }
        }
        proof {
            assert(orig.take(n) =~= orig);
        }
        let sorted = sort_snapshots(mine);
        let mut sorted_src = reversed(sorted);
        let ghost target = sort_by_id(keep(orig, own));
        let mut offers: Vec<MyOffer> = Vec::new();
        while sorted_src.len() > 0
            invariant
                offers@.len() + sorted_src@.len() == target.len(),
                sorted_src@ == target.skip(offers@.len() as int).reverse(),
                forall|k: int|
                    0 <= k < offers@.len() ==> offer_restored(#[trigger] offers@[k], target[k]),
            decreases sorted_src@.len(),
        {
            let ghost m = offers@.len() as int;
            let s = sorted_src.pop().unwrap();
            proof {
                assert(s == target[m]);
                assert(sorted_src@ =~= target.skip(m + 1).reverse());
            }
            offers.push(MyOffer {
                offer_id: s.offer_id,
                offering: s.offering,
                requesting: s.requesting,
                offering_any: s.offering_any,
                requesting_any: s.requesting_any,
                accepters: s.accepted_by,
                decliners: Vec::new(),
            });
        }
        self.incoming_trades = incoming;
        self.my_accepted_offers = accepted;
        self.my_offers = offers;
        self.my_counter_offers = my_counters;
    }
}


/// The first position of offer `id` among my offers, or -1.
pub open spec fn offer_pos(offers: Seq<MyOffer>, id: u64) -> int
    decreases offers.len(),
{
    if offers.len() == 0 {
        -1
    } else if offers[0].offer_id == id {
        0
    } else {
        let r = offer_pos(offers.drop_first(), id);
        if r < 0 {
            -1
        } else {
            r + 1
        }
    }
}

proof fn lemma_offer_pos(offers: Seq<MyOffer>, id: u64, k: int)
    requires
        0 <= k <= offers.len(),
        forall|j: int| 0 <= j < k ==> offers[j].offer_id != id,
        k < offers.len() ==> offers[k].offer_id == id,
    ensures
        offer_pos(offers, id) == if k < offers.len() { k } else { -1 },
    decreases k,
{
    if k > 0 {
        lemma_offer_pos(offers.drop_first(), id, k - 1);
    }
}

/// `after` is offer `before` with its bids replaced.
pub open spec fn bids_replaced(before: MyOffer, after: MyOffer, accepters: Seq<PlayerId>, decliners: Seq<PlayerId>) -> bool {
    &&& after.offer_id == before.offer_id
    &&& after.offering == before.offering
    &&& after.requesting == before.requesting
    &&& after.offering_any == before.offering_any
    &&& after.requesting_any == before.requesting_any
    &&& after.accepters@ == accepters
    &&& after.decliners@ == decliners
}

/// My offers after the bids on offer `id` (the first with that id) are
/// rewritten by `acc` and `dec`; nothing changes when there is no such offer.
pub open spec fn bids_rewritten(
    before: Seq<MyOffer>,
    after: Seq<MyOffer>,
    id: u64,
    acc: spec_fn(Seq<PlayerId>) -> Seq<PlayerId>,
    dec: spec_fn(Seq<PlayerId>) -> Seq<PlayerId>,
) -> bool {
    let k = offer_pos(before, id);
    if k < 0 {
        after == before
    } else {
        &&& after.len() == before.len()
        &&& forall|j: int| 0 <= j < before.len() && j != k ==> after[j] == before[j]
        &&& bids_replaced(before[k], after[k], acc(before[k].accepters@), dec(before[k].decliners@))
    }
}

/// A list of players with `x` added at the end, unless it is already there.
pub open spec fn with_player(v: Seq<PlayerId>, x: PlayerId) -> Seq<PlayerId> {
    if v.contains(x) {
        v
    } else {
        v.push(x)
    }
}

/// A list of offer ids with `x` added at the end, unless it is already there.
pub open spec fn with_id(v: Seq<u64>, x: u64) -> Seq<u64> {
    if v.contains(x) {
        v
    } else {
        v.push(x)
    }
}

/// The position of offer `id` among my offers.
fn find_offer(offers: &Vec<MyOffer>, id: u64) -> (r: Option<usize>)
    ensures
        r matches Some(k) ==> k < offers@.len() && offer_pos(offers@, id) == k,
        r is None ==> offer_pos(offers@, id) < 0,
{
    let mut k: usize = 0;
    while k < offers.len() && offers[k].offer_id != id
        invariant
            k <= offers@.len(),
            forall|j: int| 0 <= j < k ==> offers@[j].offer_id != id,
        decreases offers@.len() - k,
    {
        k = k + 1;
    }
    proof {
        lemma_offer_pos(offers@, id, k as int);
    }
    if k < offers.len() {
        Some(k)
    } else {
        None
    }
}

/// Adds `x` to a list of players unless it is already there.
fn add_player(v: &mut Vec<PlayerId>, x: PlayerId)
    ensures
        final(v)@ == with_player(old(v)@, x),
{
    if !has_player_id(v, x) {
        v.push(x);
    }
}

/// Takes `who`'s bid off offer `id`.
fn strip_bid(offers: &mut Vec<MyOffer>, id: u64, who: PlayerId)
    ensures
        bids_rewritten(
            old(offers)@,
            final(offers)@,
            id,
            |a: Seq<PlayerId>| keep(a, |y: PlayerId| y != who),
            |d: Seq<PlayerId>| d,
        ),
{
    match find_offer(offers, id) {
        Some(k) => {
            let mut o = offers.remove(k);
            retain_player_ids(&mut o.accepters, who);
            offers.insert(k, o);
            proof {
                assert(offers@.len() == old(offers)@.len());
                assert forall|j: int| 0 <= j < old(offers)@.len() && j != k implies offers@[j] == old(offers)@[j] by {
                }
            }
        },
        None => {},
    }
}

/// Records `who` as bidding on offer `id`, and no longer refusing it.
fn record_bid(offers: &mut Vec<MyOffer>, id: u64, who: PlayerId)
    ensures
        bids_rewritten(
            old(offers)@,
            final(offers)@,
            id,
            |a: Seq<PlayerId>| with_player(a, who),
            |d: Seq<PlayerId>| keep(d, |y: PlayerId| y != who),
        ),
{
    match find_offer(offers, id) {
        Some(k) => {
            let mut o = offers.remove(k);
            add_player(&mut o.accepters, who);
            retain_player_ids(&mut o.decliners, who);
            offers.insert(k, o);
            proof {
                assert forall|j: int| 0 <= j < old(offers)@.len() && j != k implies offers@[j] == old(offers)@[j] by {
                }
            }
        },
        None => {},
    }
}

/// Records `who` as refusing offer `id`, and no longer bidding on it.
fn record_refusal(offers: &mut Vec<MyOffer>, id: u64, who: PlayerId)
    ensures
        bids_rewritten(
            old(offers)@,
            final(offers)@,
            id,
            |a: Seq<PlayerId>| keep(a, |y: PlayerId| y != who),
            |d: Seq<PlayerId>| with_player(d, who),
        ),
{
    match find_offer(offers, id) {
        Some(k) => {
            let mut o = offers.remove(k);
            retain_player_ids(&mut o.accepters, who);
            add_player(&mut o.decliners, who);
            offers.insert(k, o);
            proof {
                assert forall|j: int| 0 <= j < old(offers)@.len() && j != k implies offers@[j] == old(offers)@[j] by {
                }
            }
        },
        None => {},
    }
}

/// `o` is a fresh offer of mine with the given terms and no answers yet.
pub open spec fn fresh_offer(o: MyOffer, id: u64, offering: Resources, requesting: Resources, offering_any: u8, requesting_any: u8) -> bool {
    &&& o.offer_id == id
    &&& o.offering == offering
    &&& o.requesting == requesting
    &&& o.offering_any == offering_any
    &&& o.requesting_any == requesting_any
    &&& o.accepters@.len() == 0
    &&& o.decliners@.len() == 0
}

/// The offer reaches this client: it is open to all or aimed at me, and
/// it is not my own.
pub open spec fn offer_reaches(me: Option<PlayerId>, proposer: PlayerId, target: Option<PlayerId>) -> bool {
    (target is None || target == me) && me != Some(proposer)
}

/// The line for a new offer or counter.
pub open spec fn proposed_line(name: Seq<char>, counters: Option<u64>) -> Seq<char> {
    if counters is Some {
        name + " made a counter-offer"@
    } else {
        name + " proposed a trade"@
    }
}

impl GameState {
    pub(crate) fn on_trade_proposed(
        &mut self,
        offer_id: u64,
        proposer_id: PlayerId,
        target_player_id: Option<PlayerId>,
        offering: Resources,
        requesting: Resources,
        offering_any: u8,
        requesting_any: u8,
        counters: Option<u64>,
        now: i64,
    )
        ensures
            (old(self).player_id == Some(proposer_id) && counters is None) ==> final(self).my_offers@.len()
                == keep(old(self).my_offers@, |o: MyOffer| o.offer_id != offer_id).len() + 1,
            (old(self).player_id == Some(proposer_id) && counters is None) ==> final(self).my_offers@.drop_last()
                == keep(old(self).my_offers@, |o: MyOffer| o.offer_id != offer_id),
            (old(self).player_id == Some(proposer_id) && counters is None) ==> fresh_offer(
                final(self).my_offers@.last(),
                offer_id,
                offering,
                requesting,
                offering_any,
                requesting_any,
            ),
            (counters is Some && old(self).player_id != Some(proposer_id)) ==> bids_rewritten(
                old(self).my_offers@,
                final(self).my_offers@,
                counters.unwrap(),
                |a: Seq<PlayerId>| keep(a, |y: PlayerId| y != proposer_id),
                |d: Seq<PlayerId>| d,
            ),
            (counters is Some && old(self).player_id == Some(proposer_id)) ==> final(self).my_offers == old(self).my_offers,
            (counters is None && old(self).player_id != Some(proposer_id)) ==> final(self).my_offers == old(self).my_offers,
            final(self).my_accepted_offers@ == match counters {
                Some(orig) if old(self).player_id == Some(proposer_id) => keep(
                    old(self).my_accepted_offers@,
                    |x: u64| x != orig,
                ),
                _ => old(self).my_accepted_offers@,
            },
            final(self).my_counter_offers@ == match counters {
                Some(orig) if old(self).player_id == Some(proposer_id) => keep(
                    old(self).my_counter_offers@,
                    |c: (u64, u64)| c.0 != orig,
                ).push((orig, offer_id)),
                _ => old(self).my_counter_offers@,
            },
            final(self).incoming_trades@ == if offer_reaches(old(self).player_id, proposer_id, target_player_id) {
                old(self).incoming_trades@.push(PendingTradeOffer {
                    offer_id,
                    proposer_id,
                    target_player_id,
                    offering,
                    requesting,
                    offering_any,
                    requesting_any,
                    received_at: now as i128,
                    counters,
                })
            } else {
                old(self).incoming_trades@
            },
            crate::events::logged(*old(self), *final(self), proposed_line(name_of(old(self).players@, proposer_id), counters)),
            *final(self) == (GameState {
                my_offers: final(self).my_offers,
                my_accepted_offers: final(self).my_accepted_offers,
                my_counter_offers: final(self).my_counter_offers,
                incoming_trades: final(self).incoming_trades,
                messages: final(self).messages,
                ..*old(self)
            }),
    {
        let me = self.player_id;
        let mine = match me {
            Some(m) => m == proposer_id,
            None => false,
        };
        if mine && counters.is_none() {
            retain_offers_other(&mut self.my_offers, offer_id);
            let ghost kept = self.my_offers@;
            self.my_offers.push(MyOffer {
                offer_id,
                offering,
                requesting,
                offering_any,
                requesting_any,
                accepters: Vec::new(),
                decliners: Vec::new(),
            });
            assert(self.my_offers@.drop_last() =~= kept);
        }
        match counters {
            Some(countered) => {
                if mine {
                    retain_u64(&mut self.my_accepted_offers, countered);
                    retain_counters_not_answering(&mut self.my_counter_offers, countered);
                    self.my_counter_offers.push((countered, offer_id));
                } else {
                    strip_bid(&mut self.my_offers, countered, proposer_id);
                }
            },
            None => {},
        }
        let for_me = match target_player_id {
            None => true,
            Some(t) => match me {
                Some(m) => t == m,
                None => false,
            },
        };
        if for_me && !mine {
            self.incoming_trades.push(PendingTradeOffer {
                offer_id,
                proposer_id,
                target_player_id,
                offering,
                requesting,
                offering_any,
                requesting_any,
                received_at: now as i128,
                counters,
            });
        }
        let name = self.player_name(proposer_id);
        let line = if counters.is_some() {
            crate::narration::name_then(name, " made a counter-offer")
        } else {
            crate::narration::name_then(name, " proposed a trade")
        };
        self.log(line);
    }

    pub(crate) fn on_trade_accepted(&mut self, offer_id: u64, accepter_id: PlayerId)
        ensures
            bids_rewritten(
                old(self).my_offers@,
                final(self).my_offers@,
                offer_id,
                |a: Seq<PlayerId>| with_player(a, accepter_id),
                |d: Seq<PlayerId>| keep(d, |y: PlayerId| y != accepter_id),
            ),
            final(self).my_accepted_offers@ == if old(self).player_id == Some(accepter_id) {
                with_id(old(self).my_accepted_offers@, offer_id)
            } else {
                old(self).my_accepted_offers@
            },
            crate::events::logged(*old(self), *final(self), name_of(old(self).players@, accepter_id) + " is willing to trade"@),
            *final(self) == (GameState {
                my_offers: final(self).my_offers,
                my_accepted_offers: final(self).my_accepted_offers,
                messages: final(self).messages,
                ..*old(self)
            }),
    {
        record_bid(&mut self.my_offers, offer_id, accepter_id);
        if self.player_id == Some(accepter_id) {
            if !has_u64(&self.my_accepted_offers, offer_id) {
                self.my_accepted_offers.push(offer_id);
            }
        }
        let line = crate::narration::name_then(self.player_name(accepter_id), " is willing to trade");
        self.log(line);
    }

    pub(crate) fn on_acceptance_withdrawn(&mut self, offer_id: u64, accepter_id: PlayerId)
        ensures
            bids_rewritten(
                old(self).my_offers@,
                final(self).my_offers@,
                offer_id,
                |a: Seq<PlayerId>| keep(a, |y: PlayerId| y != accepter_id),
                |d: Seq<PlayerId>| d,
            ),
            final(self).my_accepted_offers@ == if old(self).player_id == Some(accepter_id) {
                keep(old(self).my_accepted_offers@, |x: u64| x != offer_id)
            } else {
                old(self).my_accepted_offers@
            },
            final(self).incoming_trades@ == if old(self).player_id == Some(accepter_id) {
                keep(old(self).incoming_trades@, |t: PendingTradeOffer| t.offer_id != offer_id)
            } else {
                old(self).incoming_trades@
            },
            *final(self) == (GameState {
                my_offers: final(self).my_offers,
                my_accepted_offers: final(self).my_accepted_offers,
                incoming_trades: final(self).incoming_trades,
                ..*old(self)
            }),
    {
        strip_bid(&mut self.my_offers, offer_id, accepter_id);
        if self.player_id == Some(accepter_id) {
            retain_u64(&mut self.my_accepted_offers, offer_id);
            retain_incoming_other(&mut self.incoming_trades, offer_id);
        }
    }

    pub(crate) fn on_trade_declined(&mut self, offer_id: u64, proposer_id: PlayerId, decliner_id: PlayerId)
        ensures
            old(self).player_id == Some(proposer_id) ==> bids_rewritten(
                old(self).my_offers@,
                final(self).my_offers@,
                offer_id,
                |a: Seq<PlayerId>| keep(a, |y: PlayerId| y != decliner_id),
                |d: Seq<PlayerId>| with_player(d, decliner_id),
            ),
            old(self).player_id != Some(proposer_id) ==> final(self).my_offers == old(self).my_offers,
            final(self).my_accepted_offers@ == if old(self).player_id == Some(decliner_id) {
                keep(old(self).my_accepted_offers@, |x: u64| x != offer_id)
            } else {
                old(self).my_accepted_offers@
            },
            final(self).incoming_trades@ == if old(self).player_id == Some(decliner_id) {
                keep(old(self).incoming_trades@, |t: PendingTradeOffer| t.offer_id != offer_id)
            } else {
                old(self).incoming_trades@
            },
            crate::events::logged(*old(self), *final(self), name_of(old(self).players@, decliner_id) + " declined the trade"@),
            *final(self) == (GameState {
                my_offers: final(self).my_offers,
                my_accepted_offers: final(self).my_accepted_offers,
                incoming_trades: final(self).incoming_trades,
                messages: final(self).messages,
                ..*old(self)
            }),
    {
        let name = self.player_name(decliner_id);
        if self.player_id == Some(proposer_id) {
            record_refusal(&mut self.my_offers, offer_id, decliner_id);
        }
        if self.player_id == Some(decliner_id) {
            retain_incoming_other(&mut self.incoming_trades, offer_id);
            retain_u64(&mut self.my_accepted_offers, offer_id);
        }
        self.log(crate::narration::name_then(name, " declined the trade"));
    }

    pub(crate) fn on_trade_cancelled(&mut self, offer_id: u64)
        ensures
            final(self).incoming_trades@ == keep(
                keep(old(self).incoming_trades@, |t: PendingTradeOffer| t.offer_id != offer_id),
                |t: PendingTradeOffer| t.counters != Some(offer_id),
            ),
            final(self).my_accepted_offers@ == keep(old(self).my_accepted_offers@, |x: u64| x != offer_id),
            final(self).my_counter_offers@ == keep(
                old(self).my_counter_offers@,
                |c: (u64, u64)| c.0 != offer_id && c.1 != offer_id,
            ),
            final(self).my_offers@ == keep(old(self).my_offers@, |o: MyOffer| o.offer_id != offer_id),
            (exists|k: int| 0 <= k < old(self).my_offers@.len() && #[trigger] old(self).my_offers@[k].offer_id == offer_id)
                ==> crate::events::logged(*old(self), *final(self), "Your trade offer closed."@),
            !(exists|k: int| 0 <= k < old(self).my_offers@.len() && #[trigger] old(self).my_offers@[k].offer_id == offer_id)
                ==> crate::events::log_kept(*old(self), *final(self)),
            *final(self) == (GameState {
                incoming_trades: final(self).incoming_trades,
                my_accepted_offers: final(self).my_accepted_offers,
                my_counter_offers: final(self).my_counter_offers,
                my_offers: final(self).my_offers,
                messages: final(self).messages,
                ..*old(self)
            }),
    {
        retain_incoming_other(&mut self.incoming_trades, offer_id);
        retain_u64(&mut self.my_accepted_offers, offer_id);
        self.forget_counters(offer_id);
        let was_mine = find_offer(&self.my_offers, offer_id).is_some();
        proof {
            if exists|k: int| 0 <= k < old(self).my_offers@.len() && #[trigger] old(self).my_offers@[k].offer_id == offer_id {
                let k = choose|k: int| 0 <= k < old(self).my_offers@.len() && #[trigger] old(self).my_offers@[k].offer_id == offer_id;
                if !was_mine {
                    lemma_offer_pos_none(old(self).my_offers@, offer_id, k);
                }
            }
            if was_mine {
                lemma_offer_pos_some(old(self).my_offers@, offer_id);
            }
        }
        if was_mine {
            retain_offers_other(&mut self.my_offers, offer_id);
            self.log(String::from_str("Your trade offer closed."));
        } else {
            proof {
                assert(keep(old(self).my_offers@, |o: MyOffer| o.offer_id != offer_id) == old(self).my_offers@) by {
                    lemma_keep_all(old(self).my_offers@, |o: MyOffer| o.offer_id != offer_id);
                }
            }
        }
    }
}

/// An incoming offer survives the closing of `ids`: it is none of them and
/// counters none of them.
pub open spec fn survives_incoming(ids: Seq<u64>, t: PendingTradeOffer) -> bool {
    !ids.contains(t.offer_id) && !(t.counters is Some && ids.contains(t.counters.unwrap()))
}

/// A counter record survives the closing of `ids`.
pub open spec fn survives_counter(ids: Seq<u64>, c: (u64, u64)) -> bool {
    !ids.contains(c.0) && !ids.contains(c.1)
}

/// What the four trade lists hold once the ids in `ids` are closed.
pub open spec fn closed_lists(orig: GameState, ids: Seq<u64>, now: GameState) -> bool {
    &&& now.incoming_trades@ == keep(orig.incoming_trades@, |t: PendingTradeOffer| survives_incoming(ids, t))
    &&& now.my_accepted_offers@ == keep(orig.my_accepted_offers@, |x: u64| !ids.contains(x))
    &&& now.my_counter_offers@ == keep(orig.my_counter_offers@, |c: (u64, u64)| survives_counter(ids, c))
    &&& now.my_offers@ == keep(orig.my_offers@, |o: MyOffer| !ids.contains(o.offer_id))
}

impl GameState {
    /// Closes one more offer id in every trade list.
    fn close_offer_id(&mut self, id: u64, Ghost(orig): Ghost<GameState>, Ghost(before): Ghost<Seq<u64>>)
        requires
            closed_lists(orig, before, *old(self)),
        ensures
            closed_lists(orig, before.push(id), *final(self)),
            *final(self) == (GameState {
                incoming_trades: final(self).incoming_trades,
                my_accepted_offers: final(self).my_accepted_offers,
                my_counter_offers: final(self).my_counter_offers,
                my_offers: final(self).my_offers,
                ..*old(self)
            }),
    {
        let ghost after = before.push(id);
        proof {
            assert forall|y: u64| #[trigger] after.contains(y) == (before.contains(y) || y == id) by {
                if after.contains(y) {
                    let k = choose|k: int| 0 <= k < after.len() && after[k] == y;
                    if k < before.len() {
                        assert(before[k] == y);
                    }
                }
                if before.contains(y) {
                    let k = choose|k: int| 0 <= k < before.len() && before[k] == y;
                    assert(after[k] == y);
                }
                if y == id {
                    assert(after[before.len() as int] == y);
                }
            }
        }
        retain_incoming_other(&mut self.incoming_trades, id);
        retain_u64(&mut self.my_accepted_offers, id);
        self.forget_counters(id);
        retain_offers_other(&mut self.my_offers, id);
        proof {
            let p0 = |t: PendingTradeOffer| survives_incoming(before, t);
            let p1 = |t: PendingTradeOffer| t.offer_id != id;
            let p2 = |t: PendingTradeOffer| t.counters != Some(id);
            let p01 = |t: PendingTradeOffer| p0(t) && p1(t);
            let p3 = |t: PendingTradeOffer| survives_incoming(after, t);
            lemma_keep_keep(orig.incoming_trades@, p0, p1, p01);
            lemma_keep_keep(orig.incoming_trades@, p01, p2, p3);
            lemma_keep_keep(
                orig.my_accepted_offers@,
                |x: u64| !before.contains(x),
                |x: u64| x != id,
                |x: u64| !after.contains(x),
            );
            lemma_keep_keep(
                orig.my_counter_offers@,
                |c: (u64, u64)| survives_counter(before, c),
                |c: (u64, u64)| c.0 != id && c.1 != id,
                |c: (u64, u64)| survives_counter(after, c),
            );
            lemma_keep_keep(
                orig.my_offers@,
                |o: MyOffer| !before.contains(o.offer_id),
                |o: MyOffer| o.offer_id != id,
                |o: MyOffer| !after.contains(o.offer_id),
            );
        }
    }

    /// A trade went through: the offer and every offer closed with it leave
    /// each list, and the log says who traded with whom.
    pub(crate) fn on_trade_completed(
        &mut self,
        offer_id: u64,
        proposer_id: PlayerId,
        accepter_id: PlayerId,
        also_closed: Vec<u64>,
    )
        ensures
            closed_lists(*old(self), seq![offer_id] + also_closed@, *final(self)),
            crate::events::logged(
                *old(self),
                *final(self),
                crate::narration::completed_line(name_of(old(self).players@, proposer_id), name_of(old(self).players@, accepter_id)),
            ),
            *final(self) == (GameState {
                incoming_trades: final(self).incoming_trades,
                my_accepted_offers: final(self).my_accepted_offers,
                my_counter_offers: final(self).my_counter_offers,
                my_offers: final(self).my_offers,
                messages: final(self).messages,
                ..*old(self)
            }),
    {
        let ghost ids = seq![offer_id] + also_closed@;
        let ghost orig = *self;
        proof {
            let e = Seq::<u64>::empty();
            lemma_keep_all(orig.incoming_trades@, |t: PendingTradeOffer| survives_incoming(e, t));
            lemma_keep_all(orig.my_accepted_offers@, |x: u64| !e.contains(x));
            lemma_keep_all(orig.my_counter_offers@, |c: (u64, u64)| survives_counter(e, c));
            lemma_keep_all(orig.my_offers@, |o: MyOffer| !e.contains(o.offer_id));
            assert(e.push(offer_id) =~= ids.take(1));
        }
        self.close_offer_id(offer_id, Ghost(orig), Ghost(Seq::<u64>::empty()));
        let n = also_closed.len();
        let mut i: usize = 0;
        while i < n
            invariant
                n == also_closed@.len(),
                ids == seq![offer_id] + also_closed@,
                i <= n,
                closed_lists(orig, ids.take(i + 1), *self),
                *self == (GameState {
                    incoming_trades: self.incoming_trades,
                    my_accepted_offers: self.my_accepted_offers,
                    my_counter_offers: self.my_counter_offers,
                    my_offers: self.my_offers,
                    ..orig
                }),
            decreases n - i,
        {
            let id = also_closed[i];
            proof {
                assert(ids.take(i + 1).push(id) =~= ids.take(i + 2));
            }
            self.close_offer_id(id, Ghost(orig), Ghost(ids.take(i + 1)));
            i = i + 1;
        }
        proof {
            assert(ids.take(n + 1) =~= ids);
        }
        let p_name = self.player_name(proposer_id);
        let a_name = self.player_name(accepter_id);
        self.log(crate::narration::completed_text(p_name, a_name));
    }
}

/// An offer id found at position `k` means `offer_pos` finds one.
proof fn lemma_offer_pos_none(offers: Seq<MyOffer>, id: u64, k: int)
    requires
        0 <= k < offers.len(),
        offers[k].offer_id == id,
    ensures
        offer_pos(offers, id) >= 0,
    decreases offers.len(),
{
    if k > 0 && offers[0].offer_id != id {
        lemma_offer_pos_none(offers.drop_first(), id, k - 1);
    }
}

/// `offer_pos` finds an offer with that id.
proof fn lemma_offer_pos_some(offers: Seq<MyOffer>, id: u64)
    requires
        offer_pos(offers, id) >= 0,
    ensures
        offer_pos(offers, id) < offers.len(),
        offers[offer_pos(offers, id)].offer_id == id,
    decreases offers.len(),
{
    if offers.len() > 0 && offers[0].offer_id != id {
        lemma_offer_pos_some(offers.drop_first(), id);
    }
}

/// Keeping with a test everything passes keeps everything.
pub proof fn lemma_keep_all<A>(s: Seq<A>, p: spec_fn(A) -> bool)
    requires
        forall|i: int| 0 <= i < s.len() ==> p(#[trigger] s[i]),
    ensures
        keep(s, p) == s,
    decreases s.len(),
{
    if s.len() > 0 {
        lemma_keep_all(s.drop_last(), p);
        assert(s.drop_last().push(s.last()) =~= s);
    }
}

} // verus!
