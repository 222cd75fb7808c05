//! The bid lists of this client's offers stay clean whatever the server
//! sends: nobody is listed twice, nobody both bids and refuses, and no offer
//! is marked as taken twice.

use vstd::prelude::*;
use crate::client::{GameState, MyOffer};
use crate::dispatch::handled;
use crate::lists::{keep, lemma_keep_contains};
use crate::protocol::ServerMessage;
use crate::rules::{PlayerId, TradeSnapshot};
use crate::trades::{
    bids_rewritten, is_own_offer, lemma_sort_by_id, offer_pos, offer_restored, restored_accepted, restored_mine,
    with_id, with_player,
};

verus! {

/// No entry of `s` stands twice.
pub open spec fn no_dups<A>(s: Seq<A>) -> bool {
    forall|i: int, j: int| 0 <= i < j < s.len() ==> s[i] != s[j]
}

/// An offer's bids are clean: no bidder twice, no refusal twice, and
/// nobody among both.
pub open spec fn bids_clean(o: MyOffer) -> bool {
    &&& no_dups(o.accepters@)
    &&& no_dups(o.decliners@)
    &&& forall|i: int| 0 <= i < o.accepters@.len() ==> !o.decliners@.contains(#[trigger] o.accepters@[i])
}

/// Every offer of this client has clean bids, and no offer is marked as
/// taken twice.
pub open spec fn trade_lists_clean(s: GameState) -> bool {
    &&& forall|k: int| 0 <= k < s.my_offers@.len() ==> bids_clean(#[trigger] s.my_offers@[k])
    &&& no_dups(s.my_accepted_offers@)
}

/// A full resync can be taken as it stands: no offer comes twice and no
/// offer lists a bidder twice.
pub open spec fn sync_clean(msg: ServerMessage) -> bool {
    match msg {
        ServerMessage::FullStateSync { pending_trades, .. } => {
            &&& forall|i: int, j: int|
                0 <= i < j < pending_trades@.len() ==> #[trigger] pending_trades@[i].offer_id
                    != #[trigger] pending_trades@[j].offer_id
            &&& forall|i: int| 0 <= i < pending_trades@.len() ==> no_dups(#[trigger] pending_trades@[i].accepted_by@)
        },
        _ => true,
    }
}

/// Keeping some entries of a list with none twice leaves none twice.
proof fn lemma_keep_no_dups<A>(s: Seq<A>, p: spec_fn(A) -> bool)
    requires
        no_dups(s),
    ensures
        no_dups(keep(s, p)),
    decreases s.len(),
{
    if s.len() > 0 {
        let t = s.drop_last();
        assert(no_dups(t)) by {
            assert forall|i: int, j: int| 0 <= i < j < t.len() implies t[i] != t[j] by {
                assert(t[i] == s[i] && t[j] == s[j]);
            }
        }
        lemma_keep_no_dups(t, p);
        lemma_keep_contains(t, p, s.last());
        if t.contains(s.last()) {
            let i = choose|i: int| 0 <= i < t.len() && t[i] == s.last();
            assert(s[i] == s[s.len() - 1]);
        }
    }
}

/// Adding an entry not already there to a list with none twice leaves
/// none twice.
proof fn lemma_push_no_dups<A>(s: Seq<A>, x: A)
    requires
        no_dups(s),
        !s.contains(x),
    ensures
        no_dups(s.push(x)),
{
    assert forall|i: int, j: int| 0 <= i < j < s.push(x).len() implies s.push(x)[i] != s.push(x)[j] by {
        if j == s.len() {
            assert(s.push(x)[i] == s[i]);
        } else {
            assert(s.push(x)[i] == s[i] && s.push(x)[j] == s[j]);
        }
    }
}

/// A list with `x` added unless it is there has none twice when the list
/// had none, and holds exactly the old entries and `x`.
proof fn lemma_with_player(v: Seq<PlayerId>, x: PlayerId)
    requires
        no_dups(v),
    ensures
        no_dups(with_player(v, x)),
        forall|y: PlayerId| with_player(v, x).contains(y) <==> (v.contains(y) || y == x),
{
    if !v.contains(x) {
        lemma_push_no_dups(v, x);
        assert forall|y: PlayerId| v.push(x).contains(y) <==> (v.contains(y) || y == x) by {
            if v.push(x).contains(y) {
                let i = choose|i: int| 0 <= i < v.push(x).len() && v.push(x)[i] == y;
                if i < v.len() {
                    assert(v[i] == y);
                }
            }
            if v.contains(y) {
                let i = choose|i: int| 0 <= i < v.len() && v[i] == y;
                assert(v.push(x)[i] == y);
            }
            if y == x {
                assert(v.push(x)[v.len() as int] == y);
            }
        }
    }
}

/// Bids rewritten on one offer stay clean when the rewrite keeps the offer's
/// lists clean.
proof fn lemma_rewrite_clean(
    before: Seq<MyOffer>,
    after: Seq<MyOffer>,
    id: u64,
    acc: spec_fn(Seq<PlayerId>) -> Seq<PlayerId>,
    dec: spec_fn(Seq<PlayerId>) -> Seq<PlayerId>,
)
    requires
        forall|k: int| 0 <= k < before.len() ==> bids_clean(#[trigger] before[k]),
        bids_rewritten(before, after, id, acc, dec),
        offer_pos(before, id) >= 0 ==> offer_pos(before, id) < before.len() && ({
            let o = before[offer_pos(before, id)];
            let a = acc(o.accepters@);
            let d = dec(o.decliners@);
            no_dups(a) && no_dups(d) && forall|i: int| 0 <= i < a.len() ==> !d.contains(#[trigger] a[i])
        }),
    ensures
        forall|k: int| 0 <= k < after.len() ==> bids_clean(#[trigger] after[k]),
{
    let p = offer_pos(before, id);
    if p >= 0 {
        assert forall|k: int| 0 <= k < after.len() implies bids_clean(#[trigger] after[k]) by {
            if k != p {
                assert(after[k] == before[k]);
            } else {
                assert(after[k].accepters@ == acc(before[p].accepters@));
                assert(after[k].decliners@ == dec(before[p].decliners@));
            }
        }
    }
}

/// Where offer `id` sits among the offers, when it is there.
proof fn lemma_offer_pos_range(offers: Seq<MyOffer>, id: u64)
    ensures
        offer_pos(offers, id) < offers.len(),
        offer_pos(offers, id) >= -1,
    decreases offers.len(),
{
    if offers.len() > 0 && offers[0].offer_id != id {
        lemma_offer_pos_range(offers.drop_first(), id);
    }
}

/// Dropping some offers keeps the rest clean.
proof fn lemma_keep_offers_clean(s: Seq<MyOffer>, p: spec_fn(MyOffer) -> bool)
    requires
        forall|k: int| 0 <= k < s.len() ==> bids_clean(#[trigger] s[k]),
    ensures
        forall|k: int| 0 <= k < keep(s, p).len() ==> bids_clean(#[trigger] keep(s, p)[k]),
{
    assert forall|k: int| 0 <= k < keep(s, p).len() implies bids_clean(#[trigger] keep(s, p)[k]) by {
        let o = keep(s, p)[k];
        assert(keep(s, p).contains(o));
        lemma_keep_contains(s, p, o);
        let i = choose|i: int| 0 <= i < s.len() && s[i] == o;
        assert(bids_clean(s[i]));
    }
}

/// The offers taken back after a resync are offers of the resync, so none
/// repeats, and their ids are distinct offers' ids.
proof fn lemma_restored_accepted(snaps: Seq<TradeSnapshot>, me: PlayerId)
    requires
        forall|i: int, j: int| 0 <= i < j < snaps.len() ==> #[trigger] snaps[i].offer_id != #[trigger] snaps[j].offer_id,
    ensures
        no_dups(restored_accepted(snaps, me)),
        forall|x: u64|
            restored_accepted(snaps, me).contains(x) ==> exists|i: int| 0 <= i < snaps.len() && #[trigger] snaps[i].offer_id == x,
    decreases snaps.len(),
{
    if snaps.len() > 0 {
        let t = snaps.drop_last();
        assert forall|i: int, j: int| 0 <= i < j < t.len() implies #[trigger] t[i].offer_id != #[trigger] t[j].offer_id by {
            assert(t[i] == snaps[i] && t[j] == snaps[j]);
        }
        lemma_restored_accepted(t, me);
        let r = restored_accepted(t, me);
        let x = snaps.last().offer_id;
        assert forall|y: u64| r.contains(y) implies exists|i: int| 0 <= i < snaps.len() && #[trigger] snaps[i].offer_id == y by {
            let i = choose|i: int| 0 <= i < t.len() && #[trigger] t[i].offer_id == y;
            assert(snaps[i] == t[i]);
        }
        if snaps.last().accepted_by@.contains(me) {
            if r.contains(x) {
                let i = choose|i: int| 0 <= i < t.len() && #[trigger] t[i].offer_id == x;
                assert(snaps[i] == t[i]);
                assert(snaps[i].offer_id != snaps[snaps.len() - 1].offer_id);
            }
            lemma_push_no_dups(r, x);
            assert forall|y: u64| r.push(x).contains(y) implies exists|i: int|
                0 <= i < snaps.len() && #[trigger] snaps[i].offer_id == y by {
                let k = choose|k: int| 0 <= k < r.push(x).len() && r.push(x)[k] == y;
                if k < r.len() {
                    assert(r[k] == y);
                    assert(r.contains(y));
                } else {
                    assert(snaps[snaps.len() - 1].offer_id == y);
                }
            }
        }
    }
}

/// The offers rebuilt from a resync have clean bids: their bidders are the
/// resync's, with none twice, and nobody has refused yet.
proof fn lemma_restored_offers_clean(snaps: Seq<TradeSnapshot>, me: PlayerId, mine: Seq<MyOffer>)
    requires
        forall|i: int| 0 <= i < snaps.len() ==> no_dups(#[trigger] snaps[i].accepted_by@),
        mine.len() == restored_mine(snaps, me).len(),
        forall|k: int| 0 <= k < mine.len() ==> offer_restored(#[trigger] mine[k], restored_mine(snaps, me)[k]),
    ensures
        forall|k: int| 0 <= k < mine.len() ==> bids_clean(#[trigger] mine[k]),
{
    broadcast use vstd::seq_lib::group_to_multiset_ensures;
    let own = keep(snaps, |s: TradeSnapshot| is_own_offer(s, me));
    lemma_sort_by_id(own);
    assert forall|k: int| 0 <= k < mine.len() implies bids_clean(#[trigger] mine[k]) by {
        let sn = restored_mine(snaps, me)[k];
        assert(restored_mine(snaps, me).to_multiset().contains(sn));
        assert(own.to_multiset().contains(sn));
        assert(own.contains(sn));
        lemma_keep_contains(snaps, |s: TradeSnapshot| is_own_offer(s, me), sn);
        let i = choose|i: int| 0 <= i < snaps.len() && snaps[i] == sn;
        assert(no_dups(snaps[i].accepted_by@));
        assert(offer_restored(mine[k], sn));
        assert(mine[k].decliners@.len() == 0);
    }
}

/// Whatever message arrives, the bid lists of this client's offers stay
/// clean: no bidder or refusal listed twice on an offer, nobody both bidding
/// and refusing, and no offer marked as taken twice. A resync is taken as it
/// comes, so it must itself repeat no offer and no bidder.
pub proof fn law_bid_lists_stay_clean(before: GameState, msg: ServerMessage, now: i64, after: GameState)
    requires
        trade_lists_clean(before),
        sync_clean(msg),
        handled(before, msg, now, after),
    ensures
        trade_lists_clean(after),
{
    let offers = before.my_offers@;
    let taken = before.my_accepted_offers@;
    lemma_keep_offers_clean(offers, |o: MyOffer| true);
    match msg {
        ServerMessage::TradeProposed { offer_id, proposer_id, counters, .. } => {
            if before.player_id == Some(proposer_id) && counters is None {
                let kept = keep(offers, |o: MyOffer| o.offer_id != offer_id);
                lemma_keep_offers_clean(offers, |o: MyOffer| o.offer_id != offer_id);
                let a = after.my_offers@;
                assert(a =~= a.drop_last().push(a.last()));
                assert forall|k: int| 0 <= k < a.len() implies bids_clean(#[trigger] a[k]) by {
                    if k < a.len() - 1 {
                        assert(a[k] == kept[k]);
                    }
                }
            } else if counters is Some && before.player_id != Some(proposer_id) {
                lemma_offer_pos_range(offers, counters.unwrap());
                let p = offer_pos(offers, counters.unwrap());
                if p >= 0 {
                    let o = offers[p];
                    assert(bids_clean(o));
                    lemma_keep_no_dups(o.accepters@, |y: PlayerId| y != proposer_id);
                    let ka = keep(o.accepters@, |y: PlayerId| y != proposer_id);
                    assert forall|i: int| 0 <= i < ka.len() implies !o.decliners@.contains(#[trigger] ka[i]) by {
                        assert(ka.contains(ka[i]));
                        lemma_keep_contains(o.accepters@, |y: PlayerId| y != proposer_id, ka[i]);
                        let j = choose|j: int| 0 <= j < o.accepters@.len() && o.accepters@[j] == ka[i];
                        assert(!o.decliners@.contains(o.accepters@[j]));
                    }
                }
                lemma_rewrite_clean(
                    offers,
                    after.my_offers@,
                    counters.unwrap(),
                    |a: Seq<PlayerId>| keep(a, |y: PlayerId| y != proposer_id),
                    |d: Seq<PlayerId>| d,
                );
            }
            match counters {
                Some(orig) => {
                    lemma_keep_no_dups(taken, |x: u64| x != orig);
                },
                None => {},
            }
        },
        ServerMessage::TradeAccepted { offer_id, accepter_id, .. } => {
            lemma_offer_pos_range(offers, offer_id);
            let p = offer_pos(offers, offer_id);
            if p >= 0 {
                let o = offers[p];
                assert(bids_clean(o));
                lemma_with_player(o.accepters@, accepter_id);
                lemma_keep_no_dups(o.decliners@, |y: PlayerId| y != accepter_id);
                let a = with_player(o.accepters@, accepter_id);
                let d = keep(o.decliners@, |y: PlayerId| y != accepter_id);
                assert forall|i: int| 0 <= i < a.len() implies !d.contains(#[trigger] a[i]) by {
                    assert(a.contains(a[i]));
                    lemma_keep_contains(o.decliners@, |y: PlayerId| y != accepter_id, a[i]);
                    if a[i] != accepter_id {
                        assert(o.accepters@.contains(a[i]));
                        let j = choose|j: int| 0 <= j < o.accepters@.len() && o.accepters@[j] == a[i];
                        assert(!o.decliners@.contains(o.accepters@[j]));
                    }
                }
            }
            lemma_rewrite_clean(
                offers,
                after.my_offers@,
                offer_id,
                |a: Seq<PlayerId>| with_player(a, accepter_id),
                |d: Seq<PlayerId>| keep(d, |y: PlayerId| y != accepter_id),
            );
            if before.player_id == Some(accepter_id) && !taken.contains(offer_id) {
                lemma_push_no_dups(taken, offer_id);
            }
            assert(after.my_accepted_offers@ == with_id(taken, offer_id) || after.my_accepted_offers@ == taken);
        },
        ServerMessage::TradeAcceptanceWithdrawn { offer_id, accepter_id, .. } => {
            lemma_offer_pos_range(offers, offer_id);
            let p = offer_pos(offers, offer_id);
            if p >= 0 {
                let o = offers[p];
                assert(bids_clean(o));
                lemma_keep_no_dups(o.accepters@, |y: PlayerId| y != accepter_id);
                let ka = keep(o.accepters@, |y: PlayerId| y != accepter_id);
                assert forall|i: int| 0 <= i < ka.len() implies !o.decliners@.contains(#[trigger] ka[i]) by {
                    assert(ka.contains(ka[i]));
                    lemma_keep_contains(o.accepters@, |y: PlayerId| y != accepter_id, ka[i]);
                    let j = choose|j: int| 0 <= j < o.accepters@.len() && o.accepters@[j] == ka[i];
                    assert(!o.decliners@.contains(o.accepters@[j]));
                }
            }
            lemma_rewrite_clean(
                offers,
                after.my_offers@,
                offer_id,
                |a: Seq<PlayerId>| keep(a, |y: PlayerId| y != accepter_id),
                |d: Seq<PlayerId>| d,
            );
            lemma_keep_no_dups(taken, |x: u64| x != offer_id);
        },
        ServerMessage::TradeDeclined { offer_id, proposer_id, decliner_id, .. } => {
            if before.player_id == Some(proposer_id) {
                lemma_offer_pos_range(offers, offer_id);
                let p = offer_pos(offers, offer_id);
                if p >= 0 {
                    let o = offers[p];
                    assert(bids_clean(o));
                    lemma_keep_no_dups(o.accepters@, |y: PlayerId| y != decliner_id);
                    lemma_with_player(o.decliners@, decliner_id);
                    let a = keep(o.accepters@, |y: PlayerId| y != decliner_id);
                    let d = with_player(o.decliners@, decliner_id);
                    assert forall|i: int| 0 <= i < a.len() implies !d.contains(#[trigger] a[i]) by {
                        assert(a.contains(a[i]));
                        lemma_keep_contains(o.accepters@, |y: PlayerId| y != decliner_id, a[i]);
                        let j = choose|j: int| 0 <= j < o.accepters@.len() && o.accepters@[j] == a[i];
                        assert(!o.decliners@.contains(o.accepters@[j]));
                    }
                }
                lemma_rewrite_clean(
                    offers,
                    after.my_offers@,
                    offer_id,
                    |a: Seq<PlayerId>| keep(a, |y: PlayerId| y != decliner_id),
                    |d: Seq<PlayerId>| with_player(d, decliner_id),
                );
            }
            lemma_keep_no_dups(taken, |x: u64| x != offer_id);
        },
        ServerMessage::TradeCompleted { offer_id, also_closed, .. } => {
            let ids = seq![offer_id] + also_closed@;
            lemma_keep_offers_clean(offers, |o: MyOffer| !ids.contains(o.offer_id));
            lemma_keep_no_dups(taken, |x: u64| !ids.contains(x));
        },
        ServerMessage::TradeCancelled { offer_id, .. } => {
            lemma_keep_offers_clean(offers, |o: MyOffer| o.offer_id != offer_id);
            lemma_keep_no_dups(taken, |x: u64| x != offer_id);
        },
        ServerMessage::FullStateSync { player_id, pending_trades, .. } => {
            lemma_restored_accepted(pending_trades@, player_id);
            lemma_restored_offers_clean(pending_trades@, player_id, after.my_offers@);
        },
        _ => {},
    }
}

} // verus!
