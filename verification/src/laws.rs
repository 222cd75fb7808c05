//! Properties the library keeps across calls and inputs, each proved.

use vstd::prelude::*;
use crate::client::{GameState, may_build_now, my_special_build};
use crate::controls::{DiscardPrompt, ticked, asked_one_more, first_spare, partner_pick, pip_count, plenty_after, topped_up, with_one_more};
use crate::dispatch::handled;
use crate::hand::{Basket, MAX_ASK_PER_KIND, basket_resources, resources_basket, spread_of};
use crate::lists::lemma_keep_passes;
use crate::payout::{pay_corners, pay_hexes, pay_pieces, payout, produces, Payment};
use crate::protocol::ServerMessage;
use crate::rules::{
    BuildingInfo, GamePhase, HexInfo, MAX_PLAYERS, PlayerId, Resources, ResourceType, StructureType, card_order,
    card_slot, deck_size, palette, rules_for, special_builder_of,
};

verus! {

/// A roll of seven pays nobody anything.
pub proof fn law_seven_pays_nothing(s: GameState)
    ensures
        payout(s, 7).len() == 0,
{
}

/// Every card a piece pays on a hex comes off that hex, in its resource.
proof fn lemma_pieces_from_hex(bs: Seq<BuildingInfo>, v: (int, int), h: HexInfo, per: nat)
    ensures
        forall|i: int|
            0 <= i < pay_pieces(bs, v, h, per).len() ==> (#[trigger] pay_pieces(bs, v, h, per)[i]).0 == (h.q, h.r)
                && pay_pieces(bs, v, h, per)[i].2 == h.resource,
    decreases bs.len(),
{
    if bs.len() > 0 {
        lemma_pieces_from_hex(bs.drop_last(), v, h, per);
    }
}

/// Every card the corners of a hex pay comes off that hex, in its resource.
proof fn lemma_corners_from_hex(settlements: Seq<BuildingInfo>, cities: Seq<BuildingInfo>, h: HexInfo, n: int)
    ensures
        forall|i: int|
            0 <= i < pay_corners(settlements, cities, h, n).len() ==> (#[trigger] pay_corners(
                settlements,
                cities,
                h,
                n,
            )[i]).0 == (h.q, h.r) && pay_corners(settlements, cities, h, n)[i].2 == h.resource,
    decreases n,
{
    if n > 0 {
        lemma_corners_from_hex(settlements, cities, h, n - 1);
        lemma_pieces_from_hex(settlements, crate::board::corner(h, n - 1), h, 1);
        lemma_pieces_from_hex(cities, crate::board::corner(h, n - 1), h, 2);
        let a = pay_corners(settlements, cities, h, n - 1);
        let b = pay_pieces(settlements, crate::board::corner(h, n - 1), h, 1);
        let c = pay_pieces(cities, crate::board::corner(h, n - 1), h, 2);
        assert forall|i: int| 0 <= i < (a + b + c).len() implies (#[trigger] (a + b + c)[i]).0 == (h.q, h.r) && (a
            + b + c)[i].2 == h.resource by {
            if i < a.len() {
                assert((a + b + c)[i] == a[i]);
            } else if i < a.len() + b.len() {
                assert((a + b + c)[i] == b[i - a.len()]);
            } else {
                assert((a + b + c)[i] == c[i - a.len() - b.len()]);
            }
        }
    }
}

/// Whether a card comes off a hex of the board that produces on `total`,
/// and is that hex's resource.
pub open spec fn off_producing_hex(hexes: Seq<HexInfo>, total: u8, robber: Option<(i32, i32)>, p: Payment) -> bool {
    exists|j: int|
        0 <= j < hexes.len() && produces(#[trigger] hexes[j], total, robber) && p.0 == (hexes[j].q, hexes[j].r) && p.2
            == hexes[j].resource
}

/// Every card the board pays on a total comes off a hex that produces on it.
proof fn lemma_hexes_produce(
    hexes: Seq<HexInfo>,
    settlements: Seq<BuildingInfo>,
    cities: Seq<BuildingInfo>,
    robber: Option<(i32, i32)>,
    total: u8,
)
    ensures
        forall|i: int|
            0 <= i < pay_hexes(hexes, settlements, cities, robber, total).len() ==> off_producing_hex(
                hexes,
                total,
                robber,
                #[trigger] pay_hexes(hexes, settlements, cities, robber, total)[i],
            ),
    decreases hexes.len(),
{
    if hexes.len() > 0 {
        let rest = hexes.drop_last();
        lemma_hexes_produce(rest, settlements, cities, robber, total);
        let a = pay_hexes(rest, settlements, cities, robber, total);
        let h = hexes.last();
        lemma_corners_from_hex(settlements, cities, h, 6);
        let all = pay_hexes(hexes, settlements, cities, robber, total);
        assert forall|i: int| 0 <= i < all.len() implies off_producing_hex(hexes, total, robber, #[trigger] all[i]) by {
            if i < a.len() {
                assert(all[i] == a[i]);
                assert(off_producing_hex(rest, total, robber, a[i]));
                let j = choose|j: int|
                    0 <= j < rest.len() && produces(#[trigger] rest[j], total, robber) && a[i].0 == (rest[j].q, rest[j].r)
                        && a[i].2 == rest[j].resource;
                assert(hexes[j] == rest[j]);
            } else {
                let b = pay_corners(settlements, cities, h, 6);
                assert(all[i] == b[i - a.len()]);
                assert(hexes[hexes.len() - 1] == h);
            }
        }
    }
}

/// A roll pays only off hexes that produce on it: every card comes off a
/// hex of the board that carries the number rolled, is no desert, and does
/// not have the robber on it, and the card is that hex's resource.
pub proof fn law_payout_only_from_producing_hexes(s: GameState, total: u8, i: int)
    requires
        0 <= i < payout(s, total).len(),
    ensures
        off_producing_hex(s.hexes@, total, s.robber_pos, payout(s, total)[i]),
{
    lemma_hexes_produce(s.hexes@, s.settlements@, s.cities@, s.robber_pos, total);
}

/// A pile turned into the game's resource record and back is the same pile,
/// and so is a record turned into a pile and back.
pub proof fn law_basket_round_trip(b: Basket, r: Resources)
    ensures
        resources_basket(basket_resources(b)) == b,
        basket_resources(resources_basket(r)) == r,
{
}

/// Laying a pile out gives one card per card in it, kind by kind.
pub proof fn law_spread_counts(b: Basket)
    ensures
        spread_of(b).len() == b.wood + b.brick + b.sheep + b.wheat + b.ore,
{
}

/// A palette click never asks past the ceiling for one kind.
pub proof fn law_ask_ceiling(n: u8)
    ensures
        asked_one_more(n) <= MAX_ASK_PER_KIND,
        n < MAX_ASK_PER_KIND ==> asked_one_more(n) == n + 1,
{
}

/// Whether a pile takes no more of any kind than a hand holds.
pub open spec fn within_hand(bag: Basket, hand: Resources) -> bool {
    bag.wood <= hand.lumber && bag.brick <= hand.brick && bag.sheep <= hand.wool && bag.wheat <= hand.grain
        && bag.ore <= hand.ore
}

/// A discard topped up when time runs out never gives up a card the hand
/// does not hold, and adds at most the number of cards it was short.
pub proof fn law_auto_discard_within_hand(bag: Basket, short: nat, hand: Resources)
    requires
        within_hand(bag, hand),
    ensures
        within_hand(topped_up(bag, short, hand), hand),
        basket_sum(topped_up(bag, short, hand)) <= basket_sum(bag) + short,
    decreases short,
{
    if short > 0 {
        match first_spare(bag, hand) {
            Some(k) => {
                law_auto_discard_within_hand(with_one_more(bag, k), (short - 1) as nat, hand);
            },
            None => {},
        }
    }
}

/// The number of cards in a pile.
pub open spec fn basket_sum(b: Basket) -> int {
    b.wood + b.brick + b.sheep + b.wheat + b.ore
}

/// Year of Plenty never holds more than two picks.
pub proof fn law_plenty_at_most_two(picks: Seq<ResourceType>, r: ResourceType)
    requires
        picks.len() <= 2,
    ensures
        plenty_after(picks, r).len() <= 2,
        plenty_after(picks, r).len() > 0,
        plenty_after(picks, r).last() == r,
{
}

/// The bidder picked on an offer is always one of its bidders.
pub proof fn law_partner_is_a_bidder(accepters: Seq<PlayerId>, chosen: Option<PlayerId>)
    ensures
        partner_pick(accepters, chosen) matches Some(id) ==> accepters.contains(id),
{
    if accepters.len() == 1 {
        assert(accepters[0] == accepters[0]);
    }
}

/// Six and eight are the richest numbers and two and twelve the poorest: a
/// number and its mirror across seven show the same pips, and no number
/// shows more than six.
pub proof fn law_pips(n: u8, d: u8)
    requires
        1 <= d <= 5,
    ensures
        pip_count((7 - d) as u8) == pip_count((7 + d) as u8),
        pip_count(n) <= 6,
        pip_count(6) == 5 && pip_count(8) == 5,
        pip_count(2) == 1 && pip_count(12) == 1,
{
}

/// Building a city at a corner leaves no settlement standing there.
pub proof fn law_city_replaces_settlement(
    before: GameState,
    player_id: PlayerId,
    coords: (i32, i32),
    after: GameState,
    k: int,
)
    requires
        handled(
            before,
            ServerMessage::Built { player_id, structure_type: StructureType::City, coords },
            0,
            after,
        ),
        0 <= k < after.settlements@.len(),
    ensures
        !(after.settlements@[k].x == coords.0 && after.settlements@[k].y == coords.1),
{
    lemma_keep_passes(before.settlements@, |b: BuildingInfo| !(b.x == coords.0 && b.y == coords.1));
}

/// In the special building phase nobody rolls, and this client may build
/// only when it is the builder.
pub proof fn law_special_building_is_for_the_builder(s: GameState)
    requires
        special_builder_of(s.game_phase) is Some,
    ensures
        s.game_phase != GamePhase::RegularPlay,
        may_build_now(s) <==> my_special_build(s),
{
}
/// The palette has more colours than the largest table has seats, and no
/// colour twice, so even the last player to join has a real choice.
pub proof fn law_palette_outnumbers_seats()
    ensures
        palette().len() > MAX_PLAYERS,
        forall|i: int, j: int| 0 <= i < j < palette().len() ==> palette()[i] != palette()[j],
{
}

/// Each of the five cards sits in the tally slot its place in the card
/// order gives, and every resource but the desert has a slot.
pub proof fn law_card_slots_follow_card_order(r: ResourceType)
    ensures
        forall|k: int| 0 <= k < 5 ==> card_slot(#[trigger] card_order()[k]) == Some(k),
        r != ResourceType::Desert <==> card_slot(r) is Some,
        card_slot(r) matches Some(k) ==> card_order()[k] == r,
{
}

/// A bigger table never gets a smaller bank, a thinner deck or fewer
/// harbours; only a duel raises the target.
pub proof fn law_bigger_tables_get_more(a: int, b: int)
    requires
        a <= b,
    ensures
        rules_for(a).bank_per_resource <= rules_for(b).bank_per_resource,
        deck_size(rules_for(a)) <= deck_size(rules_for(b)),
        rules_for(a).port_count <= rules_for(b).port_count,
        rules_for(a).victory_points_to_win == if rules_for(a).player_count == 2 { 15int } else { 10int },
{
}

/// The discard countdown hands cards over at most once per prompt: a tick
/// that sends marks the prompt as sent, and a prompt marked sent sends
/// nothing on any later tick, whatever the hand or the count.
pub proof fn law_discard_sends_once_per_prompt(
    p: DiscardPrompt,
    prompted: bool,
    owed: u8,
    hand: Resources,
    later_prompted: bool,
    later_owed: u8,
    later_hand: Resources,
)
    ensures
        ticked(p, prompted, owed, hand).1 is Some ==> ticked(p, prompted, owed, hand).0.sent,
        p.sent ==> ticked(p, prompted, owed, hand).1 is None && ticked(p, prompted, owed, hand).0.sent,
        ticked(p, prompted, owed, hand).1 is Some ==> ticked(
            ticked(p, prompted, owed, hand).0,
            later_prompted,
            later_owed,
            later_hand,
        ).1 is None,
{
}


/// What each piece costs, kind by kind: a hand pays for a road with a wood
/// and a brick; for a settlement with a wood, a brick, a sheep and a wheat;
/// for a city with two wheat and three ore; for a development card with a
/// sheep, a wheat and an ore. A hand short of any of these cannot pay.
pub proof fn law_build_prices(hand: Resources)
    ensures
        crate::controls::covers(hand, crate::controls::road_price()) <==> (hand.lumber >= 1 && hand.brick >= 1),
        crate::controls::covers(hand, crate::controls::settlement_price()) <==> (hand.lumber >= 1 && hand.brick >= 1
            && hand.wool >= 1 && hand.grain >= 1),
        crate::controls::covers(hand, crate::controls::city_price()) <==> (hand.grain >= 2 && hand.ore >= 3),
        crate::controls::covers(hand, crate::controls::dev_card_price()) <==> (hand.wool >= 1 && hand.grain >= 1
            && hand.ore >= 1),
        forall|k: crate::hand::Res|
            crate::controls::covers(hand, crate::controls::settlement_price()) ==> #[trigger] crate::hand::held(
                k,
                hand,
            ) >= 1 || k == crate::hand::Res::Ore,
{
}

/// A hand covers a price when it holds at least the price of every kind.
pub proof fn law_covers_kind_by_kind(hand: Resources, cost: Basket)
    ensures
        crate::controls::covers(hand, cost) <==> forall|k: crate::hand::Res|
            crate::hand::in_basket(cost, k) <= #[trigger] crate::hand::held(k, hand),
{
    if forall|k: crate::hand::Res| crate::hand::in_basket(cost, k) <= #[trigger] crate::hand::held(k, hand) {
        assert(crate::hand::held(crate::hand::Res::Wood, hand) >= cost.wood);
        assert(crate::hand::held(crate::hand::Res::Brick, hand) >= cost.brick);
        assert(crate::hand::held(crate::hand::Res::Sheep, hand) >= cost.sheep);
        assert(crate::hand::held(crate::hand::Res::Wheat, hand) >= cost.wheat);
        assert(crate::hand::held(crate::hand::Res::Ore, hand) >= cost.ore);
    }
}

/// An offer can be met from a hand exactly when the hand holds at least as
/// many of every kind as the offer asks for.
pub proof fn law_holds_all_kind_by_kind(hand: Resources, asked: Resources)
    ensures
        crate::controls::holds_all(hand, asked) <==> forall|k: crate::hand::Res|
            crate::hand::held(k, asked) <= #[trigger] crate::hand::held(k, hand),
{
    if forall|k: crate::hand::Res| crate::hand::held(k, asked) <= #[trigger] crate::hand::held(k, hand) {
        assert(crate::hand::held(crate::hand::Res::Wood, hand) >= asked.lumber);
        assert(crate::hand::held(crate::hand::Res::Brick, hand) >= asked.brick);
        assert(crate::hand::held(crate::hand::Res::Sheep, hand) >= asked.wool);
        assert(crate::hand::held(crate::hand::Res::Wheat, hand) >= asked.grain);
        assert(crate::hand::held(crate::hand::Res::Ore, hand) >= asked.ore);
    }
}

/// The first place a card stands in a hand, found by `card_pos`.
proof fn lemma_card_pos_first(cards: Seq<crate::rules::DevCardType>, c: crate::rules::DevCardType)
    ensures
        cards.contains(c) <==> crate::events::card_pos(cards, c) >= 0,
        crate::events::card_pos(cards, c) >= 0 ==> crate::events::card_pos(cards, c) < cards.len() && cards[crate::events::card_pos(
            cards,
            c,
        )] == c && forall|j: int| 0 <= j < crate::events::card_pos(cards, c) ==> cards[j] != c,
    decreases cards.len(),
{
    if cards.len() > 0 {
        let t = cards.drop_first();
        lemma_card_pos_first(t, c);
        if cards[0] != c {
            if cards.contains(c) {
                let i = choose|i: int| 0 <= i < cards.len() && cards[i] == c;
                assert(t[i - 1] == c);
            }
            if t.contains(c) {
                let i = choose|i: int| 0 <= i < t.len() && t[i] == c;
                assert(cards[i + 1] == c);
            }
            let p = crate::events::card_pos(t, c);
            if p >= 0 {
                assert forall|j: int| 0 <= j < p + 1 implies cards[j] != c by {
                    if j > 0 {
                        assert(cards[j] == t[j - 1]);
                    }
                }
            }
        } else {
            assert(cards[0] == c);
        }
    }
}

/// Playing a development card takes one copy of it out of the hand, the
/// first, and leaves every other card where it was; a card not in the hand
/// leaves the hand as it is. Counted as a bag, the hand loses exactly that
/// one card.
pub proof fn law_played_card_leaves_hand(cards: Seq<crate::rules::DevCardType>, c: crate::rules::DevCardType)
    ensures
        !cards.contains(c) ==> crate::events::without_card(cards, c) == cards,
        cards.contains(c) ==> crate::events::without_card(cards, c).to_multiset() == cards.to_multiset().remove(c),
        cards.contains(c) ==> crate::events::without_card(cards, c).len() == cards.len() - 1,
        cards.contains(c) ==> exists|i: int|
            0 <= i < cards.len() && cards[i] == c && (forall|j: int| 0 <= j < i ==> cards[j] != c)
                && #[trigger] cards.remove(i) == crate::events::without_card(cards, c),
{
    broadcast use vstd::seq_lib::to_multiset_remove;
    lemma_card_pos_first(cards, c);
    if cards.contains(c) {
        let i = crate::events::card_pos(cards, c);
        assert(cards.remove(i).to_multiset() == cards.to_multiset().remove(cards[i]));
        assert(cards.remove(i) == crate::events::without_card(cards, c));
    }
}

/// A player sitting among the first `n` seats has a first seat, which is
/// where `seat_of` points.
proof fn lemma_first_seat_exists(ps: Seq<crate::rules::PlayerInfo>, id: PlayerId, n: int)
    requires
        0 <= n <= ps.len(),
        exists|k: int| 0 <= k < n && #[trigger] ps[k].player_id == id,
    ensures
        crate::client::is_first_seat(ps, id, crate::client::seat_of(ps, id)),
    decreases n,
{
    if exists|k: int| 0 <= k < n - 1 && #[trigger] ps[k].player_id == id {
        lemma_first_seat_exists(ps, id, n - 1);
    } else {
        assert(ps[n - 1].player_id == id);
        assert(crate::client::is_first_seat(ps, id, n - 1));
        crate::client::lemma_seat_of(ps, id, n - 1);
    }
}

/// A resource update sets the count of cards the roster shows for that
/// player to the number of cards in the new hand, and touches no other row.
pub proof fn law_resource_update_sets_card_count(
    before: GameState,
    player_id: PlayerId,
    resources: Resources,
    now: i64,
    after: GameState,
)
    requires
        resources.brick + resources.lumber + resources.wool + resources.grain + resources.ore <= u8::MAX,
        handled(before, ServerMessage::ResourceUpdate { player_id, resources }, now, after),
    ensures
        after.players@.len() == before.players@.len(),
        crate::client::seated(before.players@, player_id) ==> after.players@[crate::client::seat_of(
            before.players@,
            player_id,
        )].resource_count == resources.brick + resources.lumber + resources.wool + resources.grain + resources.ore,
        crate::client::seated(before.players@, player_id) ==> after.players@[crate::client::seat_of(
            before.players@,
            player_id,
        )].player_id == player_id,
        forall|j: int|
            0 <= j < before.players@.len() && !(crate::client::seated(before.players@, player_id) && j
                == crate::client::seat_of(before.players@, player_id)) ==> after.players@[j] == before.players@[j],
        before.player_id == Some(player_id) ==> after.my_resources == resources,
{
    if crate::client::seated(before.players@, player_id) {
        let k = crate::client::seat_of(before.players@, player_id);
        lemma_first_seat_exists(before.players@, player_id, before.players@.len() as int);
        assert(0 <= k < before.players@.len());
    }
}

/// An offer aimed at one player reaches nobody else: it never joins the
/// offers waiting for this client's answer unless it is open to all or
/// aimed at this client, and never when this client made it.
pub proof fn law_offers_reach_only_their_target(
    before: GameState,
    msg: ServerMessage,
    now: i64,
    after: GameState,
)
    requires
        handled(before, msg, now, after),
        msg is TradeProposed,
    ensures
        (match msg {
            ServerMessage::TradeProposed { proposer_id, target_player_id, .. } => {
                (target_player_id matches Some(t) && before.player_id != Some(t)) || before.player_id == Some(
                    proposer_id,
                ) ==> after.incoming_trades@ == before.incoming_trades@
            },
            _ => true,
        }),
        (match msg {
            ServerMessage::TradeProposed { offer_id, proposer_id, target_player_id, .. } => {
                (target_player_id is None || target_player_id == before.player_id) && before.player_id != Some(
                    proposer_id,
                ) ==> after.incoming_trades@.len() == before.incoming_trades@.len() + 1
                    && after.incoming_trades@.last().offer_id == offer_id
            },
            _ => true,
        }),
{
}

/// When a player plays a development card, the roster shows one card fewer
/// for them (none staying none), and when the player is this client, the
/// hand loses one copy of that card, the first, and nothing else.
pub proof fn law_playing_a_card(
    before: GameState,
    player_id: PlayerId,
    card_type: crate::rules::DevCardType,
    now: i64,
    after: GameState,
)
    requires
        handled(before, ServerMessage::DevCardPlayed { player_id, card_type }, now, after),
    ensures
        after.players@.len() == before.players@.len(),
        crate::client::seated(before.players@, player_id) ==> ({
            let k = crate::client::seat_of(before.players@, player_id);
            &&& after.players@[k].dev_card_count == if before.players@[k].dev_card_count > 0 {
                before.players@[k].dev_card_count - 1
            } else {
                0
            }
            &&& after.players@[k].player_id == player_id
            &&& after.players@[k].resource_count == before.players@[k].resource_count
        }),
        before.player_id == Some(player_id) && before.my_dev_cards@.contains(card_type) ==> after.my_dev_cards@.to_multiset()
            == before.my_dev_cards@.to_multiset().remove(card_type),
        before.player_id == Some(player_id) && !before.my_dev_cards@.contains(card_type) ==> after.my_dev_cards@
            == before.my_dev_cards@,
        before.player_id != Some(player_id) ==> after.my_dev_cards@ == before.my_dev_cards@,
{
    law_played_card_leaves_hand(before.my_dev_cards@, card_type);
    if crate::client::seated(before.players@, player_id) {
        lemma_first_seat_exists(before.players@, player_id, before.players@.len() as int);
    }
}

/// A bid on one of this client's offers puts the bidder among its bidders,
/// once, and off its refusals; a refusal does the reverse. Every other
/// offer stays as it was.
pub proof fn law_answers_move_between_lists(before: GameState, msg: ServerMessage, now: i64, after: GameState)
    requires
        handled(before, msg, now, after),
        msg is TradeAccepted || msg is TradeDeclined,
    ensures
        after.my_offers@.len() == before.my_offers@.len(),
        (match msg {
            ServerMessage::TradeAccepted { offer_id, accepter_id } => forall|k: int|
                0 <= k < before.my_offers@.len() ==> if k == crate::trades::offer_pos(before.my_offers@, offer_id) {
                    &&& after.my_offers@[k].offer_id == offer_id
                    &&& after.my_offers@[k].accepters@.contains(accepter_id)
                    &&& !after.my_offers@[k].decliners@.contains(accepter_id)
                    &&& forall|p: PlayerId|
                        p != accepter_id ==> (#[trigger] after.my_offers@[k].accepters@.contains(p)
                            == before.my_offers@[k].accepters@.contains(p) && after.my_offers@[k].decliners@.contains(p)
                            == before.my_offers@[k].decliners@.contains(p))
                } else {
                    after.my_offers@[k] == before.my_offers@[k]
                },
            ServerMessage::TradeDeclined { offer_id, proposer_id, decliner_id } => before.player_id == Some(proposer_id)
                ==> forall|k: int|
                0 <= k < before.my_offers@.len() ==> if k == crate::trades::offer_pos(before.my_offers@, offer_id) {
                    &&& after.my_offers@[k].offer_id == offer_id
                    &&& after.my_offers@[k].decliners@.contains(decliner_id)
                    &&& !after.my_offers@[k].accepters@.contains(decliner_id)
                    &&& forall|p: PlayerId|
                        p != decliner_id ==> (#[trigger] after.my_offers@[k].accepters@.contains(p)
                            == before.my_offers@[k].accepters@.contains(p) && after.my_offers@[k].decliners@.contains(p)
                            == before.my_offers@[k].decliners@.contains(p))
                } else {
                    after.my_offers@[k] == before.my_offers@[k]
                },
            _ => true,
        }),
{
    let offers = before.my_offers@;
    match msg {
        ServerMessage::TradeAccepted { offer_id, accepter_id } => {
            let p = crate::trades::offer_pos(offers, offer_id);
            lemma_offer_pos_is(offers, offer_id);
            if p >= 0 {
                let o = offers[p];
                lemma_with_player_holds(o.accepters@, accepter_id);
                let kd = crate::lists::keep(o.decliners@, |y: PlayerId| y != accepter_id);
                assert forall|x: PlayerId| #[trigger] kd.contains(x) == (o.decliners@.contains(x) && x != accepter_id) by {
                    crate::lists::lemma_keep_contains(o.decliners@, |y: PlayerId| y != accepter_id, x);
                }
            }
        },
        ServerMessage::TradeDeclined { offer_id, proposer_id, decliner_id } => {
            if before.player_id == Some(proposer_id) {
                let p = crate::trades::offer_pos(offers, offer_id);
                lemma_offer_pos_is(offers, offer_id);
                if p >= 0 {
                    let o = offers[p];
                    lemma_with_player_holds(o.decliners@, decliner_id);
                    let ka = crate::lists::keep(o.accepters@, |y: PlayerId| y != decliner_id);
                    assert forall|x: PlayerId| #[trigger] ka.contains(x) == (o.accepters@.contains(x) && x != decliner_id) by {
                        crate::lists::lemma_keep_contains(o.accepters@, |y: PlayerId| y != decliner_id, x);
                    }
                }
            }
        },
        _ => {},
    }
}

/// Where offer `id` sits, when it is among the offers: a real position
/// holding that id.
proof fn lemma_offer_pos_is(offers: Seq<crate::client::MyOffer>, id: u64)
    ensures
        -1 <= crate::trades::offer_pos(offers, id) < offers.len(),
        crate::trades::offer_pos(offers, id) >= 0 ==> offers[crate::trades::offer_pos(offers, id)].offer_id == id,
    decreases offers.len(),
{
    if offers.len() > 0 && offers[0].offer_id != id {
        lemma_offer_pos_is(offers.drop_first(), id);
    }
}

/// A list with a player added unless there holds exactly the old players
/// and that one.
proof fn lemma_with_player_holds(v: Seq<PlayerId>, x: PlayerId)
    ensures
        forall|y: PlayerId| #[trigger] crate::trades::with_player(v, x).contains(y) == (v.contains(y) || y == x),
{
    if !v.contains(x) {
        assert forall|y: PlayerId| #[trigger] v.push(x).contains(y) == (v.contains(y) || y == x) by {
            if v.push(x).contains(y) {
                let i = choose|i: int| 0 <= i < v.push(x).len() && v.push(x)[i] == y;
                if i < v.len() {
                    assert(v[i] == y);
                }
            }
            if v.contains(y) {
                let i = choose|i: int| 0 <= i < v.len() && v[i] == y;
                assert(v.push(x)[i] == y);
            }
            if y == x {
                assert(v.push(x)[v.len() as int] == y);
            }
        }
    }
}

/// This client may build right now exactly when, in the special building
/// phase, it is the builder, and otherwise when it is its own turn in
/// regular play and the dice have been rolled. A build control is live only
/// then, outside the opening placement, with a piece left, and with the
/// hand paying for it (or a free road to place, for a road).
pub proof fn law_when_building_is_live(s: GameState, cost: Basket, left: nat, free: bool)
    ensures
        crate::client::may_build_now(s) <==> (match s.game_phase {
            GamePhase::SpecialBuilding { builder } => s.player_id == Some(builder),
            GamePhase::RegularPlay => s.player_id == Some(s.current_turn_player) && s.last_dice_roll is Some,
            _ => false,
        }),
        crate::controls::build_enabled(s, cost, left, free) ==> left > 0 && !(s.game_phase is InitialPlacement)
            && crate::client::may_build_now(s) && ((s.my_resources.lumber >= cost.wood && s.my_resources.brick
            >= cost.brick && s.my_resources.wool >= cost.sheep && s.my_resources.grain >= cost.wheat
            && s.my_resources.ore >= cost.ore) || (free && s.free_roads_remaining > 0)),
        !free ==> (crate::controls::build_enabled(s, cost, left, free) ==> s.my_resources.lumber >= cost.wood
            && s.my_resources.brick >= cost.brick && s.my_resources.wool >= cost.sheep && s.my_resources.grain
            >= cost.wheat && s.my_resources.ore >= cost.ore),
{
}

/// Counting a player's pieces: an empty board holds none, and one more
/// piece adds one exactly when it is that player's.
pub proof fn law_owned_count_counts_mine(built: Seq<BuildingInfo>, b: BuildingInfo, me: Option<PlayerId>)
    ensures
        crate::controls::owned_count(Seq::empty(), me) == 0,
        crate::controls::owned_count(built.push(b), me) == crate::controls::owned_count(built, me) + if me == Some(
            b.player_id,
        ) {
            1int
        } else {
            0int
        },
        crate::controls::owned_count(built, me) <= built.len(),
        me is None ==> crate::controls::owned_count(built, me) == 0,
    decreases built.len(),
{
    assert(built.push(b).drop_last() =~= built);
    if built.len() > 0 {
        law_owned_count_counts_mine(built.drop_last(), built.last(), me);
    }
}

/// Two rosters with the same player at every seat agree on who is seated
/// and where each player first sits.
proof fn lemma_same_ids_same_seat(a: Seq<crate::rules::PlayerInfo>, b: Seq<crate::rules::PlayerInfo>, id: PlayerId)
    requires
        a.len() == b.len(),
        forall|j: int| 0 <= j < a.len() ==> #[trigger] a[j].player_id == b[j].player_id,
    ensures
        crate::client::seated(a, id) == crate::client::seated(b, id),
        crate::client::seated(a, id) ==> crate::client::seat_of(a, id) == crate::client::seat_of(b, id),
{
    if crate::client::seated(a, id) {
        let k = choose|k: int| 0 <= k < a.len() && #[trigger] a[k].player_id == id;
        assert(b[k].player_id == id);
        lemma_first_seat_exists(a, id, a.len() as int);
        let s = crate::client::seat_of(a, id);
        assert(crate::client::is_first_seat(b, id, s)) by {
            assert forall|j: int| 0 <= j < s implies b[j].player_id != id by {
                assert(a[j].player_id == b[j].player_id);
            }
            assert(a[s].player_id == b[s].player_id);
        }
        crate::client::lemma_seat_of(b, id, s);
    }
    if crate::client::seated(b, id) {
        let k = choose|k: int| 0 <= k < b.len() && #[trigger] b[k].player_id == id;
        assert(a[k].player_id == id);
    }
}

/// A roster update keeps every seat where it was, with the same player in
/// it; a seat no update names is left as it was; and each seated player's
/// first seat ends up holding the last update about them.
pub proof fn law_roster_updates(ps: Seq<crate::rules::PlayerInfo>, ups: Seq<crate::rules::PlayerInfo>)
    ensures
        crate::events::apply_updates(ps, ups).len() == ps.len(),
        forall|j: int|
            0 <= j < ps.len() ==> (#[trigger] crate::events::apply_updates(ps, ups)[j]).player_id == ps[j].player_id,
        forall|j: int|
            0 <= j < ps.len() && (forall|i: int| 0 <= i < ups.len() ==> ups[i].player_id != ps[j].player_id) ==> #[trigger] crate::events::apply_updates(
                ps,
                ups,
            )[j] == ps[j],
        forall|i: int|
            0 <= i < ups.len() && crate::client::seated(ps, #[trigger] ups[i].player_id) && (forall|i2: int|
                i < i2 < ups.len() ==> ups[i2].player_id != ups[i].player_id) ==> crate::events::apply_updates(
                ps,
                ups,
            )[crate::client::seat_of(ps, ups[i].player_id)] == ups[i],
    decreases ups.len(),
{
    if ups.len() > 0 {
        let d = ups.drop_last();
        let u = ups.last();
        law_roster_updates(ps, d);
        let r = crate::events::apply_updates(ps, d);
        lemma_same_ids_same_seat(r, ps, u.player_id);
        let out = crate::events::apply_updates(ps, ups);
        if crate::client::seated(r, u.player_id) {
            lemma_first_seat_exists(r, u.player_id, r.len() as int);
        }
        assert forall|j: int|
            0 <= j < ps.len() && (forall|i: int| 0 <= i < ups.len() ==> ups[i].player_id != ps[j].player_id) implies #[trigger] out[j]
                == ps[j] by {
            assert forall|i: int| 0 <= i < d.len() implies d[i].player_id != ps[j].player_id by {
                assert(d[i] == ups[i]);
            }
            assert(ups[ups.len() - 1].player_id != ps[j].player_id);
            assert(r[j] == ps[j]);
        }
        assert forall|i: int|
            0 <= i < ups.len() && crate::client::seated(ps, #[trigger] ups[i].player_id) && (forall|i2: int|
                i < i2 < ups.len() ==> ups[i2].player_id != ups[i].player_id) implies out[crate::client::seat_of(
            ps,
            ups[i].player_id,
        )] == ups[i] by {
            if i < ups.len() - 1 {
                assert(d[i] == ups[i]);
                assert forall|i2: int| i < i2 < d.len() implies d[i2].player_id != d[i].player_id by {
                    assert(d[i2] == ups[i2]);
                }
                assert(ups[ups.len() - 1].player_id != ups[i].player_id);
                let si = crate::client::seat_of(ps, ups[i].player_id);
                lemma_first_seat_exists(ps, ups[i].player_id, ps.len() as int);
                if crate::client::seated(r, u.player_id) {
                    let su = crate::client::seat_of(r, u.player_id);
                    assert(r[su].player_id == u.player_id);
                    assert(r[si].player_id == ps[si].player_id);
                }
            }
        }
    }
}

/// Buying a development card adds one to the buyer's count on the roster,
/// and changes no other seat.
pub proof fn law_buying_a_card(before: GameState, player_id: PlayerId, now: i64, after: GameState)
    requires
        crate::dispatch::acceptable(before, ServerMessage::DevCardBought { player_id }),
        handled(before, ServerMessage::DevCardBought { player_id }, now, after),
    ensures
        after.players@.len() == before.players@.len(),
        crate::client::seated(before.players@, player_id) ==> ({
            let k = crate::client::seat_of(before.players@, player_id);
            &&& after.players@[k].dev_card_count == before.players@[k].dev_card_count + 1
            &&& after.players@[k].player_id == player_id
            &&& after.players@[k].resource_count == before.players@[k].resource_count
        }),
        forall|j: int|
            0 <= j < before.players@.len() && !(crate::client::seated(before.players@, player_id) && j
                == crate::client::seat_of(before.players@, player_id)) ==> after.players@[j] == before.players@[j],
{
    if crate::client::seated(before.players@, player_id) {
        lemma_first_seat_exists(before.players@, player_id, before.players@.len() as int);
    }
}

/// The chat keeps the newest two hundred lines: a new line goes at the
/// end, and once the chat is full the oldest line drops off the front.
pub proof fn law_chat_keeps_the_newest(lines: Seq<crate::client::ChatLine>, line: crate::client::ChatLine)
    requires
        lines.len() <= 200,
    ensures
        crate::events::chat_after(lines, line).len() == if lines.len() < 200 {
            lines.len() + 1
        } else {
            200
        },
        crate::events::chat_after(lines, line).last() == line,
        forall|j: int|
            0 <= j < crate::events::chat_after(lines, line).len() - 1 ==> #[trigger] crate::events::chat_after(
                lines,
                line,
            )[j] == lines[j + lines.len() + 1 - crate::events::chat_after(lines, line).len()],
{
}

/// Each player starts with fifteen roads, five settlements and four
/// cities; what is left of a kind is that, less what the player has on the
/// board, never below none.
pub proof fn law_pieces_in_the_box(built: Seq<BuildingInfo>, me: Option<PlayerId>)
    ensures
        crate::controls::MAX_ROADS == 15,
        crate::controls::MAX_SETTLEMENTS == 5,
        crate::controls::MAX_CITIES == 4,
        me is None ==> crate::controls::owned_count(built, me) == 0,
        crate::controls::owned_count(built, me) <= built.len(),
{
    law_owned_count_counts_mine(built, BuildingInfo { player_id: 0, x: 0, y: 0 }, me);
}

/// Buying a development card is live only outside the opening placement,
/// when this client may build, with a sheep, a wheat and an ore in hand and
/// a card left in the bank; trading is live outside the opening placement
/// whenever this client may build.
pub proof fn law_when_buying_and_trading_are_live(s: GameState)
    ensures
        crate::controls::buy_dev_enabled(s) <==> (!(s.game_phase is InitialPlacement) && crate::client::may_build_now(s)
            && s.my_resources.wool >= 1 && s.my_resources.grain >= 1 && s.my_resources.ore >= 1 && s.bank.dev_cards
            > 0),
        crate::controls::trade_enabled(s) <==> (!(s.game_phase is InitialPlacement) && crate::client::may_build_now(s)),
{
}

/// Closing offers removes exactly them: an offer stays among those awaiting
/// an answer, this client's own offers, and those it has taken, exactly when
/// it was there and is not closed (nor answers a closed offer).
pub proof fn law_closing_offers(before: GameState, ids: Seq<u64>, after: GameState)
    requires
        crate::trades::closed_lists(before, ids, after),
    ensures
        forall|x: u64| #[trigger] after.my_accepted_offers@.contains(x) == (before.my_accepted_offers@.contains(x) && !ids.contains(x)),
        forall|o: crate::client::MyOffer| #[trigger] after.my_offers@.contains(o) == (before.my_offers@.contains(o) && !ids.contains(
            o.offer_id,
        )),
        forall|t: crate::client::PendingTradeOffer| #[trigger] after.incoming_trades@.contains(t) == (
        before.incoming_trades@.contains(t) && !ids.contains(t.offer_id) && !(t.counters matches Some(c)
            && ids.contains(c))),
{
    assert forall|x: u64| #[trigger] after.my_accepted_offers@.contains(x) == (before.my_accepted_offers@.contains(x)
        && !ids.contains(x)) by {
        crate::lists::lemma_keep_contains(before.my_accepted_offers@, |y: u64| !ids.contains(y), x);
    }
    assert forall|o: crate::client::MyOffer| #[trigger] after.my_offers@.contains(o) == (before.my_offers@.contains(o)
        && !ids.contains(o.offer_id)) by {
        crate::lists::lemma_keep_contains(before.my_offers@, |m: crate::client::MyOffer| !ids.contains(m.offer_id), o);
    }
    assert forall|t: crate::client::PendingTradeOffer| #[trigger] after.incoming_trades@.contains(t) == (
    before.incoming_trades@.contains(t) && !ids.contains(t.offer_id) && !(t.counters matches Some(c) && ids.contains(
        c,
    ))) by {
        crate::lists::lemma_keep_contains(
            before.incoming_trades@,
            |u: crate::client::PendingTradeOffer| crate::trades::survives_incoming(ids, u),
            t,
        );
    }
}

/// After a resync, the offers awaiting this client's answer are the
/// resync's offers made by someone else and not refused by this client:
/// every such offer is there, each entry stands for such an offer, and no
/// entry is this client's own.
pub proof fn law_resync_restores_incoming(snaps: Seq<crate::rules::TradeSnapshot>, me: PlayerId, now: int)
    ensures
        forall|k: int|
            0 <= k < crate::trades::restored_incoming(snaps, me, now).len() ==> (#[trigger] crate::trades::restored_incoming(
                snaps,
                me,
                now,
            )[k]).proposer_id != me,
        crate::trades::restored_incoming(snaps, me, now).len() <= snaps.len(),
        forall|i: int|
            0 <= i < snaps.len() && (#[trigger] snaps[i]).proposer_id != me && !snaps[i].you_declined ==> crate::trades::restored_incoming(
                snaps,
                me,
                now,
            ).contains(crate::trades::pending_from(snaps[i], now - crate::trades::open_ms(snaps[i]))),
        forall|k: int|
            0 <= k < crate::trades::restored_incoming(snaps, me, now).len() ==> exists|i: int|
                0 <= i < snaps.len() && snaps[i].proposer_id != me && !snaps[i].you_declined && #[trigger] crate::trades::restored_incoming(
                    snaps,
                    me,
                    now,
                )[k] == crate::trades::pending_from(snaps[i], now - crate::trades::open_ms(snaps[i])),
    decreases snaps.len(),
{
    if snaps.len() > 0 {
        let d = snaps.drop_last();
        law_resync_restores_incoming(d, me, now);
        let r = crate::trades::restored_incoming(d, me, now);
        let out = crate::trades::restored_incoming(snaps, me, now);
        let l = snaps.last();
        let keep_last = l.proposer_id != me && !l.you_declined;
        assert(out == if keep_last { r.push(crate::trades::pending_from(l, now - crate::trades::open_ms(l))) } else { r });
        assert forall|k: int| 0 <= k < out.len() implies (#[trigger] out[k]).proposer_id != me by {
            if k < r.len() {
                assert(out[k] == r[k]);
            }
        }
        assert forall|i: int|
            0 <= i < snaps.len() && (#[trigger] snaps[i]).proposer_id != me && !snaps[i].you_declined implies out.contains(
            crate::trades::pending_from(snaps[i], now - crate::trades::open_ms(snaps[i])),
        ) by {
            let p = crate::trades::pending_from(snaps[i], now - crate::trades::open_ms(snaps[i]));
            if i < d.len() {
                assert(d[i] == snaps[i]);
                assert(r.contains(p));
                let k = choose|k: int| 0 <= k < r.len() && r[k] == p;
                assert(out[k] == p);
            } else {
                assert(out[out.len() - 1] == p);
            }
        }
        assert forall|k: int| 0 <= k < out.len() implies exists|i: int|
            0 <= i < snaps.len() && snaps[i].proposer_id != me && !snaps[i].you_declined && #[trigger] out[k]
                == crate::trades::pending_from(snaps[i], now - crate::trades::open_ms(snaps[i])) by {
            if k < r.len() {
                assert(out[k] == r[k]);
                let i = choose|i: int|
                    0 <= i < d.len() && d[i].proposer_id != me && !d[i].you_declined && #[trigger] r[k]
                        == crate::trades::pending_from(d[i], now - crate::trades::open_ms(d[i]));
                assert(snaps[i] == d[i]);
            } else {
                assert(snaps[snaps.len() - 1] == l);
            }
        }
    }
}
} // verus!
