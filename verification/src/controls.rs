//! What the table's controls allow at a given moment, and what a click on
//! them asks of the server: building, rolling, trading with the bank or the
//! table, answering offers, discarding and choosing cards.

use vstd::prelude::*;
use crate::board::{
    calculate_all_edges, coords_fit, edge_named, edges_of, has_pos, last_side, legal_roads, legal_settlements,
    pos, road_allowed, settlement_allowed, side_key, Edge,
};
use crate::client::{BuildMode, GameState, MyOffer, PendingTradeOffer, best_ratio, may_build_now};
use crate::hand::{
    Basket, MAX_ASK_PER_KIND, Res, TradeDraft, basket_resources, basket_total, copies, empty_basket, held, in_basket,
    res_order, res_resource, spread_of,
};
use crate::rules::PortType;
use crate::protocol::ClientRequest;
use crate::rules::{BuildingInfo, GamePhase, HexInfo, PlacementStep, PlayerId, Resources};

verus! {

/// How many roads a player starts with.
pub const MAX_ROADS: usize = 15;

/// How many settlements a player starts with.
pub const MAX_SETTLEMENTS: usize = 5;

/// How many cities a player starts with.
pub const MAX_CITIES: usize = 4;

/// Whether it is this client's turn.
pub open spec fn my_turn(s: GameState) -> bool {
    s.player_id == Some(s.current_turn_player)
}

/// The build mode the opening placement arms by itself: during setup there
/// is one thing to place, and the phase says which. `None` leaves the mode
/// as the player set it.
pub open spec fn setup_mode(phase: GamePhase, mine: bool) -> Option<BuildMode> {
    match phase {
        GamePhase::InitialPlacement { step, .. } => if mine {
            match step {
                PlacementStep::BuildSettlement => Some(BuildMode::Settlement),
                PlacementStep::BuildRoad { .. } => Some(BuildMode::Road),
            }
        } else {
            Some(BuildMode::Idle)
        },
        _ => None,
    }
}

impl GameState {
    /// Whether it is this client's turn.
    pub fn is_my_turn(&self) -> (b: bool)
        ensures
            b == my_turn(*self),
    {
        self.player_id == Some(self.current_turn_player)
    }

    /// Arms the build mode the opening placement calls for.
    pub fn arm_setup_mode(&mut self)
        ensures
            *final(self) == (GameState {
                build_mode: match setup_mode(old(self).game_phase, my_turn(*old(self))) {
                    Some(m) => m,
                    None => old(self).build_mode,
                },
                ..*old(self)
            }),
    {
        let mine = self.is_my_turn();
        let wanted = match self.game_phase {
            GamePhase::InitialPlacement { step, .. } => if mine {
                match step {
                    PlacementStep::BuildSettlement => BuildMode::Settlement,
                    PlacementStep::BuildRoad { .. } => BuildMode::Road,
                }
            } else {
                BuildMode::Idle
            },
            _ => return ,
        };
        self.build_mode = wanted;
    }

    /// Whether the robber may be moved to hex `(q, r)`: it must be moved, and
    /// not onto the hex it already stands on.
    pub fn robber_target(&self, q: i32, r: i32) -> (b: bool)
        ensures
            b == (self.must_move_robber && self.robber_pos != Some((q, r))),
    {
        self.must_move_robber && self.robber_pos != Some((q, r))
    }

    /// Moves the robber to hex `(q, r)`: the request to send, and the prompt
    /// to move it is answered.
    pub fn move_robber_to(&mut self, q: i32, r: i32) -> (req: ClientRequest)
        ensures
            req == (ClientRequest::MoveRobber { q, r }),
            *final(self) == (GameState { must_move_robber: false, ..*old(self) }),
    {
        self.must_move_robber = false;
        ClientRequest::MoveRobber { q, r }
    }

    /// The corners a click can build on: when upgrading, this player's own
    /// settlements; when placing, the spots the rules allow.
    pub fn vertex_targets(&self) -> (out: Vec<(i32, i32)>)
        requires
            coords_fit(self.hexes@),
        ensures
            self.build_mode == BuildMode::City ==> forall|p: (i32, i32)|
                out@.contains(p) <==> exists|k: int|
                    0 <= k < self.settlements@.len() && #[trigger] own_spot(self.settlements@[k], me_or_nil(self.player_id), p),
            self.build_mode != BuildMode::City ==> forall|p: (i32, i32)|
                out@.contains(p) <==> settlement_allowed(
                    self.hexes@,
                    self.settlements@,
                    self.cities@,
                    self.roads@,
                    me_or_nil(self.player_id),
                    self.game_phase is InitialPlacement,
                    pos(p),
                ),
            self.build_mode != BuildMode::City ==> forall|a: int, b: int|
                0 <= a < b < out@.len() ==> out@[a] != out@[b],
    {
        let me = match self.player_id {
            Some(id) => id,
            None => 0,
        };
        if self.build_mode == BuildMode::City {
            let mut out: Vec<(i32, i32)> = Vec::new();
            let mut k: usize = 0;
            while k < self.settlements.len()
                invariant
                    k <= self.settlements@.len(),
                    me == me_or_nil(self.player_id),
                    forall|p: (i32, i32)|
                        out@.contains(p) <==> exists|j: int|
                            0 <= j < k && #[trigger] own_spot(self.settlements@[j], me, p),
                decreases self.settlements@.len() - k,
            {
                let b = self.settlements[k];
                let ghost before = out@;
                if b.player_id == me {
                    out.push((b.x, b.y));
                }
                proof {
                    assert forall|p: (i32, i32)|
                        out@.contains(p) <==> exists|j: int|
                            0 <= j < k + 1 && #[trigger] own_spot(self.settlements@[j], me, p) by {
                        if out@.contains(p) && !before.contains(p) {
                            assert(own_spot(self.settlements@[k as int], me, p));
                        }
                        if exists|j: int| 0 <= j < k + 1 && #[trigger] own_spot(self.settlements@[j], me, p) {
                            let j = choose|j: int| 0 <= j < k + 1 && #[trigger] own_spot(self.settlements@[j], me, p);
                            if j == k {
                                assert(out@.last() == p);
                            } else {
                                assert(before.contains(p));
                                let i = choose|i: int| 0 <= i < before.len() && before[i] == p;
                                assert(out@[i] == p);
                            }
                        }
                    }
                }
                k = k + 1;
            }
            out
        } else {
            legal_settlements(
                self.hexes.as_slice(),
                self.settlements.as_slice(),
                self.cities.as_slice(),
                self.roads.as_slice(),
                me,
                self.game_phase.is_initial_phase(),
            )
        }
    }

    /// A click on corner `(x, y)`: in settlement or city mode, the request to
    /// build there, and the mode is put down; in any other mode, nothing.
    pub fn click_vertex(&mut self, x: i32, y: i32) -> (req: Option<ClientRequest>)
        ensures
            old(self).build_mode == BuildMode::Settlement ==> req == Some(ClientRequest::BuildSettlement { x, y })
                && *final(self) == (GameState { build_mode: BuildMode::Idle, ..*old(self) }),
            old(self).build_mode == BuildMode::City ==> req == Some(ClientRequest::BuildCity { x, y })
                && *final(self) == (GameState { build_mode: BuildMode::Idle, ..*old(self) }),
            !(old(self).build_mode == BuildMode::Settlement || old(self).build_mode == BuildMode::City) ==> req
                is None && *final(self) == *old(self),
    {
        match self.build_mode {
            BuildMode::Settlement => {
                self.build_mode = BuildMode::Idle;
                Some(ClientRequest::BuildSettlement { x, y })
            },
            BuildMode::City => {
                self.build_mode = BuildMode::Idle;
                Some(ClientRequest::BuildCity { x, y })
            },
            _ => None,
        }
    }

    /// The edges a click can build a road on: the board's edges, each with
    /// its two corners, that the rules allow a road on. In the opening
    /// placement the road must touch the settlement just placed.
    #[verifier::spinoff_prover]
    pub fn road_targets(&self) -> (out: Vec<Edge>)
        requires
            coords_fit(self.hexes@),
        ensures
            forall|k: int|
                0 <= k < out@.len() ==> #[trigger] last_side(self.hexes@, out@[k]) && road_allowed(
                    self.hexes@,
                    self.settlements@,
                    self.cities@,
                    self.roads@,
                    me_or_nil(self.player_id),
                    road_anchor(self.game_phase),
                    pos(out@[k].2),
                ),
            forall|a: int, b: int| 0 <= a < b < out@.len() ==> #[trigger] out@[a].2 != #[trigger] out@[b].2,
            forall|h: int, i: int|
                0 <= h < self.hexes@.len() && 0 <= i < 6 && road_allowed(
                    self.hexes@,
                    self.settlements@,
                    self.cities@,
                    self.roads@,
                    me_or_nil(self.player_id),
                    road_anchor(self.game_phase),
                    #[trigger] side_key(self.hexes@[h], i),
                ) ==> edge_named(out@, side_key(self.hexes@[h], i)),
    {
        let me = match self.player_id {
            Some(id) => id,
            None => 0,
        };
        let must_touch = match self.game_phase {
            GamePhase::InitialPlacement { step: PlacementStep::BuildRoad { settlement }, .. } => Some(settlement),
            _ => None,
        };
        let legal = legal_roads(
            self.hexes.as_slice(),
            self.settlements.as_slice(),
            self.cities.as_slice(),
            self.roads.as_slice(),
            me,
            must_touch,
        );
        let all = calculate_all_edges(self.hexes.as_slice());
        let ghost allowed = |e: Edge|
            road_allowed(self.hexes@, self.settlements@, self.cities@, self.roads@, me, must_touch, pos(e.2));
        let mut out: Vec<Edge> = Vec::new();
        let ghost mut src: Seq<int> = Seq::empty();
        let mut k: usize = 0;
        while k < all.len()
            invariant
                k <= all@.len(),
                me == me_or_nil(self.player_id),
                must_touch == road_anchor(self.game_phase),
                edges_of(self.hexes@, all@),
                allowed == (|e: Edge|
                    road_allowed(self.hexes@, self.settlements@, self.cities@, self.roads@, me, must_touch, pos(e.2))),
                forall|p: (i32, i32)|
                    legal@.contains(p) <==> road_allowed(
                        self.hexes@,
                        self.settlements@,
                        self.cities@,
                        self.roads@,
                        me,
                        must_touch,
                        pos(p),
                    ),
                src.len() == out@.len(),
                forall|m: int| 0 <= m < out@.len() ==> 0 <= #[trigger] src[m] < k && out@[m] == all@[src[m]],
                forall|a: int, b: int| 0 <= a < b < out@.len() ==> src[a] < src[b],
                forall|m: int| 0 <= m < out@.len() ==> #[trigger] allowed(out@[m]),
                forall|j: int| 0 <= j < k && allowed(#[trigger] all@[j]) ==> out@.contains(all@[j]),
            decreases all@.len() - k,
        {
            let e = all[k];
            let ghost before = out@;
            if has_pos(&legal, e.2) {
                out.push(e);
                proof {
                    src = src.push(k as int);
                    assert forall|j: int| 0 <= j < k + 1 && allowed(#[trigger] all@[j]) implies out@.contains(all@[j]) by {
                        if j < k {
                            let m = choose|m: int| 0 <= m < before.len() && before[m] == all@[j];
                            assert(out@[m] == all@[j]);
                        } else {
                            assert(out@[before.len() as int] == all@[j]);
                        }
                    }
                }
            }
            k = k + 1;
        }
        proof {
            assert forall|a: int, b: int| 0 <= a < b < out@.len() implies #[trigger] out@[a].2 != #[trigger] out@[b].2 by {
                assert(src[a] < src[b]);
                assert(out@[a] == all@[src[a]] && out@[b] == all@[src[b]]);
            }
            assert forall|m: int| 0 <= m < out@.len() implies #[trigger] last_side(self.hexes@, out@[m]) && road_allowed(
                self.hexes@,
                self.settlements@,
                self.cities@,
                self.roads@,
                me_or_nil(self.player_id),
                road_anchor(self.game_phase),
                pos(out@[m].2),
            ) by {
                let j = src[m];
                assert(0 <= j < all@.len() && out@[m] == all@[j]);
                assert(last_side(self.hexes@, all@[j]));
                assert(allowed(out@[m]));
            }
            assert forall|h: int, i: int|
                0 <= h < self.hexes@.len() && 0 <= i < 6 && road_allowed(
                    self.hexes@,
                    self.settlements@,
                    self.cities@,
                    self.roads@,
                    me,
                    must_touch,
                    #[trigger] side_key(self.hexes@[h], i),
                ) implies edge_named(out@, side_key(self.hexes@[h], i)) by {
                assert(edge_named(all@, side_key(self.hexes@[h], i)));
                let j = choose|j: int| 0 <= j < all@.len() && #[trigger] pos(all@[j].2) == side_key(self.hexes@[h], i);
                assert(allowed(all@[j]));
                assert(out@.contains(all@[j]));
                let m = choose|m: int| 0 <= m < out@.len() && out@[m] == all@[j];
                assert(pos(out@[m].2) == side_key(self.hexes@[h], i));
            }
        }
        out
    }
}

/// Whether a piece is this player's and stands at `p`.
pub open spec fn own_spot(b: BuildingInfo, me: PlayerId, p: (i32, i32)) -> bool {
    b.player_id == me && b.x == p.0 && b.y == p.1
}

/// The id this client builds under: its own, or the nil id before it has one.
pub open spec fn me_or_nil(id: Option<PlayerId>) -> PlayerId {
    match id {
        Some(i) => i,
        None => 0,
    }
}

/// The settlement a road must touch: in the opening placement, the one just placed.
pub open spec fn road_anchor(phase: GamePhase) -> Option<(i32, i32)> {
    match phase {
        GamePhase::InitialPlacement { step: PlacementStep::BuildRoad { settlement }, .. } => Some(settlement),
        _ => None,
    }
}

/// What a road costs: one wood and one brick.
pub open spec fn road_price() -> Basket {
    Basket { wood: 1, brick: 1, sheep: 0, wheat: 0, ore: 0 }
}

/// What a settlement costs: wood, brick, sheep and wheat, one each.
pub open spec fn settlement_price() -> Basket {
    Basket { wood: 1, brick: 1, sheep: 1, wheat: 1, ore: 0 }
}

/// What a city costs: two wheat and three ore.
pub open spec fn city_price() -> Basket {
    Basket { wood: 0, brick: 0, sheep: 0, wheat: 2, ore: 3 }
}

/// What a development card costs: sheep, wheat and ore, one each.
pub open spec fn dev_card_price() -> Basket {
    Basket { wood: 0, brick: 0, sheep: 1, wheat: 1, ore: 1 }
}

/// What a road costs.
pub fn road_cost() -> (b: Basket)
    ensures
        b == road_price(),
        b == (Basket { wood: 1, brick: 1, sheep: 0, wheat: 0, ore: 0 }),
{
    Basket { wood: 1, brick: 1, sheep: 0, wheat: 0, ore: 0 }
}

/// What a settlement costs.
pub fn settlement_cost() -> (b: Basket)
    ensures
        b == settlement_price(),
        b == (Basket { wood: 1, brick: 1, sheep: 1, wheat: 1, ore: 0 }),
{
    Basket { wood: 1, brick: 1, sheep: 1, wheat: 1, ore: 0 }
}

/// What a city costs.
pub fn city_cost() -> (b: Basket)
    ensures
        b == city_price(),
        b == (Basket { wood: 0, brick: 0, sheep: 0, wheat: 2, ore: 3 }),
{
    Basket { wood: 0, brick: 0, sheep: 0, wheat: 2, ore: 3 }
}

/// What a development card costs.
pub fn dev_card_cost() -> (b: Basket)
    ensures
        b == dev_card_price(),
        b == (Basket { wood: 0, brick: 0, sheep: 1, wheat: 1, ore: 1 }),
{
    Basket { wood: 0, brick: 0, sheep: 1, wheat: 1, ore: 1 }
}

/// Whether a hand holds at least a price, kind by kind.
pub open spec fn covers(hand: Resources, cost: Basket) -> bool {
    hand.lumber >= cost.wood && hand.brick >= cost.brick && hand.wool >= cost.sheep && hand.grain >= cost.wheat
        && hand.ore >= cost.ore
}

/// Whether a hand holds at least a price.
pub fn affords(hand: &Resources, cost: &Basket) -> (b: bool)
    ensures
        b == covers(*hand, *cost),
{
    hand.lumber >= cost.wood && hand.brick >= cost.brick && hand.wool >= cost.sheep && hand.grain >= cost.wheat
        && hand.ore >= cost.ore
}

/// How many of a list of pieces belong to `me`.
pub open spec fn owned_count(built: Seq<BuildingInfo>, me: Option<PlayerId>) -> nat
    decreases built.len(),
{
    if built.len() == 0 {
        0
    } else {
        owned_count(built.drop_last(), me) + if me == Some(built.last().player_id) {
            1nat
        } else {
            0nat
        }
    }
}

/// How many of a kind of piece are still in the box: what a player starts
/// with less what they have on the board, and never below zero.
pub fn pieces_left(max: usize, built: &Vec<BuildingInfo>, me: Option<PlayerId>) -> (n: usize)
    ensures
        n == (if owned_count(built@, me) >= max {
            0
        } else {
            max - owned_count(built@, me)
        }),
{
    let mut count: usize = 0;
    let mut k: usize = 0;
    while k < built.len()
        invariant
            k <= built@.len(),
            count == owned_count(built@.take(k as int), me),
            count <= k,
        decreases built@.len() - k,
    {
        proof {
            assert(built@.take(k + 1).drop_last() =~= built@.take(k as int));
        }
        if me == Some(built[k].player_id) {
            count = count + 1;
        }
        k = k + 1;
    }
    proof {
        assert(built@.take(built@.len() as int) =~= built@);
    }
    max.saturating_sub(count)
}

/// Whether a build control is live: pieces of that kind are left, setup is
/// not under way (it arms itself), building is allowed now, and the piece is
/// paid for - from the hand, or for a road out of the free roads of Road
/// Building.
pub open spec fn build_enabled(s: GameState, cost: Basket, left: nat, free: bool) -> bool {
    left > 0 && !(s.game_phase is InitialPlacement) && may_build_now(s) && (covers(s.my_resources, cost) || (free
        && s.free_roads_remaining > 0))
}

/// Whether buying a development card is live: outside setup, when building
/// is allowed, the hand pays for it and the bank has cards left.
pub open spec fn buy_dev_enabled(s: GameState) -> bool {
    !(s.game_phase is InitialPlacement) && may_build_now(s) && covers(s.my_resources, dev_card_price())
        && s.bank.dev_cards > 0
}

/// Whether trading is live: outside setup, when building is allowed.
pub open spec fn trade_enabled(s: GameState) -> bool {
    !(s.game_phase is InitialPlacement) && may_build_now(s)
}

impl GameState {
    /// Whether a build control is live.
    pub fn can_build(&self, cost: &Basket, left: usize, free: bool) -> (b: bool)
        ensures
            b == build_enabled(*self, *cost, left as nat, free),
    {
        if left == 0 {
            return false;
        }
        if self.game_phase.is_initial_phase() {
            return false;
        }
        let paid_for = affords(&self.my_resources, cost) || (free && self.free_roads_remaining > 0);
        self.can_build_now() && paid_for
    }

    /// Whether buying a development card is live.
    pub fn can_buy_dev(&self) -> (b: bool)
        ensures
            b == buy_dev_enabled(*self),
    {
        !self.game_phase.is_initial_phase() && self.can_build_now() && affords(&self.my_resources, &dev_card_cost())
            && self.bank.dev_cards > 0
    }

    /// Whether trading with the table or the bank is live.
    pub fn can_trade(&self) -> (b: bool)
        ensures
            b == trade_enabled(*self),
    {
        !self.game_phase.is_initial_phase() && self.can_build_now()
    }

    /// Whether the trade control is live: trading is, or there are offers
    /// to answer, which is no turn action.
    pub fn trade_button_enabled(&self) -> (b: bool)
        ensures
            b == (trade_enabled(*self) || self.incoming_trades@.len() > 0),
    {
        self.can_trade() || self.incoming_trades.len() > 0
    }

    /// Whether ending the turn is live: it is this player's turn, and not
    /// during setup.
    pub fn end_turn_enabled(&self) -> (b: bool)
        ensures
            b == (my_turn(*self) && !(self.game_phase is InitialPlacement)),
    {
        self.is_my_turn() && !self.game_phase.is_initial_phase()
    }

    /// Whether the dice may be rolled: this player's turn in regular play,
    /// not rolled yet, and the dice not already tumbling.
    pub fn can_roll(&self, tumbling: bool) -> (b: bool)
        ensures
            b == (my_turn(*self) && self.last_dice_roll is None && self.game_phase == GamePhase::RegularPlay
                && !tumbling),
    {
        self.is_my_turn() && self.last_dice_roll.is_none() && match self.game_phase {
            GamePhase::RegularPlay => true,
            _ => false,
        } && !tumbling
    }

    /// A click on a build control: the mode is armed, or put down when it
    /// was already armed.
    pub fn toggle_build_mode(&mut self, mode: BuildMode)
        ensures
            *final(self) == (GameState {
                build_mode: if old(self).build_mode == mode {
                    BuildMode::Idle
                } else {
                    mode
                },
                ..*old(self)
            }),
    {
        self.build_mode = if self.build_mode == mode {
            BuildMode::Idle
        } else {
            mode
        };
    }

    /// Whether a hex just produced: its number came up on the last roll and
    /// the robber does not stand on it.
    pub fn hex_producing(&self, hex: &HexInfo) -> (b: bool)
        ensures
            b == ((self.last_roll_event matches Some(e) && e.0 == hex.number) && self.robber_pos != Some(
                (hex.q, hex.r),
            )),
    {
        let struck = match self.last_roll_event {
            Some(e) => e.0 == hex.number,
            None => false,
        };
        struck && self.robber_pos != Some((hex.q, hex.r))
    }
}

/// How many of the 36 rolls of two dice make a number: six for a seven,
/// one fewer for each step away from it, none for the desert's zero.
pub open spec fn pip_count(n: u8) -> u8 {
    let d: int = if n >= 7 {
        n - 7
    } else {
        7 - n
    };
    if n == 0 || d >= 6 {
        0
    } else {
        (6 - d) as u8
    }
}

/// How many pips a number token shows.
pub fn hex_pips(number: u8) -> (p: u8)
    requires
        !(128 <= number <= 135),
    ensures
        p == pip_count(number),
{
    if number == 0 {
        return 0;
    }
    let d: u8 = if number >= 7 {
        number - 7
    } else {
        7 - number
    };
    6u8.saturating_sub(d)
}

/// Whether a number token is one of the two richest, six and eight.
pub fn hex_hot(number: u8) -> (b: bool)
    ensures
        b == (number == 6 || number == 8),
{
    number == 6 || number == 8
}

/// The bank's rate for a kind, given the harbours held.
pub open spec fn rate_for(ports: Seq<PortType>, k: Res) -> u8 {
    best_ratio(ports, res_resource(k))
}

/// Whether each kind put up is a whole number of exchanges at its rate.
pub open spec fn whole_exchanges(give: Basket, ports: Seq<PortType>) -> bool {
    forall|j: int|
        0 <= j < 5 ==> (in_basket(give, #[trigger] res_order()[j]) == 0 || (rate_for(ports, res_order()[j]) > 0
            && in_basket(give, res_order()[j]) % rate_for(ports, res_order()[j]) == 0))
}

/// The exchanges the first `j` kinds put up buy, one entry per exchange.
pub open spec fn credits_upto(give: Basket, ports: Seq<PortType>, j: int) -> Seq<Res>
    decreases j,
{
    if j <= 0 {
        Seq::empty()
    } else {
        let k = res_order()[j - 1];
        let n = in_basket(give, k);
        credits_upto(give, ports, j - 1) + if n == 0 || rate_for(ports, k) == 0 {
            Seq::empty()
        } else {
            copies(k, (n / rate_for(ports, k)) as nat)
        }
    }
}

/// A trade with the bank, as the exchanges it is made of: each kind put up
/// must be a whole number of exchanges at that kind's own rate, there must
/// be as many exchanges as cards asked for, and no exchange may swap a card
/// for its own kind. Unnamed cards, and an empty side, make no bank trade.
pub open spec fn bank_deal(give: Basket, want: Basket, give_any: u8, want_any: u8, ports: Seq<PortType>) -> Option<
    Seq<(Res, Res)>,
> {
    let c = credits_upto(give, ports, 5);
    let t = spread_of(want);
    if want_any > 0 || give_any > 0 || basket_total(give) == 0 || basket_total(want) == 0 || !whole_exchanges(
        give,
        ports,
    ) || c.len() != t.len() || exists|i: int| 0 <= i < c.len() && c[i] == t[i] {
        None
    } else {
        Some(Seq::new(c.len(), |i: int| (c[i], t[i])))
    }
}

impl GameState {
    /// The trade with the bank the draft makes, as its exchanges, if it makes one.
    pub fn bank_exchanges(&self, draft: &TradeDraft) -> (r: Option<Vec<(Res, Res)>>)
        ensures
            match r {
                Some(v) => bank_deal(draft.offer, draft.receive, draft.offer_any, draft.receive_any, self.my_ports@)
                    == Some(v@),
                None => bank_deal(
                    draft.offer,
                    draft.receive,
                    draft.offer_any,
                    draft.receive_any,
                    self.my_ports@,
                ) is None,
            },
    {
        if draft.receive_any > 0 || draft.offer_any > 0 {
            return None;
        }
        if draft.offer.total() == 0 || draft.receive.total() == 0 {
            return None;
        }
        let ghost ports = self.my_ports@;
        let kinds = Res::all();
        let mut credits: Vec<Res> = Vec::new();
        let mut j: usize = 0;
        while j < 5
            invariant
                kinds@ == res_order(),
                ports == self.my_ports@,
                j <= 5,
                credits@ == credits_upto(draft.offer, ports, j as int),
                forall|m: int|
                    0 <= m < j ==> (in_basket(draft.offer, #[trigger] res_order()[m]) == 0 || (rate_for(ports, res_order()[m])
                        > 0 && in_basket(draft.offer, res_order()[m]) % rate_for(ports, res_order()[m]) == 0)),
            decreases 5 - j,
        {
            let k = kinds[j];
            let n = draft.offer.get(k);
            if n > 0 {
                let rate = self.get_best_ratio(k.shared());
                if rate == 0 || n % rate != 0 {
                    proof {
                        assert(!whole_exchanges(draft.offer, ports)) by {
                            assert(res_order()[j as int] == k);
                        }
                        assert(bank_deal(draft.offer, draft.receive, draft.offer_any, draft.receive_any, ports) is None) by {
                            assert(!whole_exchanges(draft.offer, ports));
                        }
                    }
                    return None;
                }
                let times = n / rate;
                let ghost before = credits@;
                let mut i: u8 = 0;
                while i < times
                    invariant
                        i <= times,
                        credits@ == before + copies(k, i as nat),
                    decreases times - i,
                {
                    credits.push(k);
                    i = i + 1;
                    proof {
                        assert(credits@ =~= before + copies(k, i as nat));
                    }
                }
            } else {
                proof {
                    assert(credits_upto(draft.offer, ports, j + 1) =~= credits_upto(draft.offer, ports, j as int));
                }
            }
            j = j + 1;
        }
        proof {
            assert(whole_exchanges(draft.offer, self.my_ports@));
        }
        let taken = draft.receive.spread();
        if credits.len() != taken.len() {
            return None;
        }
        let mut pairs: Vec<(Res, Res)> = Vec::new();
        let mut i: usize = 0;
        while i < credits.len()
            invariant
                credits@.len() == taken@.len(),
                credits@ == credits_upto(draft.offer, self.my_ports@, 5),
                taken@ == spread_of(draft.receive),
                whole_exchanges(draft.offer, self.my_ports@),
                draft.receive_any == 0 && draft.offer_any == 0,
                basket_total(draft.offer) != 0 && basket_total(draft.receive) != 0,
                i <= credits@.len(),
                pairs@ == Seq::new(i as nat, |m: int| (credits@[m], taken@[m])),
                forall|m: int| 0 <= m < i ==> credits@[m] != taken@[m],
            decreases credits@.len() - i,
        {
            if credits[i] == taken[i] {
                proof {
                    assert(credits@[i as int] == taken@[i as int]);
                    assert(whole_exchanges(draft.offer, self.my_ports@));
                    assert(credits_upto(draft.offer, self.my_ports@, 5)[i as int] == spread_of(draft.receive)[i as int]);
                    assert(bank_deal(draft.offer, draft.receive, draft.offer_any, draft.receive_any, self.my_ports@) is None);
                }
                return None;
            }
            pairs.push((credits[i], taken[i]));
            i = i + 1;
            proof {
                assert(pairs@ =~= Seq::new(i as nat, |m: int| (credits@[m], taken@[m])));
            }
        }
        Some(pairs)
    }

    /// Whether the draft can go to the bank now.
    pub fn can_bank(&self, draft: &TradeDraft) -> (b: bool)
        ensures
            b == (may_build_now(*self) && bank_deal(
                draft.offer,
                draft.receive,
                draft.offer_any,
                draft.receive_any,
                self.my_ports@,
            ) is Some),
    {
        self.can_build_now() && self.bank_exchanges(draft).is_some()
    }

    /// Whether the draft can be offered to the table now: building is
    /// allowed, the draft is ready, and fewer than the most offers are open.
    pub fn can_offer(&self, draft: &TradeDraft) -> (b: bool)
        requires
            basket_total(draft.receive) + draft.receive_any <= u8::MAX,
            basket_total(draft.offer) + draft.offer_any <= u8::MAX,
        ensures
            b == (may_build_now(*self) && table_deal(*draft) && self.my_offers@.len() < 4),
    {
        self.can_build_now() && table_ready(draft) && !self.offers_are_full()
    }
}

/// Whether a draft makes an offer to the table: something on both sides,
/// and unnamed cards on one side at most.
pub open spec fn table_deal(d: TradeDraft) -> bool {
    basket_total(d.receive) + d.receive_any > 0 && basket_total(d.offer) + d.offer_any > 0 && !(d.receive_any > 0
        && d.offer_any > 0)
}

/// Whether a draft makes an offer to the table.
pub fn table_ready(draft: &TradeDraft) -> (b: bool)
    requires
        basket_total(draft.receive) + draft.receive_any <= u8::MAX,
        basket_total(draft.offer) + draft.offer_any <= u8::MAX,
    ensures
        b == table_deal(*draft),
{
    let r = draft.receive.total() + draft.receive_any;
    let o = draft.offer.total() + draft.offer_any;
    r > 0 && o > 0 && !(draft.receive_any > 0 && draft.offer_any > 0)
}

/// The requests that settle a bank trade, one exchange each, in order.
pub fn bank_requests(pairs: &Vec<(Res, Res)>) -> (reqs: Vec<ClientRequest>)
    ensures
        reqs@.len() == pairs@.len(),
        forall|i: int|
            0 <= i < pairs@.len() ==> #[trigger] reqs@[i] == (ClientRequest::BankTrade {
                give: res_resource(pairs@[i].0),
                receive: res_resource(pairs@[i].1),
            }),
{
    let mut reqs: Vec<ClientRequest> = Vec::new();
    let mut i: usize = 0;
    while i < pairs.len()
        invariant
            i <= pairs@.len(),
            reqs@.len() == i,
            forall|m: int|
                0 <= m < i ==> #[trigger] reqs@[m] == (ClientRequest::BankTrade {
                    give: res_resource(pairs@[m].0),
                    receive: res_resource(pairs@[m].1),
                }),
        decreases pairs@.len() - i,
    {
        let (g, w) = pairs[i];
        reqs.push(ClientRequest::BankTrade { give: g.shared(), receive: w.shared() });
        i = i + 1;
    }
    reqs
}

/// The request that offers a draft to the whole table.
pub fn table_offer(draft: &TradeDraft) -> (req: ClientRequest)
    ensures
        req == (ClientRequest::TradeOffer {
            target_player_id: None,
            offer: basket_resources(draft.offer),
            request: basket_resources(draft.receive),
            offer_any: draft.offer_any,
            request_any: draft.receive_any,
        }),
{
    ClientRequest::TradeOffer {
        target_player_id: None,
        offer: draft.offer.to_shared(),
        request: draft.receive.to_shared(),
        offer_any: draft.offer_any,
        request_any: draft.receive_any,
    }
}

/// Whether the open offers grew since last counted: an offer reached the
/// table, and the bench it was laid out on empties.
pub fn offers_grew(previous: Option<usize>, now: usize) -> (b: bool)
    ensures
        b == (previous matches Some(before) && now > before),
{
    match previous {
        Some(before) => now > before,
        None => false,
    }
}

/// The most of one kind a draft may ask for, plus one: a click on the
/// palette asks for one more, up to the ceiling.
pub open spec fn asked_one_more(n: u8) -> u8 {
    if n + 1 > MAX_ASK_PER_KIND {
        MAX_ASK_PER_KIND
    } else {
        (n + 1) as u8
    }
}

/// One fewer, not below zero.
pub open spec fn one_fewer(n: u8) -> u8 {
    if n == 0 {
        0
    } else {
        (n - 1) as u8
    }
}

/// Asks for one more card of a kind, up to the ceiling for one kind.
pub fn ask_one_more(b: &mut Basket, k: Res)
    ensures
        in_basket(*final(b), k) == asked_one_more(in_basket(*old(b), k)),
        forall|j: Res| j != k ==> in_basket(*final(b), j) == in_basket(*old(b), j),
{
    let n = b.get(k).saturating_add(1);
    let capped = if n < MAX_ASK_PER_KIND {
        n
    } else {
        MAX_ASK_PER_KIND
    };
    b.set(k, capped);
}

/// Takes one card of a kind back off a side of the draft.
pub fn take_one_back(b: &mut Basket, k: Res)
    ensures
        in_basket(*final(b), k) == one_fewer(in_basket(*old(b), k)),
        forall|j: Res| j != k ==> in_basket(*final(b), j) == in_basket(*old(b), j),
{
    let n = b.get(k).saturating_sub(1);
    b.set(k, n);
}

/// Shuts the trade panel and empties the draft.
pub fn close_draft(draft: &mut TradeDraft)
    ensures
        *final(draft) == (TradeDraft {
            receive: empty_basket(),
            offer: empty_basket(),
            receive_any: 0,
            offer_any: 0,
            open: false,
        }),
{
    draft.clear();
    draft.open = false;
}

/// How many cards the discard prompt asks for, as a count of cards (the
/// count kept to its low eight bits); none when no discard is owed.
pub open spec fn owed_cards(s: GameState) -> u8 {
    match s.must_discard_count {
        Some(n) => n as u8,
        None => 0,
    }
}

impl GameState {
    /// How many cards the discard prompt asks for.
    pub fn discard_owed(&self) -> (n: u8)
        ensures
            n == owed_cards(*self),
    {
        match self.must_discard_count {
            Some(n) => n as u8,
            None => 0,
        }
    }
}

/// Whether the cards picked to discard are exactly the number owed.
pub fn discard_ready(picked: &Basket, owed: u8) -> (b: bool)
    ensures
        b == (basket_total(*picked) == owed),
{
    picked.total() == owed
}

/// How many more cards are still to be picked to discard.
pub fn discard_left(picked: &Basket, owed: u8) -> (n: u8)
    ensures
        n == (if basket_total(*picked) >= owed {
            0
        } else {
            owed - basket_total(*picked)
        }),
{
    owed.saturating_sub(picked.total())
}

/// A click on a card of kind `k` still in the hand: it joins the pile
/// given up, but only while the pile holds fewer cards than are owed.
pub fn pick_discard(picked: &Basket, owed: u8, k: Res) -> (b: Basket)
    ensures
        b == (if basket_total(*picked) < owed {
            with_one_more(*picked, k)
        } else {
            *picked
        }),
        basket_total(*picked) < owed ==> basket_total(b) == basket_total(*picked) + 1,
        basket_total(*picked) <= owed ==> basket_total(b) <= owed,
{
    let mut b = *picked;
    if picked.total() < owed {
        let n = b.get(k);
        b.set(k, n + 1);
        proof {
            assert(in_basket(b, Res::Wood) == in_basket(with_one_more(*picked, k), Res::Wood));
            assert(in_basket(b, Res::Brick) == in_basket(with_one_more(*picked, k), Res::Brick));
            assert(in_basket(b, Res::Sheep) == in_basket(with_one_more(*picked, k), Res::Sheep));
            assert(in_basket(b, Res::Wheat) == in_basket(with_one_more(*picked, k), Res::Wheat));
            assert(in_basket(b, Res::Ore) == in_basket(with_one_more(*picked, k), Res::Ore));
        }
    }
    b
}

/// The pile with one card of kind `k` fewer, none staying none.
pub open spec fn with_one_fewer(bag: Basket, k: Res) -> Basket {
    match k {
        Res::Wood => Basket { wood: if bag.wood > 0 { (bag.wood - 1) as u8 } else { 0 }, ..bag },
        Res::Brick => Basket { brick: if bag.brick > 0 { (bag.brick - 1) as u8 } else { 0 }, ..bag },
        Res::Sheep => Basket { sheep: if bag.sheep > 0 { (bag.sheep - 1) as u8 } else { 0 }, ..bag },
        Res::Wheat => Basket { wheat: if bag.wheat > 0 { (bag.wheat - 1) as u8 } else { 0 }, ..bag },
        Res::Ore => Basket { ore: if bag.ore > 0 { (bag.ore - 1) as u8 } else { 0 }, ..bag },
    }
}

/// A click on a card of kind `k` already in the pile: it goes back to the
/// hand.
pub fn unpick_discard(picked: &Basket, k: Res) -> (b: Basket)
    ensures
        b == with_one_fewer(*picked, k),
{
    let mut b = *picked;
    let n = b.get(k);
    b.set(k, n.saturating_sub(1));
    proof {
        assert(in_basket(b, Res::Wood) == in_basket(with_one_fewer(*picked, k), Res::Wood));
        assert(in_basket(b, Res::Brick) == in_basket(with_one_fewer(*picked, k), Res::Brick));
        assert(in_basket(b, Res::Sheep) == in_basket(with_one_fewer(*picked, k), Res::Sheep));
        assert(in_basket(b, Res::Wheat) == in_basket(with_one_fewer(*picked, k), Res::Wheat));
        assert(in_basket(b, Res::Ore) == in_basket(with_one_fewer(*picked, k), Res::Ore));
    }
    b
}

/// What handing the pile over asks of the server: the pile, once it holds
/// exactly the number owed, and nothing before.
pub fn discard_request(picked: &Basket, owed: u8) -> (r: Option<ClientRequest>)
    ensures
        r is Some <==> basket_total(*picked) == owed,
        r matches Some(q) ==> q == (ClientRequest::DiscardCards { resources: basket_resources(*picked) }),
{
    if picked.total() == owed {
        Some(ClientRequest::DiscardCards { resources: picked.to_shared() })
    } else {
        None
    }
}

/// The first kind, in tray order, of which the hand holds more than the
/// pile already takes.
pub open spec fn first_spare(bag: Basket, hand: Resources) -> Option<Res> {
    if held(Res::Wood, hand) > in_basket(bag, Res::Wood) {
        Some(Res::Wood)
    } else if held(Res::Brick, hand) > in_basket(bag, Res::Brick) {
        Some(Res::Brick)
    } else if held(Res::Sheep, hand) > in_basket(bag, Res::Sheep) {
        Some(Res::Sheep)
    } else if held(Res::Wheat, hand) > in_basket(bag, Res::Wheat) {
        Some(Res::Wheat)
    } else if held(Res::Ore, hand) > in_basket(bag, Res::Ore) {
        Some(Res::Ore)
    } else {
        None
    }
}

/// The pile with one more card of kind `k`.
pub open spec fn with_one_more(bag: Basket, k: Res) -> Basket {
    match k {
        Res::Wood => Basket { wood: (bag.wood + 1) as u8, ..bag },
        Res::Brick => Basket { brick: (bag.brick + 1) as u8, ..bag },
        Res::Sheep => Basket { sheep: (bag.sheep + 1) as u8, ..bag },
        Res::Wheat => Basket { wheat: (bag.wheat + 1) as u8, ..bag },
        Res::Ore => Basket { ore: (bag.ore + 1) as u8, ..bag },
    }
}

/// A discard topped up when time runs out: `short` more cards are added one
/// at a time, each of the first kind in tray order the hand still has
/// spare, until none is spare.
pub open spec fn topped_up(bag: Basket, short: nat, hand: Resources) -> Basket
    decreases short,
{
    if short == 0 {
        bag
    } else {
        match first_spare(bag, hand) {
            Some(k) => topped_up(with_one_more(bag, k), (short - 1) as nat, hand),
            None => bag,
        }
    }
}

/// The first kind the hand has spare beyond the pile.
fn spare_kind(bag: &Basket, hand: &Resources) -> (r: Option<Res>)
    ensures
        r == first_spare(*bag, *hand),
{
    if hand.lumber > bag.wood {
        Some(Res::Wood)
    } else if hand.brick > bag.brick {
        Some(Res::Brick)
    } else if hand.wool > bag.sheep {
        Some(Res::Sheep)
    } else if hand.grain > bag.wheat {
        Some(Res::Wheat)
    } else if hand.ore > bag.ore {
        Some(Res::Ore)
    } else {
        None
    }
}

/// The discard to send when time runs out: the cards picked so far, topped
/// up from the hand to the number owed.
pub fn auto_discard(picked: &Basket, owed: u8, hand: &Resources) -> (bag: Basket)
    ensures
        bag == topped_up(*picked, (if basket_total(*picked) >= owed {
            0
        } else {
            owed - basket_total(*picked)
        }) as nat, *hand),
{
    let mut bag = *picked;
    let mut short = owed.saturating_sub(bag.total());
    let ghost start = short;
    loop
        invariant
            topped_up(*picked, start as nat, *hand) == topped_up(bag, short as nat, *hand),
        ensures
            topped_up(*picked, start as nat, *hand) == bag,
        decreases short,
    {
        if short == 0 {
            break;
        }
        match spare_kind(&bag, hand) {
            Some(k) => {
                let ghost prev = bag;
                let n = bag.get(k);
                bag.set(k, n + 1);
                proof {
                    assert(in_basket(bag, Res::Wood) == in_basket(with_one_more(prev, k), Res::Wood));
                    assert(in_basket(bag, Res::Brick) == in_basket(with_one_more(prev, k), Res::Brick));
                    assert(in_basket(bag, Res::Sheep) == in_basket(with_one_more(prev, k), Res::Sheep));
                    assert(in_basket(bag, Res::Wheat) == in_basket(with_one_more(prev, k), Res::Wheat));
                    assert(in_basket(bag, Res::Ore) == in_basket(with_one_more(prev, k), Res::Ore));
                    assert(bag == with_one_more(prev, k));
                }
                short = short - 1;
            },
            None => {
                break;
            },
        }
    }
    bag
}

/// How many seconds a discard prompt gives before the cards are handed
/// over for the player.
pub const DISCARD_SECONDS: u8 = 30;

/// The discard prompt's own state: the seconds left on its countdown,
/// whether the countdown has already handed cards over for this prompt, and
/// the pile picked so far.
#[derive(Clone, Copy, Debug, PartialEq, Eq, Structural)]
pub struct DiscardPrompt {
    pub time_left: u8,
    pub sent: bool,
    pub picked: Basket,
}

/// The cards still to find when time runs out.
pub open spec fn short_of(picked: Basket, owed: u8) -> nat {
    if basket_total(picked) >= owed {
        0
    } else {
        (owed - basket_total(picked)) as nat
    }
}

/// Whether a tick of the countdown hands the cards over: the count has run
/// out, nothing has gone for this prompt yet, and the prompt still stands.
pub open spec fn fires(p: DiscardPrompt, prompted: bool) -> bool {
    p.time_left <= 1 && !p.sent && prompted
}

/// The prompt after one tick of the countdown, and what the tick sends.
pub open spec fn ticked(p: DiscardPrompt, prompted: bool, owed: u8, hand: Resources) -> (
    DiscardPrompt,
    Option<ClientRequest>,
) {
    let left = if p.time_left > 0 {
        (p.time_left - 1) as u8
    } else {
        0u8
    };
    if fires(p, prompted) {
        (
            DiscardPrompt { time_left: left, sent: true, picked: empty_basket() },
            Some(
                ClientRequest::DiscardCards {
                    resources: basket_resources(topped_up(p.picked, short_of(p.picked, owed), hand)),
                },
            ),
        )
    } else {
        (DiscardPrompt { time_left: left, ..p }, None)
    }
}

impl DiscardPrompt {
    /// A prompt not yet counting, with nothing picked.
    pub fn new() -> (p: Self)
        ensures
            p == (DiscardPrompt { time_left: DISCARD_SECONDS, sent: false, picked: empty_basket() }),
    {
        DiscardPrompt { time_left: DISCARD_SECONDS, sent: false, picked: Basket { wood: 0, brick: 0, sheep: 0, wheat: 0, ore: 0 } }
    }

    /// The prompt came or went. When it goes, the pile is emptied; when it
    /// comes, the countdown starts again from the top and may send once more.
    pub fn prompt_changed(&mut self, prompted: bool)
        ensures
            *final(self) == (if prompted {
                DiscardPrompt { time_left: DISCARD_SECONDS, sent: false, ..*old(self) }
            } else {
                DiscardPrompt { picked: empty_basket(), ..*old(self) }
            }),
    {
        if prompted {
            self.time_left = DISCARD_SECONDS;
            self.sent = false;
        } else {
            self.picked = Basket { wood: 0, brick: 0, sheep: 0, wheat: 0, ore: 0 };
        }
    }

    /// A click on a card still in the hand.
    pub fn pick(&mut self, owed: u8, k: Res)
        ensures
            *final(self) == (DiscardPrompt { picked: final(self).picked, ..*old(self) }),
            final(self).picked == (if basket_total(old(self).picked) < owed {
                with_one_more(old(self).picked, k)
            } else {
                old(self).picked
            }),
    {
        self.picked = pick_discard(&self.picked, owed, k);
    }

    /// A click on a card already in the pile.
    pub fn unpick(&mut self, k: Res)
        ensures
            *final(self) == (DiscardPrompt { picked: with_one_fewer(old(self).picked, k), ..*old(self) }),
    {
        self.picked = unpick_discard(&self.picked, k);
    }

    /// One second of the countdown. When it runs out with the prompt still
    /// standing, the pile picked so far, topped up from the hand to the
    /// number owed, is handed over and the pile emptied, once per prompt.
    pub fn tick(&mut self, prompted: bool, owed: u8, hand: &Resources) -> (r: Option<ClientRequest>)
        ensures
            (*final(self), r) == ticked(*old(self), prompted, owed, *hand),
    {
        let left = if self.time_left > 0 {
            self.time_left - 1
        } else {
            0
        };
        let go = self.time_left <= 1 && !self.sent && prompted;
        self.time_left = left;
        if go {
            let bag = auto_discard(&self.picked, owed, hand);
            self.sent = true;
            self.picked = Basket { wood: 0, brick: 0, sheep: 0, wheat: 0, ore: 0 };
            Some(ClientRequest::DiscardCards { resources: bag.to_shared() })
        } else {
            None
        }
    }
}

/// Whether a hand holds everything a record of cards asks for.
pub open spec fn holds_all(hand: Resources, asked: Resources) -> bool {
    asked.brick <= hand.brick && asked.lumber <= hand.lumber && asked.wool <= hand.wool && asked.grain <= hand.grain
        && asked.ore <= hand.ore
}

/// The counter this client made to an offer, if it made one: the first
/// record of it.
pub open spec fn counter_to(counters: Seq<(u64, u64)>, offer_id: u64) -> Option<u64>
    decreases counters.len(),
{
    if counters.len() == 0 {
        None
    } else if counters[0].0 == offer_id {
        Some(counters[0].1)
    } else {
        counter_to(counters.drop_first(), offer_id)
    }
}

/// Whether this client has answered an offer, by accepting or countering it.
pub open spec fn answered(s: GameState, offer_id: u64) -> bool {
    s.my_accepted_offers@.contains(offer_id) || counter_to(s.my_counter_offers@, offer_id) is Some
}

impl GameState {
    /// The counter this client made to an offer, if any.
    pub fn my_counter(&self, offer_id: u64) -> (r: Option<u64>)
        ensures
            r == counter_to(self.my_counter_offers@, offer_id),
    {
        let mut k: usize = 0;
        proof {
            assert(self.my_counter_offers@.skip(0) =~= self.my_counter_offers@);
        }
        while k < self.my_counter_offers.len()
            invariant
                k <= self.my_counter_offers@.len(),
                counter_to(self.my_counter_offers@, offer_id) == counter_to(
                    self.my_counter_offers@.skip(k as int),
                    offer_id,
                ),
            decreases self.my_counter_offers@.len() - k,
        {
            proof {
                assert(self.my_counter_offers@.skip(k as int).drop_first() =~= self.my_counter_offers@.skip(k + 1));
            }
            let (countered, counter) = self.my_counter_offers[k];
            if countered == offer_id {
                return Some(counter);
            }
            k = k + 1;
        }
        None
    }

    /// Whether this client has answered an offer.
    pub fn has_answered(&self, offer_id: u64) -> (b: bool)
        ensures
            b == answered(*self, offer_id),
    {
        crate::lists::has_u64(&self.my_accepted_offers, offer_id) || self.my_counter(offer_id).is_some()
    }

    /// Whether this client's hand holds what an offer asks of it.
    pub fn can_afford(&self, trade: &PendingTradeOffer) -> (b: bool)
        ensures
            b == holds_all(self.my_resources, trade.requesting),
            b <==> forall|k: Res| #[trigger] held(k, trade.requesting) <= held(k, self.my_resources),
    {
        let r = self.my_resources;
        let asking = trade.requesting;
        let b = asking.brick <= r.brick && asking.lumber <= r.lumber && asking.wool <= r.wool && asking.grain
            <= r.grain && asking.ore <= r.ore;
        proof {
            assert(held(Res::Wood, r) == r.lumber && held(Res::Brick, r) == r.brick && held(Res::Sheep, r) == r.wool
                && held(Res::Wheat, r) == r.grain && held(Res::Ore, r) == r.ore);
            assert(held(Res::Wood, asking) == asking.lumber && held(Res::Brick, asking) == asking.brick && held(
                Res::Sheep,
                asking,
            ) == asking.wool && held(Res::Wheat, asking) == asking.grain && held(Res::Ore, asking) == asking.ore);
        }
        b
    }

    /// Whether an offer can be taken as it stands: the hand holds what it
    /// asks, and it names every card (one with unnamed cards is answered by
    /// countering).
    pub fn can_accept(&self, trade: &PendingTradeOffer) -> (b: bool)
        ensures
            b == (holds_all(self.my_resources, trade.requesting) && trade.offering_any == 0 && trade.requesting_any
                == 0),
    {
        self.can_afford(trade) && !(trade.offering_any > 0 || trade.requesting_any > 0)
    }

    /// Whether to say the hand falls short of an unanswered offer.
    pub fn falls_short(&self, trade: &PendingTradeOffer) -> (b: bool)
        ensures
            b == (!holds_all(self.my_resources, trade.requesting) && !answered(*self, trade.offer_id)),
    {
        !self.can_afford(trade) && !self.has_answered(trade.offer_id)
    }

    /// What taking back an answer asks of the server: cancelling the
    /// counter made to the offer, or else withdrawing the acceptance.
    pub fn withdraw_request(&self, offer_id: u64) -> (req: ClientRequest)
        ensures
            req == (match counter_to(self.my_counter_offers@, offer_id) {
                Some(c) => ClientRequest::CancelTrade { offer_id: c },
                None => ClientRequest::TradeResponse { offer_id, accept: false },
            }),
    {
        match self.my_counter(offer_id) {
            Some(c) => ClientRequest::CancelTrade { offer_id: c },
            None => ClientRequest::TradeResponse { offer_id, accept: false },
        }
    }
}

/// Whether an offer may be countered: a counter is not itself countered.
pub fn may_counter(trade: &PendingTradeOffer) -> (b: bool)
    ensures
        b == (trade.counters is None),
{
    trade.counters.is_none()
}

/// What taking an offer asks of the server: a counter made to one of this
/// client's offers is settled at once, any other offer is accepted.
pub fn accept_request(trade: &PendingTradeOffer) -> (req: ClientRequest)
    ensures
        req == (if trade.counters is Some {
            ClientRequest::ConfirmTrade { offer_id: trade.offer_id, partner_id: trade.proposer_id }
        } else {
            ClientRequest::TradeResponse { offer_id: trade.offer_id, accept: true }
        }),
{
    if trade.counters.is_some() {
        ClientRequest::ConfirmTrade { offer_id: trade.offer_id, partner_id: trade.proposer_id }
    } else {
        ClientRequest::TradeResponse { offer_id: trade.offer_id, accept: true }
    }
}

/// What turning an offer down asks of the server: a counter to one of this
/// client's offers is cancelled, any other offer is declined.
pub fn decline_request(trade: &PendingTradeOffer) -> (req: ClientRequest)
    ensures
        req == (if trade.counters is Some {
            ClientRequest::CancelTrade { offer_id: trade.offer_id }
        } else {
            ClientRequest::TradeResponse { offer_id: trade.offer_id, accept: false }
        }),
{
    if trade.counters.is_some() {
        ClientRequest::CancelTrade { offer_id: trade.offer_id }
    } else {
        ClientRequest::TradeResponse { offer_id: trade.offer_id, accept: false }
    }
}

/// The bidder picked on one of this client's offers, once the bids are in:
/// with no bid none, with one bid that bidder, with several the pick so far
/// if it is still among them.
pub open spec fn partner_pick(accepters: Seq<PlayerId>, chosen: Option<PlayerId>) -> Option<PlayerId> {
    if accepters.len() == 0 {
        None
    } else if accepters.len() == 1 {
        Some(accepters[0])
    } else {
        match chosen {
            Some(id) => if accepters.contains(id) {
                Some(id)
            } else {
                None
            },
            None => None,
        }
    }
}

/// The bidder picked on an offer once the bids are in.
pub fn pick_partner(accepters: &Vec<PlayerId>, chosen: Option<PlayerId>) -> (r: Option<PlayerId>)
    ensures
        r == partner_pick(accepters@, chosen),
{
    if accepters.len() == 0 {
        None
    } else if accepters.len() == 1 {
        Some(accepters[0])
    } else {
        match chosen {
            Some(id) => if crate::lists::has_player_id(accepters, id) {
                Some(id)
            } else {
                None
            },
            None => None,
        }
    }
}

/// Whether one of several bidders still has to be picked.
pub fn must_pick(accepters: &Vec<PlayerId>, chosen: Option<PlayerId>) -> (b: bool)
    ensures
        b == (accepters@.len() > 1 && chosen is None),
{
    accepters.len() > 1 && chosen.is_none()
}

/// The answers to one of this client's offers, as its card lists them:
/// each bidder marked `true`, oldest first, then each refusal marked `false`.
pub fn offer_answers(o: &MyOffer) -> (v: Vec<(PlayerId, bool)>)
    ensures
        v@ == o.accepters@.map_values(|id: PlayerId| (id, true)) + o.decliners@.map_values(
            |id: PlayerId| (id, false),
        ),
{
    let mut v: Vec<(PlayerId, bool)> = Vec::new();
    let mut i: usize = 0;
    while i < o.accepters.len()
        invariant
            i <= o.accepters@.len(),
            v@ == o.accepters@.take(i as int).map_values(|id: PlayerId| (id, true)),
        decreases o.accepters@.len() - i,
    {
        v.push((o.accepters[i], true));
        proof {
            assert(o.accepters@.take(i + 1).map_values(|id: PlayerId| (id, true)) =~= o.accepters@.take(
                i as int,
            ).map_values(|id: PlayerId| (id, true)).push((o.accepters@[i as int], true)));
        }
        i = i + 1;
    }
    proof {
        assert(o.accepters@.take(o.accepters@.len() as int) =~= o.accepters@);
    }
    let ghost head = v@;
    let mut j: usize = 0;
    while j < o.decliners.len()
        invariant
            j <= o.decliners@.len(),
            head == o.accepters@.map_values(|id: PlayerId| (id, true)),
            v@ == head + o.decliners@.take(j as int).map_values(|id: PlayerId| (id, false)),
        decreases o.decliners@.len() - j,
    {
        v.push((o.decliners[j], false));
        proof {
            assert(o.decliners@.take(j + 1).map_values(|id: PlayerId| (id, false)) =~= o.decliners@.take(
                j as int,
            ).map_values(|id: PlayerId| (id, false)).push((o.decliners@[j as int], false)));
        }
        j = j + 1;
    }
    proof {
        assert(o.decliners@.take(o.decliners@.len() as int) =~= o.decliners@);
    }
    v
}

/// What settling one of this client's offers asks of the server: the trade
/// with the bidder chosen, once one is.
pub fn confirm_request(offer_id: u64, chosen: Option<PlayerId>) -> (r: Option<ClientRequest>)
    ensures
        r == (match chosen {
            Some(partner_id) => Some(ClientRequest::ConfirmTrade { offer_id, partner_id }),
            None => None,
        }),
{
    match chosen {
        Some(partner_id) => Some(ClientRequest::ConfirmTrade { offer_id, partner_id }),
        None => None,
    }
}

/// What taking one of this client's offers off the table asks of the
/// server, whether to drop it or to edit it.
pub fn cancel_request(offer_id: u64) -> (r: ClientRequest)
    ensures
        r == (ClientRequest::CancelTrade { offer_id }),
{
    ClientRequest::CancelTrade { offer_id }
}

/// The draft an offer is taken back into for editing: its cards back on
/// the bench and the panel open.
pub fn draft_from_offer(o: &MyOffer) -> (d: TradeDraft)
    ensures
        d == (TradeDraft {
            receive: crate::hand::resources_basket(o.requesting),
            offer: crate::hand::resources_basket(o.offering),
            receive_any: o.requesting_any,
            offer_any: o.offering_any,
            open: true,
        }),
{
    TradeDraft {
        receive: crate::hand::to_basket(&o.requesting),
        offer: crate::hand::to_basket(&o.offering),
        receive_any: o.requesting_any,
        offer_any: o.offering_any,
        open: true,
    }
}

/// Whether a counter-offer can be sent: something on both sides, and the
/// hand holds what it puts up.
pub fn counter_valid(give: &Basket, want: &Basket, hand: &Resources) -> (b: bool)
    ensures
        b == (basket_total(*give) > 0 && basket_total(*want) > 0 && holds_all(*hand, basket_resources(*give))),
        b ==> forall|k: Res| in_basket(*give, k) <= #[trigger] held(k, *hand),
{
    let afford = give.wood <= hand.lumber && give.brick <= hand.brick && give.sheep <= hand.wool && give.wheat
        <= hand.grain && give.ore <= hand.ore;
    give.total() > 0 && want.total() > 0 && afford
}

/// The cards picked for Year of Plenty after a click: a first and second
/// pick in order, and past two the second pick replaced.
pub open spec fn plenty_after(picks: Seq<crate::rules::ResourceType>, r: crate::rules::ResourceType) -> Seq<
    crate::rules::ResourceType,
> {
    if picks.len() < 2 {
        picks.push(r)
    } else {
        picks.update(1, r)
    }
}

/// Picks a card for Year of Plenty.
pub fn pick_plenty(picks: &mut Vec<crate::rules::ResourceType>, r: crate::rules::ResourceType)
    ensures
        final(picks)@ == plenty_after(old(picks)@, r),
{
    if picks.len() < 2 {
        picks.push(r);
    } else {
        picks.set(1, r);
    }
}

/// The request that takes the two Year of Plenty cards, once two are picked.
pub fn plenty_request(picks: &Vec<crate::rules::ResourceType>) -> (req: Option<ClientRequest>)
    ensures
        picks@.len() == 2 ==> req == Some(
            ClientRequest::YearOfPlentyChoice { resource1: picks@[0], resource2: picks@[1] },
        ),
        picks@.len() != 2 ==> req is None,
{
    if picks.len() == 2 {
        Some(ClientRequest::YearOfPlentyChoice { resource1: picks[0], resource2: picks[1] })
    } else {
        None
    }
}

impl GameState {
    /// Robs a player: the request to send, and the choice of victims is put away.
    pub fn rob_player(&mut self, victim_id: PlayerId) -> (req: ClientRequest)
        ensures
            req == (ClientRequest::StealFromPlayer { victim_id }),
            final(self).must_steal_from_players@.len() == 0,
            *final(self) == (GameState { must_steal_from_players: final(self).must_steal_from_players, ..*old(self) }),
    {
        self.must_steal_from_players = Vec::new();
        ClientRequest::StealFromPlayer { victim_id }
    }
}

/// How many cards of a kind a list holds.
pub open spec fn kind_count(cards: Seq<crate::rules::DevCardType>, kind: crate::rules::DevCardType) -> nat
    decreases cards.len(),
{
    if cards.len() == 0 {
        0
    } else {
        kind_count(cards.drop_last(), kind) + if cards.last() == kind {
            1nat
        } else {
            0nat
        }
    }
}

/// Whether the development card at position `i` of the hand is one drawn
/// this turn. Cards of a kind are alike, so of the cards of one kind the
/// last as many as were drawn this turn count as the fresh ones.
pub open spec fn card_fresh(hand: Seq<crate::rules::DevCardType>, drawn: Seq<crate::rules::DevCardType>, i: int) -> bool {
    let kind = hand[i];
    let held = kind_count(hand, kind);
    let fresh = kind_count(drawn, kind);
    kind_count(hand.take(i), kind) >= (if held >= fresh {
        held - fresh
    } else {
        0
    })
}

/// How many cards of a kind a list holds.
fn count_kind(cards: &Vec<crate::rules::DevCardType>, kind: crate::rules::DevCardType, upto: usize) -> (n: usize)
    requires
        upto <= cards@.len(),
    ensures
        n == kind_count(cards@.take(upto as int), kind),
        n <= upto,
{
    let mut n: usize = 0;
    let mut k: usize = 0;
    while k < upto
        invariant
            upto <= cards@.len(),
            k <= upto,
            n == kind_count(cards@.take(k as int), kind),
            n <= k,
        decreases upto - k,
    {
        proof {
            assert(cards@.take(k + 1).drop_last() =~= cards@.take(k as int));
        }
        if cards[k] == kind {
            n = n + 1;
        }
        k = k + 1;
    }
    n
}

/// The development cards in hand, each with its position and whether it
/// was drawn this turn (and so cannot be played yet).
pub fn dev_cards_keyed(hand: &Vec<crate::rules::DevCardType>, drawn: &Vec<crate::rules::DevCardType>) -> (out: Vec<
    (usize, crate::rules::DevCardType, bool),
>)
    ensures
        out@.len() == hand@.len(),
        forall|i: int|
            0 <= i < hand@.len() ==> #[trigger] out@[i] == (i as usize, hand@[i], card_fresh(hand@, drawn@, i)),
{
    let mut out: Vec<(usize, crate::rules::DevCardType, bool)> = Vec::new();
    let mut i: usize = 0;
    proof {
        assert(hand@.take(hand@.len() as int) =~= hand@);
        assert(drawn@.take(drawn@.len() as int) =~= drawn@);
    }
    while i < hand.len()
        invariant
            i <= hand@.len(),
            hand@.take(hand@.len() as int) == hand@,
            drawn@.take(drawn@.len() as int) == drawn@,
            out@.len() == i,
            forall|m: int| 0 <= m < i ==> #[trigger] out@[m] == (m as usize, hand@[m], card_fresh(hand@, drawn@, m)),
        decreases hand@.len() - i,
    {
        let card = hand[i];
        let held = count_kind(hand, card, hand.len());
        let fresh = count_kind(drawn, card, drawn.len());
        let ordinal = count_kind(hand, card, i);
        out.push((i, card, ordinal >= held.saturating_sub(fresh)));
        i = i + 1;
    }
    out
}

/// The resource cards of a hand as the tray lays them out: kind by kind in
/// tray order, one entry per card, the last cards of each kind marked when
/// the trade being drafted puts them up (never more than are held).
pub open spec fn tray_of(hand: Resources, up: Basket) -> Seq<(Res, bool)> {
    tray_run(hand, up, Res::Wood) + tray_run(hand, up, Res::Brick) + tray_run(hand, up, Res::Sheep) + tray_run(
        hand,
        up,
        Res::Wheat,
    ) + tray_run(hand, up, Res::Ore)
}

/// The tray's cards of one kind.
pub open spec fn tray_run(hand: Resources, up: Basket, k: Res) -> Seq<(Res, bool)> {
    let n = held(k, hand);
    let committed = if in_basket(up, k) < n {
        in_basket(up, k)
    } else {
        n
    };
    Seq::new(n as nat, |i: int| (k, i >= n - committed))
}

/// The tray's cards of the first `j` kinds.
pub open spec fn tray_upto(hand: Resources, up: Basket, j: int) -> Seq<(Res, bool)>
    decreases j,
{
    if j <= 0 {
        Seq::empty()
    } else {
        tray_upto(hand, up, j - 1) + tray_run(hand, up, res_order()[j - 1])
    }
}

/// The resource cards of a hand as the tray lays them out.
pub fn tray_cards(hand: &Resources, up: &Basket) -> (out: Vec<(Res, bool)>)
    ensures
        out@ == tray_of(*hand, *up),
{
    let kinds = Res::all();
    let mut out: Vec<(Res, bool)> = Vec::new();
    let mut j: usize = 0;
    while j < 5
        invariant
            kinds@ == res_order(),
            j <= 5,
            out@ == tray_upto(*hand, *up, j as int),
        decreases 5 - j,
    {
        let k = kinds[j];
        let n = k.in_hand(hand);
        let committed = if up.get(k) < n {
            up.get(k)
        } else {
            n
        };
        let ghost before = out@;
        let mut i: u8 = 0;
        while i < n
            invariant
                i <= n,
                committed <= n,
                n == held(k, *hand),
                committed == (if in_basket(*up, k) < n { in_basket(*up, k) } else { n }),
                out@ == before + tray_run(*hand, *up, k).take(i as int),
            decreases n - i,
        {
            out.push((k, i >= n - committed));
            i = i + 1;
            proof {
                assert(out@ =~= before + tray_run(*hand, *up, k).take(i as int));
            }
        }
        proof {
            assert(tray_run(*hand, *up, k).take(n as int) =~= tray_run(*hand, *up, k));
        }
        j = j + 1;
    }
    proof {
        reveal_with_fuel(tray_upto, 6);
        assert(tray_upto(*hand, *up, 5) =~= tray_of(*hand, *up));
    }
    out
}

/// The chat message a draft sends: the draft trimmed, and nothing when
/// that leaves it empty.
pub fn chat_request(draft: &str) -> (req: Option<ClientRequest>)
    ensures
        match req {
            Some(ClientRequest::Chat { message }) => message@ == crate::banklog::trim(draft@) && message@.len() > 0,
            Some(_) => false,
            None => crate::banklog::trim(draft@).len() == 0,
        },
{
    let text = crate::banklog::trimmed(draft);
    let v = crate::banklog::chars_of(text.as_str());
    if v.len() == 0 {
        None
    } else {
        Some(ClientRequest::Chat { message: text })
    }
}

/// How many cards of a resource the bank holds; none of the desert.
pub fn bank_count(bank: &crate::rules::BankInfo, res: crate::rules::ResourceType) -> (n: u8)
    ensures
        n == (match res {
            crate::rules::ResourceType::Wood => bank.resources.lumber,
            crate::rules::ResourceType::Brick => bank.resources.brick,
            crate::rules::ResourceType::Sheep => bank.resources.wool,
            crate::rules::ResourceType::Wheat => bank.resources.grain,
            crate::rules::ResourceType::Ore => bank.resources.ore,
            crate::rules::ResourceType::Desert => 0,
        }),
{
    let r = bank.resources;
    match res {
        crate::rules::ResourceType::Wood => r.lumber,
        crate::rules::ResourceType::Brick => r.brick,
        crate::rules::ResourceType::Sheep => r.wool,
        crate::rules::ResourceType::Wheat => r.grain,
        crate::rules::ResourceType::Ore => r.ore,
        crate::rules::ResourceType::Desert => 0,
    }
}

impl GameState {
    /// Whether this client won: a winner is known, and it is this client.
    pub fn i_won(&self) -> (b: bool)
        ensures
            b == (self.winner_player_id is Some && self.winner_player_id == self.player_id),
    {
        self.winner_player_id.is_some() && self.winner_player_id == self.player_id
    }
}

impl GameState {
    /// Leaving the table: the request to leave the game this client sits
    /// at, if it sits at one.
    pub fn leave_request(&self) -> (req: Option<ClientRequest>)
        ensures
            req == (match self.game_id {
                Some(g) => Some(ClientRequest::LeaveGame { game_id: g }),
                None => None,
            }),
    {
        match &self.game_id {
            Some(g) => Some(ClientRequest::LeaveGame { game_id: g.clone() }),
            None => None,
        }
    }
}

/// What confirming the monopoly prompt asks of the server: the resource
/// picked, once one is.
pub fn monopoly_request(selected: Option<crate::rules::ResourceType>) -> (req: Option<ClientRequest>)
    ensures
        req == (match selected {
            Some(resource) => Some(ClientRequest::MonopolyChoice { resource }),
            None => None,
        }),
{
    match selected {
        Some(resource) => Some(ClientRequest::MonopolyChoice { resource }),
        None => None,
    }
}

/// The faces the dice show mid-throw at clock reading `t` (milliseconds):
/// each a number from one to six that moves on as the clock does.
pub fn tumble_faces(t: u64) -> (f: (u8, u8))
    ensures
        f.0 == t % 6 + 1,
        f.1 == (t / 7) % 6 + 1,
        1 <= f.0 <= 6,
        1 <= f.1 <= 6,
{
    (((t % 6) as u8) + 1, (((t / 7) % 6) as u8) + 1)
}

} // verus!
