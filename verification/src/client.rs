//! The client's model of the game: everything the table shows, kept up to
//! date as messages from the server arrive.

use vstd::prelude::*;
use crate::rules::{
    BankInfo, BuildingInfo, DevCardType, GamePhase, HexInfo, LobbyGameInfo, PlayerId, PlayerInfo,
    PortInfo, PortType, ResourceType, Resources, empty_hand, special_builder_of,
};
use crate::stats::GameStats;
use crate::text::{uuid_string, uuid_text};
use vstd::string::*;

verus! {

/// What a click on the board will try to build.
#[derive(Clone, Copy, Debug, PartialEq, Eq, Structural)]
pub enum BuildMode {
    Idle,
    Settlement,
    City,
    Road,
}

/// A trade offer from another player that this client may answer.
#[derive(Clone, Copy, Debug, PartialEq, Eq, Structural)]
pub struct PendingTradeOffer {
    pub offer_id: u64,
    pub proposer_id: PlayerId,
    pub target_player_id: Option<PlayerId>,
    pub offering: Resources,
    pub requesting: Resources,
    /// Unspecified cards on each side; answered by countering, not accepting.
    pub offering_any: u8,
    pub requesting_any: u8,
    /// When the offer reached this client, in milliseconds of the wall clock
    /// (wound back on a reconnect to where the server's countdown stands).
    pub received_at: i128,
    /// Set when this is a counter to an earlier offer.
    pub counters: Option<u64>,
}

/// An offer of mine that is still on the table, and how people have answered.
#[derive(Clone, Debug, PartialEq, Eq)]
pub struct MyOffer {
    pub offer_id: u64,
    pub offering: Resources,
    pub requesting: Resources,
    pub offering_any: u8,
    pub requesting_any: u8,
    /// Bids, oldest first.
    pub accepters: Vec<PlayerId>,
    /// Refusals.
    pub decliners: Vec<PlayerId>,
}

/// A card taken by the robber, for the animation to follow.
#[derive(Clone, Copy, Debug, PartialEq, Eq, Structural)]
pub struct StealEvent {
    pub thief: PlayerId,
    pub victim: PlayerId,
    /// `None` for onlookers, who are not told which card it was.
    pub resource: Option<ResourceType>,
    /// Counts up, so two identical steals are still two events.
    pub seq: u64,
}

/// A Monopoly transfer, which can involve several players at once.
#[derive(Clone, Debug, PartialEq, Eq)]
pub struct MonopolyEvent {
    pub thief: PlayerId,
    pub resource: ResourceType,
    pub victims: Vec<PlayerId>,
    pub total_stolen: u32,
    pub seq: u64,
}

/// One line of player chat.
#[derive(Clone, Debug, PartialEq, Eq)]
pub struct ChatLine {
    pub player_id: PlayerId,
    pub text: String,
    /// Counts up, so two identical messages still key apart.
    pub seq: u64,
}

/// Everything the client knows about the lobby and the game it sits in.
pub struct GameState {
    /// The event log, oldest first.
    pub messages: Vec<String>,
    /// Player talk, kept apart from the event log.
    pub chat: Vec<ChatLine>,
    /// What the bank has left.
    pub bank: BankInfo,
    pub is_in_game: bool,
    pub lobby_games: Vec<LobbyGameInfo>,
    /// The name this player last typed.
    pub my_name: String,
    pub connection_error: Option<String>,
    pub is_connecting: bool,
    pub game_id: Option<String>,
    pub player_id: Option<PlayerId>,
    pub players: Vec<PlayerInfo>,
    pub current_turn_player: PlayerId,
    pub my_resources: Resources,
    pub game_phase: GamePhase,
    pub hexes: Vec<HexInfo>,
    pub settlements: Vec<BuildingInfo>,
    pub cities: Vec<BuildingInfo>,
    pub roads: Vec<BuildingInfo>,
    pub robber_pos: Option<(i32, i32)>,
    pub robber_asset: String,
    pub board_ports: Vec<PortInfo>,
    /// The roll for this turn, cleared when the turn changes.
    pub last_dice_roll: Option<(u8, u8)>,
    /// The last roll anybody made, never cleared.
    pub table_last_roll: Option<(u8, u8)>,
    /// The total just rolled, and a counter that ticks on every roll.
    pub last_roll_event: Option<(u8, u64)>,
    pub last_steal_event: Option<StealEvent>,
    pub last_monopoly_event: Option<MonopolyEvent>,
    /// Ticks once per turn handed out by the server.
    pub turn_epoch: u64,
    pub build_mode: BuildMode,
    pub my_dev_cards: Vec<DevCardType>,
    /// Cards drawn this turn, which cannot be played until the next one.
    pub fresh_dev_cards: Vec<DevCardType>,
    /// One development card per turn.
    pub dev_card_played_this_turn: bool,
    pub must_discard_count: Option<usize>,
    pub must_move_robber: bool,
    pub must_steal_from_players: Vec<PlayerId>,
    /// True when I rolled a seven and others still have to discard.
    pub waiting_for_discards: bool,
    /// Free roads from a Road Building card.
    pub free_roads_remaining: u8,
    pub year_of_plenty_pending: bool,
    pub monopoly_pending: bool,
    pub my_ports: Vec<PortType>,
    pub incoming_trades: Vec<PendingTradeOffer>,
    /// Every offer of mine still on the table, oldest first.
    pub my_offers: Vec<MyOffer>,
    /// Offer ids I have accepted and am waiting on the proposer to settle.
    pub my_accepted_offers: Vec<u64>,
    /// Counters I have outstanding, as (offer I answered, my counter's id).
    pub my_counter_offers: Vec<(u64, u64)>,
    pub secret_victory_points: i32,
    pub winner_player_id: Option<PlayerId>,
    /// The end-of-game tally, as sent with the victory.
    pub game_stats: Option<GameStats>,
}

impl GameState {
    /// A client that has not reached the server yet, remembering the name
    /// the player last typed.
    pub fn new(my_name: String) -> (s: Self)
        ensures
            s.messages@.len() == 0,
            s.chat@.len() == 0,
            s.bank == (BankInfo { resources: empty_hand(), dev_cards: 0 }),
            !s.is_in_game,
            s.lobby_games@.len() == 0,
            s.my_name == my_name,
            s.connection_error is None,
            s.is_connecting,
            s.game_id is None,
            s.player_id is None,
            s.players@.len() == 0,
            s.current_turn_player == 0,
            s.my_resources == empty_hand(),
            s.game_phase == GamePhase::WaitingForPlayers,
            s.hexes@.len() == 0,
            s.settlements@.len() == 0,
            s.cities@.len() == 0,
            s.roads@.len() == 0,
            s.robber_pos is None,
            s.robber_asset@ == "robber"@,
            s.board_ports@.len() == 0,
            s.last_dice_roll is None,
            s.table_last_roll is None,
            s.last_roll_event is None,
            s.last_steal_event is None,
            s.last_monopoly_event is None,
            s.turn_epoch == 0,
            s.build_mode == BuildMode::Idle,
            s.my_dev_cards@.len() == 0,
            s.fresh_dev_cards@.len() == 0,
            !s.dev_card_played_this_turn,
            s.must_discard_count is None,
            !s.must_move_robber,
            s.must_steal_from_players@.len() == 0,
            !s.waiting_for_discards,
            s.free_roads_remaining == 0,
            !s.year_of_plenty_pending,
            !s.monopoly_pending,
            s.my_ports@.len() == 0,
            s.incoming_trades@.len() == 0,
            s.my_offers@.len() == 0,
            s.my_accepted_offers@.len() == 0,
            s.my_counter_offers@.len() == 0,
            s.secret_victory_points == 0,
            s.winner_player_id is None,
            s.game_stats is None,
    {
        GameState {
            messages: Vec::new(),
            chat: Vec::new(),
            bank: BankInfo {
                resources: Resources { brick: 0, lumber: 0, wool: 0, grain: 0, ore: 0 },
                dev_cards: 0,
            },
            is_in_game: false,
            lobby_games: Vec::new(),
            my_name,
            connection_error: None,
            is_connecting: true,
            game_id: None,
            player_id: None,
            players: Vec::new(),
            current_turn_player: 0,
            my_resources: Resources { brick: 0, lumber: 0, wool: 0, grain: 0, ore: 0 },
            game_phase: GamePhase::WaitingForPlayers,
            hexes: Vec::new(),
            settlements: Vec::new(),
            cities: Vec::new(),
            roads: Vec::new(),
            robber_pos: None,
            robber_asset: String::from_str("robber"),
            board_ports: Vec::new(),
            last_dice_roll: None,
            table_last_roll: None,
            last_roll_event: None,
            last_steal_event: None,
            last_monopoly_event: None,
            turn_epoch: 0,
            build_mode: BuildMode::Idle,
            my_dev_cards: Vec::new(),
            fresh_dev_cards: Vec::new(),
            dev_card_played_this_turn: false,
            must_discard_count: None,
            must_move_robber: false,
            must_steal_from_players: Vec::new(),
            waiting_for_discards: false,
            free_roads_remaining: 0,
            year_of_plenty_pending: false,
            monopoly_pending: false,
            my_ports: Vec::new(),
            incoming_trades: Vec::new(),
            my_offers: Vec::new(),
            my_accepted_offers: Vec::new(),
            my_counter_offers: Vec::new(),
            secret_victory_points: 0,
            winner_player_id: None,
            game_stats: None,
        }
    }

    /// How many offers one player may have open at once.
    pub const MAX_OPEN_OFFERS: usize = 4;

    /// Whether I already have as many offers on the table as I am allowed.
    pub fn offers_are_full(&self) -> (b: bool)
        ensures
            b == (self.my_offers@.len() >= 4),
    {
        self.my_offers.len() >= 4
    }

    /// Whether the special building phase is currently offered to us.
    pub fn is_my_special_build(&self) -> (b: bool)
        ensures
            b == my_special_build(*self),
    {
        match (self.game_phase.special_builder(), self.player_id) {
            (Some(builder), Some(me)) => builder == me,
            _ => false,
        }
    }

    /// Whether we may build or buy right now: on our own turn after rolling,
    /// or when a special building phase has been handed to us.
    pub fn can_build_now(&self) -> (b: bool)
        ensures
            b == may_build_now(*self),
    {
        if self.game_phase.special_builder().is_some() {
            return self.is_my_special_build();
        }
        let my_turn = match self.player_id {
            Some(id) => id == self.current_turn_player,
            None => false,
        };
        let regular = match self.game_phase {
            GamePhase::RegularPlay => true,
            _ => false,
        };
        my_turn && self.last_dice_roll.is_some() && regular
    }

    /// The points a player's row shows: the public ones, and for this
    /// client's own row the hidden ones in its hand as well. Nothing for a
    /// player not on the roster.
    pub fn shown_points(&self, player_id: PlayerId) -> (n: Option<i64>)
        ensures
            n is Some <==> seated(self.players@, player_id),
            n matches Some(v) ==> v == self.players@[seat_of(self.players@, player_id)].victory_points as int + (
            if self.player_id == Some(player_id) {
                self.secret_victory_points as int
            } else {
                0int
            }),
    {
        match find_player(&self.players, player_id) {
            Some(k) => {
                let public = self.players[k].victory_points as i64;
                let mine = match self.player_id {
                    Some(me) => me == player_id,
                    None => false,
                };
                if mine {
                    Some(public + self.secret_victory_points as i64)
                } else {
                    Some(public)
                }
            },
            None => None,
        }
    }

    /// The best rate at which the bank takes `resource` from me: two with a
    /// matching specific harbour, three with a generic one, four otherwise.
    pub fn get_best_ratio(&self, resource: ResourceType) -> (ratio: u8)
        ensures
            ratio == best_ratio(self.my_ports@, resource),
    {
        let mut ratio: u8 = 4;
        let mut i: usize = 0;
        while i < self.my_ports.len()
            invariant
                i <= self.my_ports@.len(),
                forall|j: int| 0 <= j < i ==> !two_to_one_for(#[trigger] self.my_ports@[j], resource),
                ratio == (if exists|j: int| 0 <= j < i && #[trigger] self.my_ports@[j] == PortType::ThreeToOne {
                    3u8
                } else {
                    4u8
                }),
            decreases self.my_ports@.len() - i,
        {
            match self.my_ports[i] {
                PortType::ThreeToOne => {
                    ratio = 3;
                },
                PortType::TwoToOne(res) => {
                    let matches = match (res, resource) {
                        (ResourceType::Brick, ResourceType::Brick) => true,
                        (ResourceType::Wood, ResourceType::Wood) => true,
                        (ResourceType::Sheep, ResourceType::Sheep) => true,
                        (ResourceType::Wheat, ResourceType::Wheat) => true,
                        (ResourceType::Ore, ResourceType::Ore) => true,
                        _ => false,
                    };
                    if matches {
                        assert(two_to_one_for(self.my_ports@[i as int], resource));
                        return 2;
                    }
                },
            }
            proof {
                if exists|j: int| 0 <= j < i + 1 && #[trigger] self.my_ports@[j] == PortType::ThreeToOne {
                    let j = choose|j: int| 0 <= j < i + 1 && #[trigger] self.my_ports@[j] == PortType::ThreeToOne;
                    if j < i {
                        assert(exists|j: int| 0 <= j < i && #[trigger] self.my_ports@[j] == PortType::ThreeToOne);
                    }
                }
                if exists|j: int| 0 <= j < i && #[trigger] self.my_ports@[j] == PortType::ThreeToOne {
                    let j = choose|j: int| 0 <= j < i && #[trigger] self.my_ports@[j] == PortType::ThreeToOne;
                    assert(0 <= j < i + 1 && self.my_ports@[j] == PortType::ThreeToOne);
                }
            }
            i = i + 1;
        }
        ratio
    }

    /// Display name for a player, falling back to their id if they are not in
    /// our roster yet.
    pub fn player_name(&self, player_id: PlayerId) -> (name: String)
        ensures
            name@ == name_of(self.players@, player_id),
    {
        match find_player(&self.players, player_id) {
            Some(k) => self.players[k].name.clone(),
            None => {
                let mut s = String::from_str("Player ");
                let id = uuid_string(player_id);
                s.append(id.as_str());
                s
            },
        }
    }

    /// Display name for a player, or "Someone" when they are not in the roster.
    pub(crate) fn name_or_someone(&self, player_id: PlayerId) -> (name: String)
        ensures
            name@ == name_or_someone(self.players@, player_id),
    {
        match find_player(&self.players, player_id) {
            Some(k) => self.players[k].name.clone(),
            None => String::from_str("Someone"),
        }
    }

    /// Clears everything the table might be waiting on you for, and every
    /// open trade: none of it survives the game it belongs to.
    pub fn clear_pending_prompts(&mut self)
        ensures
            final(self).must_discard_count is None,
            !final(self).must_move_robber,
            final(self).must_steal_from_players@.len() == 0,
            !final(self).waiting_for_discards,
            !final(self).year_of_plenty_pending,
            !final(self).monopoly_pending,
            final(self).free_roads_remaining == 0,
            final(self).build_mode == BuildMode::Idle,
            final(self).incoming_trades@.len() == 0,
            final(self).my_offers@.len() == 0,
            final(self).my_accepted_offers@.len() == 0,
            final(self).my_counter_offers@.len() == 0,
            *final(self) == (GameState {
                must_discard_count: None,
                must_move_robber: false,
                must_steal_from_players: final(self).must_steal_from_players,
                waiting_for_discards: false,
                year_of_plenty_pending: false,
                monopoly_pending: false,
                free_roads_remaining: 0,
                build_mode: BuildMode::Idle,
                incoming_trades: final(self).incoming_trades,
                my_offers: final(self).my_offers,
                my_accepted_offers: final(self).my_accepted_offers,
                my_counter_offers: final(self).my_counter_offers,
                ..*old(self)
            }),
    {
        self.must_discard_count = None;
        self.must_move_robber = false;
        self.must_steal_from_players = Vec::new();
        self.waiting_for_discards = false;
        self.year_of_plenty_pending = false;
        self.monopoly_pending = false;
        self.free_roads_remaining = 0;
        self.build_mode = BuildMode::Idle;
        self.incoming_trades = Vec::new();
        self.my_offers = Vec::new();
        self.my_accepted_offers = Vec::new();
        self.my_counter_offers = Vec::new();
    }
}


/// `k` is the first seat in the roster taken by `id`.
pub open spec fn is_first_seat(ps: Seq<PlayerInfo>, id: PlayerId, k: int) -> bool {
    0 <= k < ps.len() && ps[k].player_id == id && forall|j: int| 0 <= j < k ==> ps[j].player_id != id
}

/// `id` sits somewhere in the roster.
pub open spec fn seated(ps: Seq<PlayerInfo>, id: PlayerId) -> bool {
    exists|k: int| 0 <= k < ps.len() && #[trigger] ps[k].player_id == id
}

/// The first seat taken by `id`, when `seated`.
pub open spec fn seat_of(ps: Seq<PlayerInfo>, id: PlayerId) -> int {
    choose|k: int| is_first_seat(ps, id, k)
}

/// The name the log uses for a player: their roster name, or their id.
pub open spec fn name_of(ps: Seq<PlayerInfo>, id: PlayerId) -> Seq<char> {
    if seated(ps, id) {
        ps[seat_of(ps, id)].name@
    } else {
        "Player "@ + uuid_text(id as nat)
    }
}

/// The name the log uses for a player, or "Someone".
pub open spec fn name_or_someone(ps: Seq<PlayerInfo>, id: PlayerId) -> Seq<char> {
    if seated(ps, id) {
        ps[seat_of(ps, id)].name@
    } else {
        "Someone"@
    }
}

/// The first seat is the one `seat_of` names.
pub proof fn lemma_seat_of(ps: Seq<PlayerInfo>, id: PlayerId, k: int)
    requires
        is_first_seat(ps, id, k),
    ensures
        seat_of(ps, id) == k,
        seated(ps, id),
{
    let j = seat_of(ps, id);
    assert(is_first_seat(ps, id, j));
    if j < k {
        assert(ps[j].player_id != id);
    }
    if k < j {
        assert(ps[k].player_id != id);
    }
}

/// The first seat taken by `id`.
pub fn find_player(ps: &Vec<PlayerInfo>, id: PlayerId) -> (r: Option<usize>)
    ensures
        r matches Some(k) ==> is_first_seat(ps@, id, k as int) && seat_of(ps@, id) == k && seated(ps@, id),
        r is None ==> !seated(ps@, id),
{
    let mut k: usize = 0;
    while k < ps.len()
        invariant
            k <= ps@.len(),
            forall|j: int| 0 <= j < k ==> ps@[j].player_id != id,
        decreases ps@.len() - k,
    {
        if ps[k].player_id == id {
            proof {
                lemma_seat_of(ps@, id, k as int);
            }
            return Some(k);
        }
        k = k + 1;
    }
    None
}

/// The special building phase has been handed to this client.
pub open spec fn my_special_build(s: GameState) -> bool {
    match (special_builder_of(s.game_phase), s.player_id) {
        (Some(builder), Some(me)) => builder == me,
        _ => false,
    }
}

/// This client may build or buy right now.
pub open spec fn may_build_now(s: GameState) -> bool {
    if special_builder_of(s.game_phase) is Some {
        my_special_build(s)
    } else {
        s.player_id == Some(s.current_turn_player) && s.last_dice_roll is Some
            && s.game_phase is RegularPlay
    }
}

/// A harbour trading `resource` two for one. The desert has no harbour.
pub open spec fn two_to_one_for(port: PortType, resource: ResourceType) -> bool {
    port == PortType::TwoToOne(resource) && resource != ResourceType::Desert
}

/// The best bank rate a set of harbours gives for `resource`.
pub open spec fn best_ratio(ports: Seq<PortType>, resource: ResourceType) -> u8 {
    if exists|j: int| 0 <= j < ports.len() && #[trigger] two_to_one_for(ports[j], resource) {
        2
    } else if exists|j: int| 0 <= j < ports.len() && #[trigger] ports[j] == PortType::ThreeToOne {
        3
    } else {
        4
    }
}

} // verus!
