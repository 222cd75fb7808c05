//! The table's configuration for each player count, and the small value
//! types every other part of the game is built from.

use vstd::prelude::*;

verus! {

/// A player's identity. The server issues these as UUIDs; the library keeps
/// the 128 bits and compares them as numbers.
pub type PlayerId = u128;

/// The table size a new game gets when the request names none.
pub fn default_player_count() -> (n: usize)
    ensures
        n == 4,
{
    4
}

/// Which physical board a game is played on.
#[derive(Debug, Clone, Copy, PartialEq, Eq, Structural)]
pub enum BoardLayout {
    /// The base game: 19 hexes, one desert.
    Standard,
    /// The 5-6 player extension: 30 hexes, two deserts.
    Extended,
}

/// Everything about a game that depends on how many people are playing.
#[derive(Debug, Clone, Copy, PartialEq, Eq, Structural)]
pub struct GameRules {
    pub player_count: usize,
    pub victory_points_to_win: u8,
    pub board: BoardLayout,
    /// How many cards of each resource the bank starts with.
    pub bank_per_resource: u32,
    pub knight_cards: usize,
    pub victory_point_cards: usize,
    pub road_building_cards: usize,
    pub monopoly_cards: usize,
    pub year_of_plenty_cards: usize,
    /// Harbours around the coast.
    pub port_count: usize,
}

/// The smallest table the game supports.
pub const MIN_PLAYERS: usize = 2;

/// The largest table the game supports.
pub const MAX_PLAYERS: usize = 6;

/// A requested table size, brought into the supported range.
pub open spec fn clamp_players(n: int) -> int {
    if n < MIN_PLAYERS {
        MIN_PLAYERS as int
    } else if n > MAX_PLAYERS {
        MAX_PLAYERS as int
    } else {
        n
    }
}

/// The rules for a table of `n` players (after clamping): five and six play
/// the extension, and a duel races to fifteen points.
pub open spec fn rules_for(n: int) -> GameRules {
    let p = clamp_players(n);
    let extended = p >= 5;
    GameRules {
        player_count: p as usize,
        victory_points_to_win: if p == 2 { 15 } else { 10 },
        board: if extended { BoardLayout::Extended } else { BoardLayout::Standard },
        bank_per_resource: if extended { 24 } else { 19 },
        knight_cards: if extended { 20 } else { 14 },
        victory_point_cards: if extended { 6 } else { 5 },
        road_building_cards: if extended { 3 } else { 2 },
        monopoly_cards: if extended { 3 } else { 2 },
        year_of_plenty_cards: 2,
        port_count: if extended { 11 } else { 9 },
    }
}

/// The development deck's size under a set of rules.
pub open spec fn deck_size(r: GameRules) -> int {
    r.knight_cards + r.victory_point_cards + r.road_building_cards + r.monopoly_cards
        + r.year_of_plenty_cards
}

impl GameRules {
    /// Every table size we support, for building a lobby-size picker.
    pub fn supported_player_counts() -> (v: Vec<usize>)
        ensures
            v@ == seq![2usize, 3, 4, 5, 6],
    {
        vec![2, 3, 4, 5, 6]
    }

    /// The rules for a table of `player_count`, clamped into 2..=6.
    pub fn for_player_count(player_count: usize) -> (r: Self)
        ensures
            r == rules_for(player_count as int),
    {
        let player_count = if player_count < MIN_PLAYERS {
            MIN_PLAYERS
        } else if player_count > MAX_PLAYERS {
            MAX_PLAYERS
        } else {
            player_count
        };
        let extended = player_count >= 5;
        GameRules {
            player_count,
            victory_points_to_win: if player_count == 2 { 15 } else { 10 },
            board: if extended { BoardLayout::Extended } else { BoardLayout::Standard },
            bank_per_resource: if extended { 24 } else { 19 },
            knight_cards: if extended { 20 } else { 14 },
            victory_point_cards: if extended { 6 } else { 5 },
            road_building_cards: if extended { 3 } else { 2 },
            monopoly_cards: if extended { 3 } else { 2 },
            year_of_plenty_cards: 2,
            port_count: if extended { 11 } else { 9 },
        }
    }

    /// The 5-6 player game inserts a special building phase between turns.
    pub fn uses_special_building(&self) -> (b: bool)
        ensures
            b == (self.player_count >= 5),
    {
        self.player_count >= 5
    }

    /// How many development cards the deck holds.
    pub fn dev_card_total(&self) -> (n: usize)
        requires
            deck_size(*self) <= usize::MAX,
        ensures
            n == deck_size(*self),
    {
        self.knight_cards + self.victory_point_cards + self.road_building_cards
            + self.monopoly_cards + self.year_of_plenty_cards
    }
}


/// What was just built.
#[derive(Debug, Clone, Copy, PartialEq, Eq, Structural)]
pub enum StructureType {
    Settlement,
    City,
    Road,
}

impl StructureType {
    /// The structure's name in lower case, for the log.
    pub fn label(&self) -> (s: &'static str)
        ensures
            s@ == structure_label(*self),
    {
        match self {
            StructureType::Settlement => "settlement",
            StructureType::City => "city",
            StructureType::Road => "road",
        }
    }
}

pub open spec fn structure_label(t: StructureType) -> Seq<char> {
    match t {
        StructureType::Settlement => "settlement"@,
        StructureType::City => "city"@,
        StructureType::Road => "road"@,
    }
}

/// How a player wants to be seated: the name they picked and the colour they
/// chose from the palette. The server has the final say on both.
#[derive(Debug, Clone, PartialEq, Eq)]
pub struct SeatRequest {
    pub name: String,
    pub colour: PlayerColour,
}

/// The player palette, deliberately larger than the number of seats.
#[derive(Debug, Clone, Copy, PartialEq, Eq, Hash, Structural)]
pub enum PlayerColour {
    Blue,
    Red,
    Green,
    Yellow,
    Purple,
    Cyan,
    Pink,
    White,
}

/// Longest name the server will keep; anything more is truncated.
pub const MAX_NAME_LEN: usize = 16;

/// The whole palette, in the order a picker lists it.
pub open spec fn palette() -> Seq<PlayerColour> {
    seq![
        PlayerColour::Blue,
        PlayerColour::Red,
        PlayerColour::Green,
        PlayerColour::Yellow,
        PlayerColour::Purple,
        PlayerColour::Cyan,
        PlayerColour::Pink,
        PlayerColour::White,
    ]
}

impl PlayerColour {
    /// The whole palette, in the order a picker lists it.
    pub fn all() -> (v: Vec<PlayerColour>)
        ensures
            v@ == palette(),
    {
        vec![
            PlayerColour::Blue,
            PlayerColour::Red,
            PlayerColour::Green,
            PlayerColour::Yellow,
            PlayerColour::Purple,
            PlayerColour::Cyan,
            PlayerColour::Pink,
            PlayerColour::White,
        ]
    }

    /// The colour's name, capitalised.
    pub fn label(&self) -> (s: &'static str)
        ensures
            s@ == colour_label(*self),
    {
        match self {
            PlayerColour::Blue => "Blue",
            PlayerColour::Red => "Red",
            PlayerColour::Green => "Green",
            PlayerColour::Yellow => "Yellow",
            PlayerColour::Purple => "Purple",
            PlayerColour::Cyan => "Cyan",
            PlayerColour::Pink => "Pink",
            PlayerColour::White => "White",
        }
    }

    /// The one place a player colour is turned into pixels: a CSS hex colour.
    pub fn hex(&self) -> (s: &'static str)
        ensures
            s@ == colour_hex(*self),
    {
        match self {
            PlayerColour::Blue => "#3b82f6",
            PlayerColour::Red => "#ef4444",
            PlayerColour::Green => "#22c55e",
            PlayerColour::Yellow => "#eab308",
            PlayerColour::Purple => "#a855f7",
            PlayerColour::Cyan => "#06b6d4",
            PlayerColour::Pink => "#ec4899",
            PlayerColour::White => "#e2e8f0",
        }
    }

    /// A default name, used when a player submits a blank one.
    pub fn default_name(&self) -> (s: &'static str)
        ensures
            s@ == colour_default_name(*self),
    {
        match self {
            PlayerColour::Blue => "Steve",
            PlayerColour::Red => "Bob",
            PlayerColour::Green => "Kevin",
            PlayerColour::Yellow => "George",
            PlayerColour::Purple => "Wanda",
            PlayerColour::Cyan => "Cyrus",
            PlayerColour::Pink => "Rosa",
            PlayerColour::White => "Pearl",
        }
    }
}

pub open spec fn colour_label(c: PlayerColour) -> Seq<char> {
    match c {
        PlayerColour::Blue => "Blue"@,
        PlayerColour::Red => "Red"@,
        PlayerColour::Green => "Green"@,
        PlayerColour::Yellow => "Yellow"@,
        PlayerColour::Purple => "Purple"@,
        PlayerColour::Cyan => "Cyan"@,
        PlayerColour::Pink => "Pink"@,
        PlayerColour::White => "White"@,
    }
}

pub open spec fn colour_hex(c: PlayerColour) -> Seq<char> {
    match c {
        PlayerColour::Blue => "#3b82f6"@,
        PlayerColour::Red => "#ef4444"@,
        PlayerColour::Green => "#22c55e"@,
        PlayerColour::Yellow => "#eab308"@,
        PlayerColour::Purple => "#a855f7"@,
        PlayerColour::Cyan => "#06b6d4"@,
        PlayerColour::Pink => "#ec4899"@,
        PlayerColour::White => "#e2e8f0"@,
    }
}

pub open spec fn colour_default_name(c: PlayerColour) -> Seq<char> {
    match c {
        PlayerColour::Blue => "Steve"@,
        PlayerColour::Red => "Bob"@,
        PlayerColour::Green => "Kevin"@,
        PlayerColour::Yellow => "George"@,
        PlayerColour::Purple => "Wanda"@,
        PlayerColour::Cyan => "Cyrus"@,
        PlayerColour::Pink => "Rosa"@,
        PlayerColour::White => "Pearl"@,
    }
}

/// The five kinds of development card.
#[derive(Debug, Clone, Copy, PartialEq, Eq, Structural)]
pub enum DevCardType {
    Knight,
    VictoryPoint,
    RoadBuilding,
    Monopoly,
    YearOfPlenty,
}

/// What a development card is played against, where it needs a target.
#[derive(Debug, Clone, Copy, PartialEq, Eq, Structural)]
pub struct DevCardTarget {
    pub hex_index: Option<usize>,
    pub resource_type: Option<ResourceType>,
}

/// The land a hex can be, which is also the card it produces.
#[derive(Debug, Clone, Copy, PartialEq, Eq, Hash, Structural)]
pub enum ResourceType {
    Brick,
    Wood,
    Wheat,
    Ore,
    Sheep,
    Desert,
}

/// A resource's slot among the five cards a hand can hold - wood, brick,
/// sheep, wheat, ore - or `None` for the desert, which produces nothing.
pub open spec fn card_slot(r: ResourceType) -> Option<int> {
    match r {
        ResourceType::Wood => Some(0),
        ResourceType::Brick => Some(1),
        ResourceType::Sheep => Some(2),
        ResourceType::Wheat => Some(3),
        ResourceType::Ore => Some(4),
        ResourceType::Desert => None,
    }
}

/// The five card kinds in the order the interface lists them everywhere.
pub open spec fn card_order() -> Seq<ResourceType> {
    seq![
        ResourceType::Wood,
        ResourceType::Brick,
        ResourceType::Sheep,
        ResourceType::Wheat,
        ResourceType::Ore,
    ]
}

pub open spec fn resource_name(r: ResourceType) -> Seq<char> {
    match r {
        ResourceType::Wood => "Wood"@,
        ResourceType::Brick => "Brick"@,
        ResourceType::Sheep => "Sheep"@,
        ResourceType::Wheat => "Wheat"@,
        ResourceType::Ore => "Ore"@,
        ResourceType::Desert => "Desert"@,
    }
}

impl ResourceType {
    /// The five resources a hand can hold, in interface order.
    pub fn cards() -> (v: Vec<ResourceType>)
        ensures
            v@ == card_order(),
    {
        vec![
            ResourceType::Wood,
            ResourceType::Brick,
            ResourceType::Sheep,
            ResourceType::Wheat,
            ResourceType::Ore,
        ]
    }

    /// This resource's slot in a five-entry tally, or `None` for the desert.
    pub fn card_index(&self) -> (i: Option<usize>)
        ensures
            i matches Some(k) ==> card_slot(*self) == Some(k as int),
            i is None ==> card_slot(*self) is None,
    {
        match self {
            ResourceType::Wood => Some(0),
            ResourceType::Brick => Some(1),
            ResourceType::Sheep => Some(2),
            ResourceType::Wheat => Some(3),
            ResourceType::Ore => Some(4),
            ResourceType::Desert => None,
        }
    }

    /// The name as a label, capitalised.
    pub fn label(&self) -> (s: &'static str)
        ensures
            s@ == resource_name(*self),
    {
        match self {
            ResourceType::Wood => "Wood",
            ResourceType::Brick => "Brick",
            ResourceType::Sheep => "Sheep",
            ResourceType::Wheat => "Wheat",
            ResourceType::Ore => "Ore",
            ResourceType::Desert => "Desert",
        }
    }
}

/// A hand of resource cards, by kind.
#[derive(Debug, Clone, Copy, Default, PartialEq, Eq, Structural)]
pub struct Resources {
    pub brick: u8,
    pub lumber: u8,
    pub wool: u8,
    pub grain: u8,
    pub ore: u8,
}

/// A hand with no cards in it.
pub open spec fn empty_hand() -> Resources {
    Resources { brick: 0, lumber: 0, wool: 0, grain: 0, ore: 0 }
}

/// The cards in a hand, counted over all five kinds.
pub open spec fn resources_total(r: Resources) -> int {
    r.brick + r.lumber + r.wool + r.grain + r.ore
}

/// Which round of the opening placement is under way.
#[derive(Clone, Copy, Debug, PartialEq, Eq, Structural)]
pub enum InitialRound {
    First,
    Second,
}

/// What the placing player has to put down next during setup.
#[derive(Clone, Copy, Debug, PartialEq, Eq)]
pub enum PlacementStep {
    BuildSettlement,
    BuildRoad { settlement: (i32, i32) },
}

/// Where the game stands.
#[derive(Debug, Clone, Copy, PartialEq, Eq)]
pub enum GamePhase {
    WaitingForPlayers,
    InitialPlacement { round: InitialRound, step: PlacementStep },
    RegularPlay,
    /// The 5-6 player special building phase: `builder` is the only player
    /// who may act, and only to build.
    SpecialBuilding { builder: PlayerId },
}

impl GamePhase {
    pub fn is_initial_phase(&self) -> (b: bool)
        ensures
            b == (*self is InitialPlacement),
    {
        match self {
            GamePhase::InitialPlacement { .. } => true,
            _ => false,
        }
    }

    /// Phases in which buying and building are allowed at all.
    pub fn allows_building(&self) -> (b: bool)
        ensures
            b == (*self is RegularPlay || *self is SpecialBuilding),
    {
        match self {
            GamePhase::RegularPlay | GamePhase::SpecialBuilding { .. } => true,
            _ => false,
        }
    }

    /// The player a special building phase has been handed to, if any.
    pub fn special_builder(&self) -> (b: Option<PlayerId>)
        ensures
            b == special_builder_of(*self),
    {
        match self {
            GamePhase::SpecialBuilding { builder } => Some(*builder),
            _ => None,
        }
    }
}

pub open spec fn special_builder_of(p: GamePhase) -> Option<PlayerId> {
    match p {
        GamePhase::SpecialBuilding { builder } => Some(builder),
        _ => None,
    }
}

/// What the server is waiting on a player for.
#[derive(Debug, Clone, Copy, PartialEq, Eq, Structural)]
pub enum PendingAction {
    Discard,
    MoveRobber,
    PlayKnight,
    RoadBuilding { remaining: u8 },
    YearOfPlenty,
    Monopoly,
    Steal,
}

/// Port types for maritime trading.
#[derive(Debug, Clone, Copy, PartialEq, Eq, Hash, Structural)]
pub enum PortType {
    /// Generic 3:1 port.
    ThreeToOne,
    /// Specific 2:1 port for one resource.
    TwoToOne(ResourceType),
}

/// A harbour: the two corners of the coastal edge it serves, and its terms.
#[derive(Debug, Clone, Copy, PartialEq, Eq)]
pub struct PortInfo {
    pub vertices: [(i32, i32); 2],
    pub port_type: PortType,
}

/// What is left in the bank.
#[derive(Debug, Clone, Copy, Default, PartialEq, Eq, Structural)]
pub struct BankInfo {
    pub resources: Resources,
    pub dev_cards: usize,
}

/// A game as advertised in the lobby list.
#[derive(Debug, Clone, PartialEq, Eq)]
pub struct LobbyGameInfo {
    pub game_id: String,
    pub game_name: String,
    pub players: usize,
    pub max_players: usize,
    pub available_colours: Vec<PlayerColour>,
    pub victory_points_to_win: u8,
    /// Play has begun; a game can start before its seats are full.
    pub started: bool,
}

impl LobbyGameInfo {
    /// Whether the game is closed to a newcomer: play has begun, every seat
    /// is taken, or no colour is left to pick.
    pub fn is_full(&self) -> (b: bool)
        ensures
            b == (self.started || self.players >= self.max_players || self.available_colours@.len() == 0),
    {
        self.started || self.players >= self.max_players || self.available_colours.len() == 0
    }
}

/// One land tile: its axial position, what it produces, and its number.
#[derive(Debug, Clone, Copy, PartialEq, Eq, Structural)]
pub struct HexInfo {
    pub q: i32,
    pub r: i32,
    pub resource: ResourceType,
    pub number: u8,
}

/// A piece on the board: whose it is and where it stands (a vertex for
/// settlements and cities, an edge for roads).
#[derive(Debug, Clone, Copy, PartialEq, Eq, Structural)]
pub struct BuildingInfo {
    pub player_id: PlayerId,
    pub x: i32,
    pub y: i32,
}

/// The board as a full sync describes it.
#[derive(Debug, PartialEq, Eq)]
pub struct BoardInfo {
    pub hexes: Vec<HexInfo>,
    pub settlements: Vec<BuildingInfo>,
    pub cities: Vec<BuildingInfo>,
    pub roads: Vec<BuildingInfo>,
    pub robber_pos: (i32, i32),
    /// Which artwork stands for the robber on this table.
    pub robber_asset: String,
    pub ports: Vec<PortInfo>,
}

/// The board as a game start describes it.
#[derive(Debug, PartialEq, Eq)]
pub struct BoardState {
    pub hexes: Vec<HexInfo>,
    pub settlements: Vec<BuildingInfo>,
    pub cities: Vec<BuildingInfo>,
    pub roads: Vec<BuildingInfo>,
    pub robber_pos: (i32, i32),
    /// Which artwork stands for the robber on this table.
    pub robber_asset: String,
    pub ports: Vec<PortInfo>,
}

/// What every player is allowed to know about another player: counts of
/// their cards, never the cards themselves.
#[derive(Debug, Clone, PartialEq, Eq)]
pub struct PlayerInfo {
    pub player_id: PlayerId,
    pub name: String,
    pub colour: PlayerColour,
    pub victory_points: u8,
    pub ports: Vec<PortType>,
    pub resource_count: u8,
    pub dev_card_count: usize,
    pub knights_played: usize,
    pub roads_count: usize,
    pub has_longest_road: bool,
    pub has_largest_army: bool,
}

/// An open trade offer as it looks to one player, for restoring the trade
/// panel after a reconnect.
#[derive(Debug, Clone, PartialEq, Eq)]
pub struct TradeSnapshot {
    pub offer_id: u64,
    pub proposer_id: PlayerId,
    pub target_player_id: Option<PlayerId>,
    pub offering: Resources,
    pub requesting: Resources,
    /// Players who have bid, oldest first.
    pub accepted_by: Vec<PlayerId>,
    pub offering_any: u8,
    pub requesting_any: u8,
    /// Seconds until the server withdraws the offer.
    pub seconds_remaining: u64,
    /// Whether the player receiving this sync has already refused it.
    pub you_declined: bool,
    /// Set when this is a counter to another offer.
    pub counters: Option<u64>,
}

/// How long a player has to roll before the server rolls for them.
pub const TURN_AUTO_ROLL_SECS: u64 = 10;

/// How long a whole turn may run before the server ends it.
pub const TURN_LIMIT_SECS: u64 = 60;

/// How long a trade offer stays open before the server withdraws it.
pub const TRADE_LIFETIME_SECS: u64 = 120;

} // verus!
