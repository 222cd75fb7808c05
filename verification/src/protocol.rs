//! The messages a client and the server exchange.

use vstd::prelude::*;
use crate::rules::{
    BankInfo, BoardInfo, BoardState, DevCardTarget, DevCardType, GamePhase, LobbyGameInfo, PlayerId,
    PlayerInfo, PortType, ResourceType, Resources, SeatRequest, StructureType, TradeSnapshot,
};
use crate::stats::GameStats;

verus! {

/// What a client asks of the server.
#[derive(Debug, Clone, PartialEq, Eq)]
pub enum ClientRequest {
    CreateGame { player_count: usize, seat: SeatRequest },
    JoinGame { game_id: String, seat: SeatRequest },
    LeaveGame { game_id: String },
    /// Keep-alive. Carries no game meaning.
    Ping,
    RollDice,
    EndTurn,
    BuildSettlement { x: i32, y: i32 },
    BuildCity { x: i32, y: i32 },
    BuildRoad { x1: i32, y1: i32 },
    BuyDevelopmentCard,
    PlayDevCard { card: DevCardType, target: Option<DevCardTarget> },
    /// If `target_player_id` is None the trade is open to all players. The
    /// `any` counts are unspecified cards on each side.
    TradeOffer {
        target_player_id: Option<PlayerId>,
        offer: Resources,
        request: Resources,
        offer_any: u8,
        request_any: u8,
    },
    /// Registers (or, with `accept: false`, withdraws) willingness to trade.
    TradeResponse { offer_id: u64, accept: bool },
    /// Terms of your own in reply to the active player's offer.
    CounterOffer { offer_id: u64, offer: Resources, request: Resources },
    /// Settle a trade with one partner.
    ConfirmTrade { offer_id: u64, partner_id: PlayerId },
    CancelTrade { offer_id: u64 },
    Chat { message: String },
    GetLobbyList,
    StartGame { game_id: String },
    MoveRobber { q: i32, r: i32 },
    StealFromPlayer { victim_id: PlayerId },
    DiscardCards { resources: Resources },
    BankTrade { give: ResourceType, receive: ResourceType },
    YearOfPlentyChoice { resource1: ResourceType, resource2: ResourceType },
    MonopolyChoice { resource: ResourceType },
}

/// What the server tells a client.
#[derive(Debug)]
pub enum ServerMessage {
    /// Sent on connect: the client's public id and its private credential.
    Session { player_id: PlayerId, token: PlayerId },
    Joined { player_id: PlayerId, game_id: String },
    GameStarted {
        your_player_id: PlayerId,
        players: Vec<PlayerInfo>,
        board: BoardState,
        game_phase: GamePhase,
        your_resources: Resources,
        your_dev_cards: Vec<DevCardType>,
    },
    PlayersUpdate { players: Vec<PlayerInfo> },
    BankUpdate { bank: BankInfo },
    LobbyUpdate { games: Vec<LobbyGameInfo> },
    DiceRolled { player_id: PlayerId, dice_1: u8, dice_2: u8, discards_pending: usize },
    ResourceUpdate { player_id: PlayerId, resources: Resources },
    Built { player_id: PlayerId, structure_type: StructureType, coords: (i32, i32) },
    NextTurn { player_id: PlayerId },
    PhaseChanged { new_phase: GamePhase },
    ChatMessage { player_id: PlayerId, text: String },
    DevCardBought { player_id: PlayerId },
    DevCardDrawn { card_type: DevCardType },
    DevCardPlayed { player_id: PlayerId, card_type: DevCardType },
    Error { message: String },
    RobberMoved { player_id: PlayerId, new_q: i32, new_r: i32 },
    PlayerRobbed {
        thief_id: PlayerId,
        victim_id: PlayerId,
        resource: Option<ResourceType>,
        stole_a_card: bool,
    },
    MustDiscardCards { player_id: PlayerId, count: usize },
    CardsDiscarded { player_id: PlayerId, count: usize, resources: Resources },
    MustMoveRobber { player_id: PlayerId },
    MustPlaceRoads { player_id: PlayerId, roads_remaining: u8 },
    MustChooseYearOfPlentyResources { player_id: PlayerId },
    YearOfPlentyResourcesReceived {
        player_id: PlayerId,
        resource1: ResourceType,
        resource2: ResourceType,
    },
    MustChooseMonopolyResource { player_id: PlayerId },
    MonopolyResourcesStolen {
        player_id: PlayerId,
        resource: ResourceType,
        total_stolen: u32,
        victims: Vec<PlayerId>,
    },
    CanRobPlayers { player_ids: Vec<PlayerId> },
    BankTradeCompleted {
        player_id: PlayerId,
        gave: ResourceType,
        received: ResourceType,
        gave_count: u32,
        received_count: u32,
    },
    PortsUpdate { player_id: PlayerId, ports: Vec<PortType> },
    TradeProposed {
        offer_id: u64,
        proposer_id: PlayerId,
        target_player_id: Option<PlayerId>,
        offering: Resources,
        requesting: Resources,
        offering_any: u8,
        requesting_any: u8,
        counters: Option<u64>,
    },
    TradeAccepted { offer_id: u64, accepter_id: PlayerId },
    TradeAcceptanceWithdrawn { offer_id: u64, accepter_id: PlayerId },
    TradeCompleted {
        offer_id: u64,
        proposer_id: PlayerId,
        accepter_id: PlayerId,
        proposer_gave: Resources,
        accepter_gave: Resources,
        /// Offers the server closed along with this one.
        also_closed: Vec<u64>,
    },
    TradeCancelled { offer_id: u64 },
    TradeDeclined { offer_id: u64, proposer_id: PlayerId, decliner_id: PlayerId },
    FullStateSync {
        player_id: PlayerId,
        players: Vec<PlayerInfo>,
        board: BoardInfo,
        game_phase: GamePhase,
        current_turn_player_id: PlayerId,
        robber_pos: (i32, i32),
        last_dice_roll: Option<(u8, u8)>,
        your_resources: Resources,
        your_dev_cards: Vec<DevCardType>,
        pending_trades: Vec<TradeSnapshot>,
        bank: BankInfo,
    },
    PlayerWon { player_id: PlayerId, secret_victory_points: u8, stats: GameStats },
    PlayerSecretVictoryPointsUpdated { secret_victory_points: i32 },
    /// A line of narration from the server, for the log.
    SystemNote { text: String },
    Left { player_id: PlayerId, game_id: String },
}

} // verus!
