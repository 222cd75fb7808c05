use colonist::client::{BuildMode, GameState, PendingTradeOffer};
use colonist::protocol::ServerMessage;
use colonist::rules::{
    PortType, BoardState, BuildingInfo, GamePhase, HexInfo, InitialRound, PlacementStep, PlayerColour, PlayerInfo,
    ResourceType, Resources, StructureType, TradeSnapshot,
};

fn player(id: u128, name: &str, colour: PlayerColour) -> PlayerInfo {
    PlayerInfo {
        player_id: id,
        name: name.to_string(),
        colour,
        victory_points: 0,
        ports: vec![],
        resource_count: 0,
        dev_card_count: 0,
        knights_played: 0,
        roads_count: 0,
        has_longest_road: false,
        has_largest_army: false,
    }
}

fn hand(brick: u8, lumber: u8, wool: u8, grain: u8, ore: u8) -> Resources {
    Resources { brick, lumber, wool, grain, ore }
}

fn seated() -> GameState {
    let mut s = GameState::new("Ann".to_string());
    s.process_message(ServerMessage::Session { player_id: 1, token: 99 }, 0);
    s.players = vec![player(1, "Ann", PlayerColour::Blue), player(2, "Bob", PlayerColour::Red)];
    s
}

#[test]
fn a_session_hands_back_its_credential() {
    let mut s = GameState::new("Ann".to_string());
    let token = s.process_message(ServerMessage::Session { player_id: 5, token: 42 }, 0);
    assert_eq!(token, Some(42));
    assert_eq!(s.player_id, Some(5));
    let none = s.process_message(ServerMessage::NextTurn { player_id: 5 }, 0);
    assert_eq!(none, None);
}

#[test]
fn joining_clears_the_last_result() {
    let mut s = seated();
    s.winner_player_id = Some(2);
    s.secret_victory_points = 3;
    s.process_message(ServerMessage::Joined { player_id: 1, game_id: "g1".to_string() }, 0);
    assert_eq!(s.game_id, Some("g1".to_string()));
    assert!(s.is_in_game);
    assert_eq!(s.winner_player_id, None);
    assert_eq!(s.secret_victory_points, 0);
}

#[test]
fn a_game_start_seats_everyone_and_clears_prompts() {
    let mut s = GameState::new("Ann".to_string());
    s.must_discard_count = Some(3);
    s.build_mode = BuildMode::City;
    let board = BoardState {
        hexes: vec![HexInfo { q: 0, r: 0, resource: ResourceType::Wood, number: 6 }],
        settlements: vec![],
        cities: vec![],
        roads: vec![],
        robber_pos: (0, 0),
        robber_asset: "robber".to_string(),
        ports: vec![],
    };
    let phase = GamePhase::InitialPlacement { round: InitialRound::First, step: PlacementStep::BuildSettlement };
    s.process_message(
        ServerMessage::GameStarted {
            your_player_id: 1,
            players: vec![player(2, "Bob", PlayerColour::Red), player(1, "Ann", PlayerColour::Blue)],
            board,
            game_phase: phase,
            your_resources: hand(0, 0, 0, 0, 0),
            your_dev_cards: vec![],
        },
        0,
    );
    assert_eq!(s.player_id, Some(1));
    assert_eq!(s.current_turn_player, 2);
    assert_eq!(s.must_discard_count, None);
    assert_eq!(s.build_mode, BuildMode::Idle);
    assert_eq!(s.messages, vec!["Starting initial placement - Round 1! (2 players)".to_string()]);
}

#[test]
fn a_roll_is_logged_with_what_it_paid() {
    let mut s = seated();
    s.hexes = vec![HexInfo { q: 0, r: 0, resource: ResourceType::Wood, number: 6 }];
    s.settlements = vec![BuildingInfo { player_id: 1, x: 1, y: 1 }];
    s.cities = vec![BuildingInfo { player_id: 2, x: 2, y: -1 }];
    s.process_message(ServerMessage::DiceRolled { player_id: 1, dice_1: 3, dice_2: 3, discards_pending: 0 }, 0);
    assert_eq!(
        s.messages,
        vec!["Ann rolled 6 (3+3)".to_string(), "Ann got 1 wood".to_string(), "Bob got 2 wood".to_string()]
    );
    assert_eq!(s.last_dice_roll, Some((3, 3)));
    assert_eq!(s.last_roll_event, Some((6, 0)));
    s.process_message(ServerMessage::DiceRolled { player_id: 2, dice_1: 1, dice_2: 1, discards_pending: 0 }, 0);
    assert_eq!(s.last_roll_event, Some((2, 1)));
}

#[test]
fn the_robber_stops_a_hex_paying() {
    let mut s = seated();
    s.hexes = vec![HexInfo { q: 0, r: 0, resource: ResourceType::Wood, number: 6 }];
    s.settlements = vec![BuildingInfo { player_id: 1, x: 1, y: 1 }];
    s.robber_pos = Some((0, 0));
    assert!(s.roll_payout(6).is_empty());
    s.robber_pos = Some((1, 0));
    assert_eq!(s.roll_payout(6), vec![((0, 0), 1, ResourceType::Wood)]);
    assert!(s.roll_payout(7).is_empty());
    assert!(s.roll_payout(5).is_empty());
}

#[test]
fn rolling_seven_with_discards_owed_waits() {
    let mut s = seated();
    s.process_message(ServerMessage::DiceRolled { player_id: 1, dice_1: 3, dice_2: 4, discards_pending: 2 }, 0);
    assert!(s.waiting_for_discards);
    assert_eq!(s.messages[0], "You rolled 7! Waiting for 2 players to discard...");
    assert_eq!(s.messages[1], "Ann rolled 7 (3+4)");
}

#[test]
fn a_city_replaces_the_settlement_under_it() {
    let mut s = seated();
    s.settlements = vec![BuildingInfo { player_id: 1, x: 1, y: 1 }, BuildingInfo { player_id: 2, x: 4, y: 4 }];
    s.process_message(ServerMessage::Built { player_id: 1, structure_type: StructureType::City, coords: (1, 1) }, 0);
    assert_eq!(s.settlements, vec![BuildingInfo { player_id: 2, x: 4, y: 4 }]);
    assert_eq!(s.cities, vec![BuildingInfo { player_id: 1, x: 1, y: 1 }]);
    assert_eq!(s.messages.last().unwrap(), "Ann built a city");
}

#[test]
fn free_roads_count_down_and_disarm() {
    let mut s = seated();
    s.free_roads_remaining = 1;
    s.build_mode = BuildMode::Road;
    s.process_message(ServerMessage::Built { player_id: 1, structure_type: StructureType::Road, coords: (0, 1) }, 0);
    assert_eq!(s.free_roads_remaining, 0);
    assert_eq!(s.build_mode, BuildMode::Idle);
    assert_eq!(s.roads.len(), 1);
}

#[test]
fn a_new_turn_ticks_the_epoch_and_clears_the_roll() {
    let mut s = seated();
    s.last_dice_roll = Some((2, 2));
    s.fresh_dev_cards = vec![colonist::rules::DevCardType::Knight];
    s.process_message(ServerMessage::NextTurn { player_id: 2 }, 0);
    assert_eq!(s.turn_epoch, 1);
    assert_eq!(s.current_turn_player, 2);
    assert_eq!(s.last_dice_roll, None);
    assert!(s.fresh_dev_cards.is_empty());
    assert_eq!(s.messages.last().unwrap(), "It's Bob's turn");
}

#[test]
fn an_unknown_player_is_named_by_id() {
    let s = seated();
    assert_eq!(s.player_name(1), "Ann");
    assert_eq!(s.player_name(0x1234), "Player 00000000-0000-0000-0000-000000001234");
}

#[test]
fn trades_with_the_bank_merge_into_one_line() {
    let mut s = seated();
    let t = |s: &mut GameState, g, r| {
        s.process_message(
            ServerMessage::BankTradeCompleted {
                player_id: 1,
                gave: g,
                received: r,
                gave_count: 4,
                received_count: 0,
            },
            0,
        )
    };
    t(&mut s, ResourceType::Wood, ResourceType::Ore);
    assert_eq!(s.messages, vec!["Ann traded 4 Wood for 1 Ore".to_string()]);
    t(&mut s, ResourceType::Brick, ResourceType::Ore);
    assert_eq!(s.messages, vec!["Ann traded 4 wood and 4 brick for 2 ore".to_string()]);
    s.process_message(ServerMessage::SystemNote { text: "break".to_string() }, 0);
    t(&mut s, ResourceType::Wood, ResourceType::Sheep);
    assert_eq!(s.messages.len(), 3);
    assert_eq!(s.messages[2], "Ann traded 4 Wood for 1 Sheep");
}

#[test]
fn chat_lines_count_up() {
    let mut s = seated();
    s.process_message(ServerMessage::ChatMessage { player_id: 2, text: "hi".to_string() }, 0);
    s.process_message(ServerMessage::ChatMessage { player_id: 1, text: "yo".to_string() }, 0);
    assert_eq!(s.chat.len(), 2);
    assert_eq!(s.chat[0].seq, 0);
    assert_eq!(s.chat[1].seq, 1);
    assert_eq!(s.chat[1].text, "yo");
}

#[test]
fn a_trade_offer_to_me_is_kept_until_it_closes() {
    let mut s = seated();
    s.process_message(
        ServerMessage::TradeProposed {
            offer_id: 10,
            proposer_id: 2,
            target_player_id: None,
            offering: hand(1, 0, 0, 0, 0),
            requesting: hand(0, 1, 0, 0, 0),
            offering_any: 0,
            requesting_any: 0,
            counters: None,
        },
        5000,
    );
    assert_eq!(s.incoming_trades.len(), 1);
    let t: &PendingTradeOffer = &s.incoming_trades[0];
    assert_eq!(t.offer_id, 10);
    assert_eq!(t.received_at, 5000);
    assert_eq!(s.messages.last().unwrap(), "Bob proposed a trade");
    s.process_message(
        ServerMessage::TradeCompleted {
            offer_id: 10,
            proposer_id: 2,
            accepter_id: 1,
            proposer_gave: hand(1, 0, 0, 0, 0),
            accepter_gave: hand(0, 1, 0, 0, 0),
            also_closed: vec![],
        },
        0,
    );
    assert!(s.incoming_trades.is_empty());
    assert_eq!(s.messages.last().unwrap(), "Trade completed between Bob and Ann");
}

#[test]
fn my_own_offer_collects_bids() {
    let mut s = seated();
    s.process_message(
        ServerMessage::TradeProposed {
            offer_id: 3,
            proposer_id: 1,
            target_player_id: None,
            offering: hand(2, 0, 0, 0, 0),
            requesting: hand(0, 0, 1, 0, 0),
            offering_any: 0,
            requesting_any: 0,
            counters: None,
        },
        0,
    );
    assert_eq!(s.my_offers.len(), 1);
    assert!(s.incoming_trades.is_empty());
    s.process_message(ServerMessage::TradeAccepted { offer_id: 3, accepter_id: 2 }, 0);
    assert_eq!(s.my_offers[0].accepters, vec![2]);
    s.process_message(ServerMessage::TradeAcceptanceWithdrawn { offer_id: 3, accepter_id: 2 }, 0);
    assert!(s.my_offers[0].accepters.is_empty());
    s.process_message(ServerMessage::TradeCancelled { offer_id: 3 }, 0);
    assert!(s.my_offers.is_empty());
}

#[test]
fn a_reconnect_sorts_my_offers_by_id() {
    let mut s = seated();
    let snap = |id: u64, proposer: u128| TradeSnapshot {
        offer_id: id,
        proposer_id: proposer,
        target_player_id: None,
        offering: hand(1, 0, 0, 0, 0),
        requesting: hand(0, 1, 0, 0, 0),
        accepted_by: vec![],
        offering_any: 0,
        requesting_any: 0,
        seconds_remaining: 100,
        you_declined: false,
        counters: None,
    };
    s.restore_trades(1, vec![snap(9, 2), snap(5, 1), snap(4, 1), snap(6, 2)], 200_000);
    assert_eq!(s.incoming_trades.len(), 2);
    assert_eq!(s.incoming_trades[0].offer_id, 9);
    assert_eq!(s.incoming_trades[1].offer_id, 6);
    assert_eq!(s.incoming_trades[0].received_at, 200_000 - 20_000);
    assert_eq!(s.my_offers.len(), 2);
    assert_eq!(s.my_offers[0].offer_id, 4);
    assert_eq!(s.my_offers[1].offer_id, 5);
}

#[test]
fn the_best_bank_rate_follows_the_harbours() {
    let mut s = seated();
    assert_eq!(s.get_best_ratio(ResourceType::Ore), 4);
    s.my_ports = vec![PortType::ThreeToOne];
    assert_eq!(s.get_best_ratio(ResourceType::Ore), 3);
    s.my_ports.push(PortType::TwoToOne(ResourceType::Ore));
    assert_eq!(s.get_best_ratio(ResourceType::Ore), 2);
    assert_eq!(s.get_best_ratio(ResourceType::Wood), 3);
}

#[test]
fn clearing_prompts_clears_everything_owed() {
    let mut s = seated();
    s.must_move_robber = true;
    s.year_of_plenty_pending = true;
    s.free_roads_remaining = 2;
    s.my_accepted_offers = vec![3];
    s.clear_pending_prompts();
    assert!(!s.must_move_robber);
    assert!(!s.year_of_plenty_pending);
    assert_eq!(s.free_roads_remaining, 0);
    assert!(s.my_accepted_offers.is_empty());
}

#[test]
fn the_seat_request_trims_the_name() {
    let mut s = GameState::new("  Ann B \t".to_string());
    let r = s.seat_request(PlayerColour::Green);
    assert_eq!(r.name, "Ann B");
    assert_eq!(r.colour, PlayerColour::Green);
    s.my_name = "   ".to_string();
    assert_eq!(s.seat_request(PlayerColour::Red).name, "");
}

#[test]
fn a_lobby_game_closes_once_started_full_or_out_of_colours() {
    let open = colonist::rules::LobbyGameInfo {
        game_id: "g1".to_string(),
        game_name: "Friday".to_string(),
        players: 2,
        max_players: 4,
        available_colours: vec![PlayerColour::Red],
        victory_points_to_win: 10,
        started: false,
    };
    assert!(!open.is_full());
    assert!(colonist::rules::LobbyGameInfo { started: true, ..open.clone() }.is_full());
    assert!(colonist::rules::LobbyGameInfo { players: 4, ..open.clone() }.is_full());
    assert!(colonist::rules::LobbyGameInfo { available_colours: vec![], ..open.clone() }.is_full());
}

#[test]
fn joining_asks_for_a_seat_under_the_trimmed_name() {
    let s = GameState::new("  Ann ".to_string());
    match s.join_request(&"g7".to_string(), PlayerColour::Pink) {
        colonist::protocol::ClientRequest::JoinGame { game_id, seat } => {
            assert_eq!(game_id, "g7");
            assert_eq!(seat.name, "Ann");
            assert_eq!(seat.colour, PlayerColour::Pink);
        }
        other => panic!("unexpected request {:?}", other),
    }
}
