use colonist::client::{BuildMode, GameState, MyOffer, PendingTradeOffer};
use colonist::controls::{
    accept_request, affords, ask_one_more, auto_discard, bank_count, bank_requests, chat_request, city_cost,
    close_draft, counter_valid, decline_request, dev_card_cost, dev_cards_keyed, discard_left, discard_ready,
    hex_pips, may_counter, monopoly_request, must_pick, offer_answers, tumble_faces, offers_grew, pick_partner, pick_plenty, pieces_left, plenty_request,
    road_cost, settlement_cost, table_offer, table_ready, take_one_back, tray_cards, MAX_ROADS,
};
use colonist::hand::{Basket, Res, TradeDraft, MAX_ASK_PER_KIND};
use colonist::protocol::ClientRequest;
use colonist::rules::{
    BankInfo, BuildingInfo, DevCardType, GamePhase, HexInfo, InitialRound, PlacementStep, PortType, ResourceType,
    Resources,
};

fn hand(brick: u8, lumber: u8, wool: u8, grain: u8, ore: u8) -> Resources {
    Resources { brick, lumber, wool, grain, ore }
}

fn basket(wood: u8, brick: u8, sheep: u8, wheat: u8, ore: u8) -> Basket {
    Basket { wood, brick, sheep, wheat, ore }
}

fn my_turn() -> GameState {
    let mut s = GameState::new("Ann".to_string());
    s.player_id = Some(1);
    s.current_turn_player = 1;
    s.game_phase = GamePhase::RegularPlay;
    s
}

#[test]
fn prices_and_affording() {
    assert!(affords(&hand(1, 1, 0, 0, 0), &road_cost()));
    assert!(!affords(&hand(1, 0, 0, 0, 0), &road_cost()));
    assert!(affords(&hand(1, 1, 1, 1, 0), &settlement_cost()));
    assert!(affords(&hand(0, 0, 0, 2, 3), &city_cost()));
    assert!(!affords(&hand(0, 0, 0, 2, 2), &city_cost()));
    assert!(affords(&hand(0, 0, 1, 1, 1), &dev_card_cost()));
}

#[test]
fn pieces_left_counts_only_mine() {
    let built = vec![BuildingInfo { player_id: 1, x: 0, y: 0 }, BuildingInfo { player_id: 2, x: 1, y: 0 }];
    assert_eq!(pieces_left(MAX_ROADS, &built, Some(1)), 14);
    assert_eq!(pieces_left(1, &built, Some(1)), 0);
    assert_eq!(pieces_left(0, &built, Some(1)), 0);
    assert_eq!(pieces_left(5, &built, None), 5);
}

#[test]
fn building_needs_the_turn_the_pieces_and_the_price() {
    let mut s = my_turn();
    s.my_resources = hand(1, 1, 0, 0, 0);
    s.last_dice_roll = Some((3, 4));
    assert!(s.can_build(&road_cost(), 5, true));
    assert!(!s.can_build(&road_cost(), 0, true));
    assert!(!s.can_build(&settlement_cost(), 5, false));
    s.my_resources = hand(0, 0, 0, 0, 0);
    s.free_roads_remaining = 2;
    assert!(s.can_build(&road_cost(), 5, true));
    assert!(!s.can_build(&settlement_cost(), 5, false));
    s.game_phase = GamePhase::InitialPlacement { round: InitialRound::First, step: PlacementStep::BuildSettlement };
    assert!(!s.can_build(&road_cost(), 5, true));
    assert!(!s.can_trade());
    assert!(!s.end_turn_enabled());
}

#[test]
fn a_development_card_needs_the_bank_to_have_one() {
    let mut s = my_turn();
    s.my_resources = hand(0, 0, 1, 1, 1);
    s.last_dice_roll = Some((1, 1));
    s.bank = BankInfo { resources: hand(0, 0, 0, 0, 0), dev_cards: 0 };
    assert!(!s.can_buy_dev());
    s.bank.dev_cards = 3;
    assert!(s.can_buy_dev());
}

#[test]
fn rolling_is_once_per_turn() {
    let mut s = my_turn();
    assert!(s.can_roll(false));
    assert!(!s.can_roll(true));
    s.last_dice_roll = Some((1, 2));
    assert!(!s.can_roll(false));
    s.last_dice_roll = None;
    s.current_turn_player = 2;
    assert!(!s.can_roll(false));
}

#[test]
fn a_build_control_toggles() {
    let mut s = my_turn();
    s.toggle_build_mode(BuildMode::Road);
    assert_eq!(s.build_mode, BuildMode::Road);
    s.toggle_build_mode(BuildMode::Road);
    assert_eq!(s.build_mode, BuildMode::Idle);
    s.build_mode = BuildMode::Settlement;
    assert_eq!(s.click_vertex(1, 1), Some(ClientRequest::BuildSettlement { x: 1, y: 1 }));
    assert_eq!(s.build_mode, BuildMode::Idle);
    assert_eq!(s.click_vertex(1, 1), None);
}

#[test]
fn setup_arms_the_right_piece() {
    let mut s = my_turn();
    s.game_phase = GamePhase::InitialPlacement {
        round: InitialRound::Second,
        step: PlacementStep::BuildRoad { settlement: (1, 1) },
    };
    s.arm_setup_mode();
    assert_eq!(s.build_mode, BuildMode::Road);
    s.current_turn_player = 2;
    s.arm_setup_mode();
    assert_eq!(s.build_mode, BuildMode::Idle);
    s.game_phase = GamePhase::RegularPlay;
    s.build_mode = BuildMode::City;
    s.arm_setup_mode();
    assert_eq!(s.build_mode, BuildMode::City);
}

#[test]
fn targets_on_the_board() {
    let mut s = my_turn();
    s.hexes = vec![HexInfo { q: 0, r: 0, resource: ResourceType::Ore, number: 8 }];
    s.settlements = vec![BuildingInfo { player_id: 1, x: 1, y: 1 }, BuildingInfo { player_id: 2, x: -1, y: -1 }];
    s.build_mode = BuildMode::City;
    assert_eq!(s.vertex_targets(), vec![(1, 1)]);
    s.build_mode = BuildMode::Road;
    let mut keys: Vec<(i32, i32)> = s.road_targets().into_iter().map(|e| e.2).collect();
    keys.sort();
    assert_eq!(keys, vec![(0, 1), (1, 0)]);
    s.must_move_robber = true;
    s.robber_pos = Some((0, 0));
    assert!(!s.robber_target(0, 0));
    assert!(s.robber_target(1, 0));
    assert_eq!(s.move_robber_to(1, 0), ClientRequest::MoveRobber { q: 1, r: 0 });
    assert!(!s.must_move_robber);
}

#[test]
fn pips_mirror_round_seven() {
    assert_eq!(hex_pips(0), 0);
    assert_eq!(hex_pips(2), 1);
    assert_eq!(hex_pips(6), 5);
    assert_eq!(hex_pips(7), 6);
    assert_eq!(hex_pips(8), 5);
    assert_eq!(hex_pips(12), 1);
    assert_eq!(hex_pips(13), 0);
    assert_eq!(hex_pips(200), 0);
}

#[test]
fn a_bank_trade_splits_into_exchanges() {
    let s = my_turn();
    let mut d = TradeDraft::new();
    d.offer = basket(0, 4, 0, 0, 4);
    d.receive = basket(1, 0, 1, 0, 0);
    let pairs = s.bank_exchanges(&d).unwrap();
    assert_eq!(pairs, vec![(Res::Brick, Res::Wood), (Res::Ore, Res::Sheep)]);
    assert_eq!(
        bank_requests(&pairs),
        vec![
            ClientRequest::BankTrade { give: ResourceType::Brick, receive: ResourceType::Wood },
            ClientRequest::BankTrade { give: ResourceType::Ore, receive: ResourceType::Sheep },
        ]
    );
}

#[test]
fn a_bank_trade_must_come_out_even() {
    let mut s = my_turn();
    let mut d = TradeDraft::new();
    d.offer = basket(0, 3, 0, 0, 0);
    d.receive = basket(1, 0, 0, 0, 0);
    assert_eq!(s.bank_exchanges(&d), None);
    s.my_ports = vec![PortType::ThreeToOne];
    assert_eq!(s.bank_exchanges(&d), Some(vec![(Res::Brick, Res::Wood)]));
    d.receive = basket(2, 0, 0, 0, 0);
    assert_eq!(s.bank_exchanges(&d), None);
    d.receive = basket(0, 1, 0, 0, 0);
    assert_eq!(s.bank_exchanges(&d), None);
    d.receive = basket(1, 0, 0, 0, 0);
    d.receive_any = 1;
    assert_eq!(s.bank_exchanges(&d), None);
    d.receive_any = 0;
    d.offer = basket(0, 0, 0, 0, 0);
    assert_eq!(s.bank_exchanges(&d), None);
}

#[test]
fn a_table_offer_needs_both_sides() {
    let mut d = TradeDraft::new();
    assert!(!table_ready(&d));
    d.offer = basket(1, 0, 0, 0, 0);
    assert!(!table_ready(&d));
    d.receive_any = 1;
    assert!(table_ready(&d));
    d.offer_any = 1;
    assert!(!table_ready(&d));
    d.offer_any = 0;
    assert_eq!(
        table_offer(&d),
        ClientRequest::TradeOffer {
            target_player_id: None,
            offer: hand(0, 1, 0, 0, 0),
            request: hand(0, 0, 0, 0, 0),
            offer_any: 0,
            request_any: 1,
        }
    );
    let s = my_turn();
    assert!(!s.can_offer(&d));
}

#[test]
fn the_palette_stops_at_the_ceiling() {
    let mut b = basket(0, 0, 0, 0, 0);
    ask_one_more(&mut b, Res::Ore);
    assert_eq!(b.ore, 1);
    b.ore = MAX_ASK_PER_KIND;
    ask_one_more(&mut b, Res::Ore);
    assert_eq!(b.ore, MAX_ASK_PER_KIND);
    take_one_back(&mut b, Res::Wood);
    assert_eq!(b.wood, 0);
    take_one_back(&mut b, Res::Ore);
    assert_eq!(b.ore, MAX_ASK_PER_KIND - 1);
    let mut d = TradeDraft::new();
    d.open = true;
    d.offer = b;
    close_draft(&mut d);
    assert_eq!(d, TradeDraft::new());
    assert!(offers_grew(Some(1), 2));
    assert!(!offers_grew(Some(2), 2));
    assert!(!offers_grew(None, 2));
}

#[test]
fn discards_top_up_from_the_hand_in_tray_order() {
    let held = hand(2, 1, 0, 0, 3);
    let picked = basket(0, 1, 0, 0, 0);
    assert_eq!(discard_left(&picked, 4), 3);
    assert!(!discard_ready(&picked, 4));
    assert_eq!(auto_discard(&picked, 4, &held), basket(1, 2, 0, 0, 1));
    assert_eq!(auto_discard(&picked, 9, &held), basket(1, 2, 0, 0, 3));
    assert_eq!(auto_discard(&picked, 1, &held), picked);
    let mut s = my_turn();
    s.must_discard_count = Some(260);
    assert_eq!(s.discard_owed(), 4);
}

#[test]
fn answering_offers() {
    let mut s = my_turn();
    s.my_resources = hand(0, 2, 0, 0, 0);
    let mut t = PendingTradeOffer {
        offer_id: 7,
        proposer_id: 2,
        target_player_id: None,
        offering: hand(1, 0, 0, 0, 0),
        requesting: hand(0, 2, 0, 0, 0),
        offering_any: 0,
        requesting_any: 0,
        received_at: 0,
        counters: None,
    };
    assert!(s.can_accept(&t));
    assert!(!s.falls_short(&t));
    assert_eq!(accept_request(&t), ClientRequest::TradeResponse { offer_id: 7, accept: true });
    assert_eq!(decline_request(&t), ClientRequest::TradeResponse { offer_id: 7, accept: false });
    assert!(may_counter(&t));
    t.counters = Some(3);
    assert_eq!(accept_request(&t), ClientRequest::ConfirmTrade { offer_id: 7, partner_id: 2 });
    assert_eq!(decline_request(&t), ClientRequest::CancelTrade { offer_id: 7 });
    t.requesting_any = 1;
    assert!(!s.can_accept(&t));
    t.requesting = hand(0, 3, 0, 0, 0);
    assert!(s.falls_short(&t));
    s.my_counter_offers = vec![(7, 12)];
    assert!(s.has_answered(7));
    assert!(!s.falls_short(&t));
    assert_eq!(s.withdraw_request(7), ClientRequest::CancelTrade { offer_id: 12 });
    assert_eq!(s.withdraw_request(8), ClientRequest::TradeResponse { offer_id: 8, accept: false });
}

#[test]
fn picking_a_partner() {
    assert_eq!(pick_partner(&vec![], Some(3)), None);
    assert_eq!(pick_partner(&vec![4], None), Some(4));
    assert_eq!(pick_partner(&vec![4, 5], Some(5)), Some(5));
    assert_eq!(pick_partner(&vec![4, 5], Some(6)), None);
    assert!(must_pick(&vec![4, 5], None));
    assert!(!must_pick(&vec![4], None));
}

#[test]
fn counters_and_plenty() {
    assert!(counter_valid(&basket(1, 0, 0, 0, 0), &basket(0, 1, 0, 0, 0), &hand(0, 1, 0, 0, 0)));
    assert!(!counter_valid(&basket(2, 0, 0, 0, 0), &basket(0, 1, 0, 0, 0), &hand(0, 1, 0, 0, 0)));
    assert!(!counter_valid(&basket(1, 0, 0, 0, 0), &basket(0, 0, 0, 0, 0), &hand(0, 1, 0, 0, 0)));
    let mut picks = vec![];
    pick_plenty(&mut picks, ResourceType::Ore);
    assert_eq!(plenty_request(&picks), None);
    pick_plenty(&mut picks, ResourceType::Wood);
    pick_plenty(&mut picks, ResourceType::Wheat);
    assert_eq!(picks, vec![ResourceType::Ore, ResourceType::Wheat]);
    assert_eq!(
        plenty_request(&picks),
        Some(ClientRequest::YearOfPlentyChoice { resource1: ResourceType::Ore, resource2: ResourceType::Wheat })
    );
}

#[test]
fn fresh_cards_are_the_last_of_their_kind() {
    let hand = vec![DevCardType::Knight, DevCardType::Monopoly, DevCardType::Knight];
    let drawn = vec![DevCardType::Knight];
    assert_eq!(
        dev_cards_keyed(&hand, &drawn),
        vec![(0, DevCardType::Knight, false), (1, DevCardType::Monopoly, false), (2, DevCardType::Knight, true)]
    );
    assert!(dev_cards_keyed(&hand, &vec![]).iter().all(|c| !c.2));
}

#[test]
fn the_tray_marks_cards_put_up() {
    let cards = tray_cards(&hand(1, 2, 0, 0, 0), &basket(1, 5, 0, 0, 1));
    assert_eq!(cards, vec![(Res::Wood, false), (Res::Wood, true), (Res::Brick, true)]);
}

#[test]
fn chat_bank_and_the_winner() {
    assert_eq!(chat_request("  hello  "), Some(ClientRequest::Chat { message: "hello".to_string() }));
    assert_eq!(chat_request(" \n "), None);
    let bank = BankInfo { resources: hand(1, 2, 3, 4, 5), dev_cards: 0 };
    assert_eq!(bank_count(&bank, ResourceType::Sheep), 3);
    assert_eq!(bank_count(&bank, ResourceType::Desert), 0);
    let mut s = my_turn();
    assert!(!s.i_won());
    s.winner_player_id = Some(1);
    assert!(s.i_won());
    assert_eq!(s.leave_request(), None);
    s.game_id = Some("g".to_string());
    assert_eq!(s.leave_request(), Some(ClientRequest::LeaveGame { game_id: "g".to_string() }));
    s.must_steal_from_players = vec![2, 3];
    assert_eq!(s.rob_player(3), ClientRequest::StealFromPlayer { victim_id: 3 });
    assert!(s.must_steal_from_players.is_empty());
}

#[test]
fn an_offer_lists_its_bidders_before_its_refusals() {
    let o = MyOffer {
        offer_id: 3,
        offering: hand(1, 0, 0, 0, 0),
        requesting: hand(0, 0, 0, 0, 1),
        offering_any: 0,
        requesting_any: 0,
        accepters: vec![7, 5],
        decliners: vec![9],
    };
    assert_eq!(offer_answers(&o), vec![(7, true), (5, true), (9, false)]);
}

#[test]
fn monopoly_asks_only_once_a_card_is_named() {
    assert_eq!(monopoly_request(None), None);
    assert_eq!(
        monopoly_request(Some(ResourceType::Ore)),
        Some(ClientRequest::MonopolyChoice { resource: ResourceType::Ore })
    );
}

#[test]
fn tumbling_dice_show_faces_from_the_clock() {
    assert_eq!(tumble_faces(0), (1, 1));
    assert_eq!(tumble_faces(13), (2, 2));
    assert_eq!(tumble_faces(u64::MAX), (4, 3));
}
