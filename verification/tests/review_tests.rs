use colonist::flight::{batch_lifetime, flight_delays, steal_art, steal_label};
use colonist::banklog::merge_bank_trade_lines;
use colonist::client::{GameState, MyOffer};
use colonist::controls::{
    cancel_request, confirm_request, discard_request, pick_discard, unpick_discard, DiscardPrompt, DISCARD_SECONDS,
};
use colonist::hand::{Basket, Res};
use colonist::protocol::{ClientRequest, ServerMessage};
use colonist::rules::{BuildingInfo, HexInfo, PlayerColour, PlayerInfo, ResourceType, Resources};

fn basket(wood: u8, brick: u8, sheep: u8, wheat: u8, ore: u8) -> Basket {
    Basket { wood, brick, sheep, wheat, ore }
}

#[test]
fn a_discard_pile_never_grows_past_the_count_owed() {
    let mut b = Basket::default();
    for _ in 0..5 {
        b = pick_discard(&b, 3, Res::Ore);
    }
    assert_eq!(b, basket(0, 0, 0, 0, 3));
    assert_eq!(unpick_discard(&b, Res::Ore), basket(0, 0, 0, 0, 2));
    assert_eq!(unpick_discard(&b, Res::Wood), b);
}

#[test]
fn a_discard_goes_only_with_exactly_the_count_owed() {
    assert_eq!(discard_request(&basket(1, 0, 0, 0, 0), 2), None);
    assert_eq!(
        discard_request(&basket(1, 0, 0, 0, 1), 2),
        Some(ClientRequest::DiscardCards { resources: Resources { brick: 0, lumber: 1, wool: 0, grain: 0, ore: 1 } })
    );
}

#[test]
fn the_discard_countdown_hands_over_once_per_prompt() {
    let hand = Resources { brick: 2, lumber: 1, wool: 0, grain: 0, ore: 3 };
    let mut p = DiscardPrompt::new();
    p.prompt_changed(true);
    p.pick(3, Res::Ore);
    let mut sent = Vec::new();
    for _ in 0..40 {
        if let Some(r) = p.tick(true, 3, &hand) {
            sent.push(r);
        }
    }
    assert_eq!(
        sent,
        vec![ClientRequest::DiscardCards { resources: Resources { brick: 1, lumber: 1, wool: 0, grain: 0, ore: 1 } }]
    );
    assert_eq!(p.picked, Basket::default());
    assert_eq!(p.time_left, 0);
    p.prompt_changed(true);
    assert_eq!(p.time_left, DISCARD_SECONDS);
    assert!(!p.sent);
}

#[test]
fn the_countdown_sends_nothing_once_the_prompt_is_gone() {
    let hand = Resources { brick: 2, lumber: 1, wool: 0, grain: 0, ore: 3 };
    let mut p = DiscardPrompt::new();
    for _ in 0..40 {
        assert_eq!(p.tick(false, 3, &hand), None);
    }
    p.pick(2, Res::Wood);
    p.prompt_changed(false);
    assert_eq!(p.picked, Basket::default());
}

#[test]
fn settling_needs_a_chosen_bidder() {
    assert_eq!(confirm_request(4, None), None);
    assert_eq!(confirm_request(4, Some(9)), Some(ClientRequest::ConfirmTrade { offer_id: 4, partner_id: 9 }));
    assert_eq!(cancel_request(4), ClientRequest::CancelTrade { offer_id: 4 });
}

#[test]
fn creating_a_table_needs_a_connection_and_a_colour() {
    let s = GameState::new(" Ann ".to_string());
    assert_eq!(s.create_request(4, None, true), None);
    assert_eq!(s.create_request(4, Some(PlayerColour::Red), false), None);
    match s.create_request(5, Some(PlayerColour::Red), true) {
        Some(ClientRequest::CreateGame { player_count, seat }) => {
            assert_eq!(player_count, 5);
            assert_eq!(seat.name, "Ann");
            assert_eq!(seat.colour, PlayerColour::Red);
        }
        other => panic!("unexpected request {:?}", other),
    }
}

fn player(id: u128, points: u8) -> PlayerInfo {
    PlayerInfo {
        player_id: id,
        name: format!("P{id}"),
        colour: PlayerColour::Blue,
        victory_points: points,
        ports: vec![],
        resource_count: 0,
        dev_card_count: 0,
        knights_played: 0,
        roads_count: 0,
        has_longest_road: false,
        has_largest_army: false,
    }
}

#[test]
fn only_my_own_row_shows_my_hidden_points() {
    let mut s = GameState::new("Ann".to_string());
    s.players = vec![player(1, 3), player(2, 4)];
    s.player_id = Some(1);
    s.secret_victory_points = 2;
    assert_eq!(s.shown_points(1), Some(5));
    assert_eq!(s.shown_points(2), Some(4));
    assert_eq!(s.shown_points(3), None);
}

#[test]
fn merging_two_trade_lines_does_not_depend_on_their_order() {
    let a = "Ann traded 2 wool, 1 Lumber for 1 ore";
    let b = "Ann traded 3 wood for 1 grain";
    assert_eq!(merge_bank_trade_lines(a, b, "Ann"), merge_bank_trade_lines(b, a, "Ann"));
}

#[test]
fn a_roll_is_taken_with_an_idle_hex_far_off() {
    let mut s = GameState::new("Ann".to_string());
    s.hexes = vec![
        HexInfo { q: 0, r: 0, resource: ResourceType::Ore, number: 6 },
        HexInfo { q: 2_000_000_000, r: 0, resource: ResourceType::Wood, number: 5 },
    ];
    s.settlements = vec![BuildingInfo { player_id: 1, x: 1, y: 1 }];
    let msg = ServerMessage::DiceRolled { player_id: 1, dice_1: 3, dice_2: 3, discards_pending: 0 };
    assert!(s.accepts(&msg));
    assert_eq!(s.roll_payout(6), vec![((0, 0), 1, ResourceType::Ore)]);
    s.process_message(msg, 0);
    assert_eq!(s.last_dice_roll, Some((3, 3)));
    let far = ServerMessage::DiceRolled { player_id: 1, dice_1: 2, dice_2: 3, discards_pending: 0 };
    assert!(!s.accepts(&far));
}

#[test]
fn bid_lists_stay_clean_as_answers_arrive() {
    let mut s = GameState::new("Ann".to_string());
    s.player_id = Some(1);
    s.my_offers = vec![MyOffer {
        offer_id: 7,
        offering: Resources { brick: 1, lumber: 0, wool: 0, grain: 0, ore: 0 },
        requesting: Resources { brick: 0, lumber: 0, wool: 0, grain: 0, ore: 1 },
        offering_any: 0,
        requesting_any: 0,
        accepters: vec![],
        decliners: vec![],
    }];
    s.process_message(ServerMessage::TradeAccepted { offer_id: 7, accepter_id: 2 }, 0);
    s.process_message(ServerMessage::TradeAccepted { offer_id: 7, accepter_id: 2 }, 0);
    s.process_message(ServerMessage::TradeDeclined { offer_id: 7, proposer_id: 1, decliner_id: 3 }, 0);
    s.process_message(ServerMessage::TradeDeclined { offer_id: 7, proposer_id: 1, decliner_id: 2 }, 0);
    assert_eq!(s.my_offers[0].accepters, Vec::<u128>::new());
    assert_eq!(s.my_offers[0].decliners, vec![3, 2]);
    s.process_message(ServerMessage::TradeAccepted { offer_id: 7, accepter_id: 3 }, 0);
    assert_eq!(s.my_offers[0].accepters, vec![3]);
    assert_eq!(s.my_offers[0].decliners, vec![2]);
}

#[test]
fn only_eighteen_cards_of_a_roll_fly_each_a_stagger_apart() {
    assert_eq!(flight_delays(3), vec![0, 100, 200]);
    let d = flight_delays(40);
    assert_eq!(d.len(), 18);
    assert_eq!(d[17], 1700);
    assert_eq!(batch_lifetime(1700), 3300);
    assert_eq!(batch_lifetime(0), 1600);
}

#[test]
fn a_big_payout_is_cut_to_eighteen_flights() {
    let mut s = GameState::new("Ann".to_string());
    s.hexes = vec![HexInfo { q: 0, r: 0, resource: ResourceType::Wheat, number: 8 }];
    s.cities = (0..10).map(|_| BuildingInfo { player_id: 1, x: 1, y: 1 }).collect();
    assert_eq!(s.roll_payout(8).len(), 20);
    let planned = s.planned_flights(8);
    assert_eq!(planned.len(), 18);
    assert_eq!(planned[0], ((0, 0), 1, ResourceType::Wheat));
}

#[test]
fn a_stolen_card_shows_only_what_this_client_may_see() {
    assert_eq!(steal_art(None), "any-card");
    assert_eq!(steal_label(None), "A card");
    assert_eq!(steal_art(Some(ResourceType::Ore)), colonist::art::resource_art(ResourceType::Ore));
    assert_eq!(steal_label(Some(ResourceType::Ore)), "Ore");
}
