use colonist::banklog::{bank_trade_resource_totals, merge_bank_trade_lines};
use colonist::client::GameState;
use colonist::controls::auto_discard;
use colonist::hand::{to_basket, Basket};
use colonist::protocol::ServerMessage;
use colonist::rules::{BuildingInfo, HexInfo, ResourceType, Resources, StructureType};
use colonist::stats::{dice_index, dice_total};

#[test]
fn law_seven_pays_nothing_on_a_board() {
    let mut s = GameState::new("Ann".to_string());
    s.hexes = vec![HexInfo { q: 0, r: 0, resource: ResourceType::Ore, number: 7 }];
    s.settlements = vec![BuildingInfo { player_id: 1, x: 1, y: 1 }];
    assert!(s.roll_payout(7).is_empty());
}

#[test]
fn law_desert_never_pays() {
    let mut s = GameState::new("Ann".to_string());
    s.hexes = vec![HexInfo { q: 0, r: 0, resource: ResourceType::Desert, number: 6 }];
    s.cities = vec![BuildingInfo { player_id: 1, x: 1, y: 1 }];
    assert!(s.roll_payout(6).is_empty());
}

#[test]
fn law_a_city_pays_two() {
    let mut s = GameState::new("Ann".to_string());
    s.hexes = vec![HexInfo { q: 0, r: 0, resource: ResourceType::Sheep, number: 9 }];
    s.cities = vec![BuildingInfo { player_id: 4, x: -2, y: 1 }];
    assert_eq!(s.roll_payout(9), vec![((0, 0), 4, ResourceType::Sheep), ((0, 0), 4, ResourceType::Sheep)]);
}

#[test]
fn law_city_leaves_no_settlement_on_its_corner() {
    let mut s = GameState::new("Ann".to_string());
    s.settlements = vec![BuildingInfo { player_id: 2, x: 3, y: 3 }, BuildingInfo { player_id: 1, x: 3, y: 3 }];
    s.process_message(ServerMessage::Built { player_id: 1, structure_type: StructureType::City, coords: (3, 3) }, 0);
    assert!(s.settlements.iter().all(|b| (b.x, b.y) != (3, 3)));
}

#[test]
fn law_dice_round_trip_all_totals() {
    for i in 0usize..11 {
        assert_eq!(dice_index(dice_total(i)), Some(i));
    }
}

#[test]
fn law_basket_round_trip_on_a_hand() {
    let r = Resources { brick: 9, lumber: 0, wool: 7, grain: 1, ore: 3 };
    assert_eq!(to_basket(&r).to_shared(), r);
    let b = Basket { wood: 1, brick: 2, sheep: 3, wheat: 4, ore: 5 };
    assert_eq!(to_basket(&b.to_shared()), b);
    assert_eq!(b.spread().len(), 15);
}

#[test]
fn law_auto_discard_stays_within_the_hand() {
    let held = Resources { brick: 1, lumber: 0, wool: 2, grain: 0, ore: 0 };
    let b = auto_discard(&Basket::default(), 10, &held);
    assert_eq!(b, Basket { wood: 0, brick: 1, sheep: 2, wheat: 0, ore: 0 });
}

#[test]
fn law_a_merged_line_reads_back_as_the_sums() {
    let merged = merge_bank_trade_lines("Ann traded 2 wool, 1 Lumber for 1 ore", "Ann traded 3 wood for 1 grain", "Ann");
    assert_eq!(merged, "Ann traded 4 wood and 2 sheep for 1 wheat and 1 ore");
    let rest = merged.strip_prefix("Ann traded ").unwrap();
    let (give, get) = rest.split_once(" for ").unwrap();
    assert_eq!(bank_trade_resource_totals(give), vec![(ResourceType::Wood, 4), (ResourceType::Sheep, 2)]);
    assert_eq!(bank_trade_resource_totals(get), vec![(ResourceType::Wheat, 1), (ResourceType::Ore, 1)]);
}

#[test]
fn law_palette_outnumbers_the_largest_table() {
    let all = colonist::rules::PlayerColour::all();
    assert!(all.len() > colonist::rules::MAX_PLAYERS);
    for i in 0..all.len() {
        for j in i + 1..all.len() {
            assert_ne!(all[i], all[j]);
        }
    }
}

#[test]
fn law_card_index_follows_card_order() {
    for (k, r) in ResourceType::cards().into_iter().enumerate() {
        assert_eq!(r.card_index(), Some(k));
    }
    assert_eq!(ResourceType::Desert.card_index(), None);
}

#[test]
fn law_bigger_tables_never_get_less() {
    let counts = colonist::rules::GameRules::supported_player_counts();
    for w in counts.windows(2) {
        let a = colonist::rules::GameRules::for_player_count(w[0]);
        let b = colonist::rules::GameRules::for_player_count(w[1]);
        assert!(a.bank_per_resource <= b.bank_per_resource);
        assert!(a.dev_card_total() <= b.dev_card_total());
        assert!(a.port_count <= b.port_count);
    }
    assert_eq!(colonist::rules::GameRules::for_player_count(2).victory_points_to_win, 15);
    assert_eq!(colonist::rules::GameRules::for_player_count(6).victory_points_to_win, 10);
}
