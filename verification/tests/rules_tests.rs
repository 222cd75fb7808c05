use colonist::rules::{
    default_player_count, BoardLayout, GamePhase, GameRules, InitialRound, PlacementStep, PlayerColour,
    ResourceType, StructureType,
};
use colonist::stats::{dice_index, dice_total, DevCardTally, GameStats, PointBreakdown, ResourceFlow};
use colonist::rules::DevCardType;

#[test]
fn rules_for_two_players_race_to_fifteen() {
    let r = GameRules::for_player_count(2);
    assert_eq!(r.player_count, 2);
    assert_eq!(r.victory_points_to_win, 15);
    assert_eq!(r.board, BoardLayout::Standard);
    assert_eq!(r.bank_per_resource, 19);
    assert!(!r.uses_special_building());
}

#[test]
fn rules_for_five_players_use_the_extension() {
    let r = GameRules::for_player_count(5);
    assert_eq!(r.board, BoardLayout::Extended);
    assert_eq!(r.bank_per_resource, 24);
    assert_eq!(r.knight_cards, 20);
    assert_eq!(r.port_count, 11);
    assert!(r.uses_special_building());
    assert_eq!(r.dev_card_total(), 20 + 6 + 3 + 3 + 2);
}

#[test]
fn rules_clamp_out_of_range_counts() {
    assert_eq!(GameRules::for_player_count(0).player_count, 2);
    assert_eq!(GameRules::for_player_count(1).player_count, 2);
    assert_eq!(GameRules::for_player_count(9).player_count, 6);
    assert_eq!(GameRules::for_player_count(4).dev_card_total(), 25);
    assert_eq!(GameRules::supported_player_counts(), vec![2, 3, 4, 5, 6]);
    assert_eq!(default_player_count(), 4);
}

#[test]
fn labels_and_colours() {
    assert_eq!(StructureType::City.label(), "city");
    assert_eq!(PlayerColour::Blue.label(), "Blue");
    assert_eq!(PlayerColour::Purple.hex(), "#a855f7");
    assert_eq!(PlayerColour::White.default_name(), "Pearl");
    assert_eq!(PlayerColour::all().len(), 8);
    assert_eq!(ResourceType::Wheat.label(), "Wheat");
    assert_eq!(ResourceType::Ore.card_index(), Some(4));
    assert_eq!(ResourceType::Desert.card_index(), None);
}

#[test]
fn phases_and_building() {
    let setup = GamePhase::InitialPlacement { round: InitialRound::First, step: PlacementStep::BuildSettlement };
    assert!(setup.is_initial_phase());
    assert!(!GamePhase::RegularPlay.is_initial_phase());
    assert!(GamePhase::RegularPlay.allows_building());
    assert_eq!(GamePhase::SpecialBuilding { builder: 7 }.special_builder(), Some(7));
    assert_eq!(GamePhase::RegularPlay.special_builder(), None);
}

#[test]
fn dice_index_round_trips() {
    for total in 2u8..=12 {
        let i = dice_index(total).unwrap();
        assert_eq!(dice_total(i), total);
    }
    assert_eq!(dice_index(1), None);
    assert_eq!(dice_index(13), None);
    assert_eq!(dice_index(7), Some(5));
}

#[test]
fn tallies_add_up() {
    let mut t = DevCardTally { knight: 1, victory_point: 0, road_building: 2, monopoly: 0, year_of_plenty: 0 };
    t.add(&DevCardType::Knight, 2);
    assert_eq!(t.get(&DevCardType::Knight), 3);
    assert_eq!(t.get(&DevCardType::RoadBuilding), 2);
    assert_eq!(t.total(), 5);
    let p = PointBreakdown { settlements: 3, cities: 4, dev_cards: 1, longest_road: 2, largest_army: 0 };
    assert_eq!(p.total(), 10);
    let mut f = ResourceFlow::default();
    f.gained_total = 3;
    f.lost_total = 8;
    assert_eq!(f.score(), -5);
}

#[test]
fn game_duration_reads_as_minutes_and_seconds() {
    let mut g = GameStats::default();
    g.duration_secs = 3725;
    assert_eq!(g.duration_label(), "62:05");
    g.duration_secs = 9;
    assert_eq!(g.duration_label(), "00:09");
    g.resource_draws = [4, 0, 1, 0, 2];
    assert_eq!(g.draws_of(ResourceType::Wood), 4);
    assert_eq!(g.draws_of(ResourceType::Desert), 0);
    g.dice_rolls[5] = 3;
    g.dice_rolls[0] = 1;
    assert_eq!(g.total_rolls(), 4);
    assert!(g.player(1).is_none());
}
