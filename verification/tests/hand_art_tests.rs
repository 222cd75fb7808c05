use colonist::art::{
    colour_hex_of, dev_card_art, label_of, player_color, port_art, resource_art, resource_color, resource_label,
    tint_id, ChartBar, StatsTab,
};
use colonist::charts::{activity_columns, dev_card_bars, dice_bars, point_columns, resource_bars, resource_columns, Figure};
use colonist::hand::{to_basket, Basket, Res, TradeDraft};
use colonist::narration::card_label;
use colonist::payout::resource_label as prose_label;
use colonist::rules::{DevCardType, PlayerColour, PlayerInfo, PortType, ResourceType, Resources};
use colonist::stats::{ActivityTally, DevCardTally, GameStats, PlayerStats, PointBreakdown, ResourceFlow};

#[test]
fn kinds_in_the_tray() {
    assert_eq!(Res::all(), vec![Res::Wood, Res::Brick, Res::Sheep, Res::Wheat, Res::Ore]);
    assert_eq!(Res::Sheep.label(), "Sheep");
    assert_eq!(Res::Sheep.shared(), ResourceType::Sheep);
    assert_eq!(Res::Wheat.art(), "wheat");
    let r = Resources { brick: 1, lumber: 2, wool: 3, grain: 4, ore: 5 };
    assert_eq!(Res::Wood.in_hand(&r), 2);
    assert_eq!(Res::Wheat.in_hand(&r), 4);
}

#[test]
fn a_pile_counts_sets_and_spreads() {
    let mut b = Basket { wood: 2, brick: 0, sheep: 1, wheat: 0, ore: 0 };
    assert_eq!(b.total(), 3);
    assert_eq!(b.spread(), vec![Res::Wood, Res::Wood, Res::Sheep]);
    b.set(Res::Ore, 250);
    b.set(Res::Brick, 200);
    assert_eq!(b.get(Res::Ore), 250);
    assert_eq!(b.total(), 255);
    let r = Resources { brick: 1, lumber: 2, wool: 3, grain: 4, ore: 5 };
    assert_eq!(to_basket(&r).to_shared(), r);
    assert_eq!(Basket::default().total(), 0);
}

#[test]
fn clearing_a_draft_keeps_the_panel() {
    let mut d = TradeDraft::new();
    d.open = true;
    d.offer_any = 2;
    d.receive.wood = 1;
    d.clear();
    assert!(d.open);
    assert_eq!(d.offer_any, 0);
    assert_eq!(d.receive, Basket::default());
}

#[test]
fn artwork_names() {
    assert_eq!(resource_art(ResourceType::Desert), "brick");
    assert_eq!(dev_card_art(&DevCardType::YearOfPlenty), "dev-plenty");
    assert_eq!(port_art(&PortType::ThreeToOne), "port-generic");
    assert_eq!(port_art(&PortType::TwoToOne(ResourceType::Ore)), "port-ore");
    assert_eq!(port_art(&PortType::TwoToOne(ResourceType::Desert)), "port-generic");
    assert_eq!(resource_color(&ResourceType::Sheep), "fill-lime-500");
    assert_eq!(resource_label(&ResourceType::Wheat), "WHEAT");
    assert_eq!(prose_label(ResourceType::Desert), "desert");
    for r in [ResourceType::Wood, ResourceType::Brick, ResourceType::Sheep, ResourceType::Wheat, ResourceType::Ore, ResourceType::Desert] {
        assert_eq!(prose_label(r), r.label().to_ascii_lowercase());
    }
    assert_eq!(label_of(ResourceType::Brick), "Brick");
    assert_eq!(card_label(&DevCardType::VictoryPoint), "Victory Point");
    assert_eq!(colour_hex_of(PlayerColour::Cyan), "#06b6d4");
}

#[test]
fn piece_colours_and_tints() {
    let players = vec![PlayerInfo {
        player_id: 3,
        name: "Cy".to_string(),
        colour: PlayerColour::Green,
        victory_points: 0,
        ports: vec![],
        resource_count: 0,
        dev_card_count: 0,
        knights_played: 0,
        roads_count: 0,
        has_longest_road: false,
        has_largest_army: false,
    }];
    assert_eq!(player_color(3, &players), "#22c55e");
    assert_eq!(player_color(4, &players), "#a855f7");
    assert_eq!(tint_id("#22c55e"), "tint22c55e");
    assert_eq!(tint_id("##ab"), "tintab");
    assert_eq!(tint_id("red"), "tintred");
}

#[test]
fn statistics_tabs_and_bars() {
    assert_eq!(StatsTab::all().len(), 6);
    assert_eq!(StatsTab::ResourceCards.label(), "Res Card Stats");
    let b = ChartBar::new("x".to_string(), 3, "#fff".to_string());
    assert_eq!(b.art, None);
    let b = b.with_art("wood");
    assert_eq!(b.art, Some("wood"));
    assert_eq!(b.value, 3);
}

fn stats_player(knights: u32) -> PlayerStats {
    let mut resources = ResourceFlow::default();
    resources.gained_total = 10;
    resources.lost_total = 4;
    let mut bought = DevCardTally::default();
    bought.knight = knights;
    PlayerStats {
        player_id: 1,
        name: "Ann".to_string(),
        colour: PlayerColour::Blue,
        victory_points: 7,
        points: PointBreakdown::default(),
        dice_rolls: [0; 11],
        resources,
        dev_cards_bought: bought,
        dev_cards_played: DevCardTally::default(),
        activity: ActivityTally::default(),
        settlements_built: 0,
        cities_built: 0,
        roads_built: 0,
        knights_played: 0,
        longest_road_length: 0,
    }
}

#[test]
fn the_charts_read_the_tally() {
    let mut g = GameStats::default();
    g.dice_rolls[5] = 9;
    g.resource_draws = [3, 1, 0, 0, 2];
    g.players = vec![stats_player(2), stats_player(1)];
    let dice = dice_bars(&g);
    assert_eq!(dice.len(), 11);
    assert_eq!(dice[0].label, "2");
    assert_eq!(dice[5].label, "7");
    assert_eq!(dice[5].value, 9);
    assert_eq!(dice[5].colour, "#c96a4e");
    assert_eq!(dice[10].label, "12");
    assert_eq!(dice[10].colour, "#56c6e1");
    let res = resource_bars(&g);
    assert_eq!(res[0].label, "Wood");
    assert_eq!(res[0].value, 3);
    assert_eq!(res[4].art, Some("ore"));
    let dev = dev_card_bars(&g);
    assert_eq!(dev[0].label, "Knight");
    assert_eq!(dev[0].value, 3);
    assert_eq!(dev[4].art, Some("dev-plenty"));
}

#[test]
fn the_tables_read_their_figures() {
    let p = stats_player(0);
    let points = point_columns();
    assert_eq!(points.len(), 6);
    assert_eq!(points[0].value(&p), 7);
    assert!(points[0].tile);
    assert_eq!(activity_columns().len(), 6);
    let res = resource_columns();
    assert_eq!(res.len(), 11);
    assert_eq!(res[2].read, Figure::CardsLeft);
    assert_eq!(res[2].value(&p), 6);
    assert_eq!(res[2].art, "stats-total-resources-score");
}
