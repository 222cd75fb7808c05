use colonist::logtext::{
    log_build_icon, log_event_icon_for_player_action, parse_resource_token, render_log_message,
    render_message_tokens, render_trade_pair, LogPiece,
};
use colonist::rules::{PlayerColour, PlayerInfo, ResourceType};

fn player(id: u128, name: &str, colour: PlayerColour) -> PlayerInfo {
    PlayerInfo {
        player_id: id,
        name: name.to_string(),
        colour,
        victory_points: 0,
        ports: vec![],
        resource_count: 0,
        dev_card_count: 0,
        knights_played: 0,
        roads_count: 0,
        has_longest_road: false,
        has_largest_army: false,
    }
}

fn text(s: &str) -> LogPiece {
    LogPiece::Text(s.to_string())
}

#[test]
fn resource_words_read_through_plurals_and_punctuation() {
    assert_eq!(parse_resource_token("Bricks,"), Some(ResourceType::Brick));
    assert_eq!(parse_resource_token("(ore)"), Some(ResourceType::Ore));
    assert_eq!(parse_resource_token("lumber!"), Some(ResourceType::Wood));
    assert_eq!(parse_resource_token("WHEAT"), Some(ResourceType::Wheat));
    assert_eq!(parse_resource_token("sheeps"), Some(ResourceType::Sheep));
    assert_eq!(parse_resource_token("wool"), None);
    assert_eq!(parse_resource_token("s"), None);
    assert_eq!(parse_resource_token("ore-"), None);
}

#[test]
fn build_words_name_their_artwork() {
    assert_eq!(log_build_icon(" Road "), Some("build-road"));
    assert_eq!(log_build_icon("CITY"), Some("build-city"));
    assert_eq!(log_build_icon("development-card"), Some("build-dev-card"));
    assert_eq!(log_build_icon("year"), Some("dev-plenty"));
    assert_eq!(log_build_icon("victory-point"), Some("dev-victory"));
    assert_eq!(log_build_icon("road-building"), Some("dev-road"));
    assert_eq!(log_build_icon("roads"), None);
}

#[test]
fn actions_pick_their_artwork() {
    assert_eq!(log_event_icon_for_player_action(" built a settlement"), Some((" built a ", "build-settlement", true)));
    assert_eq!(log_event_icon_for_player_action("played a Knight card"), Some((" played a ", "dev-knight", false)));
    assert_eq!(
        log_event_icon_for_player_action("played a Road Building card"),
        Some((" played a ", "dev-road", false))
    );
    assert_eq!(
        log_event_icon_for_player_action("bought a development card"),
        Some((" bought a ", "build-dev-card", false))
    );
    assert_eq!(log_event_icon_for_player_action("moved the robber"), Some((" moved the robber", "robber", false)));
    assert_eq!(log_event_icon_for_player_action("built a castle"), None);
    assert_eq!(log_event_icon_for_player_action("rolled 8 (4+4)"), None);
}

#[test]
fn plain_words_gather_and_cards_break_them() {
    assert_eq!(
        render_message_tokens("Ann  got 2 wood, then a city"),
        vec![text("Ann got 2"), LogPiece::Resource(ResourceType::Wood), text("then a"), LogPiece::Art("build-city")]
    );
    assert!(render_message_tokens("   ").is_empty());
}

#[test]
fn a_trade_pair_leaves_out_a_zero_count() {
    assert_eq!(render_trade_pair(0, ResourceType::Ore), vec![LogPiece::Resource(ResourceType::Ore)]);
    assert_eq!(
        render_trade_pair(3, ResourceType::Ore),
        vec![LogPiece::Count(3), LogPiece::Resource(ResourceType::Ore)]
    );
}

#[test]
fn a_line_starts_with_its_player_in_colour() {
    let players = vec![player(1, "Ann", PlayerColour::Blue), player(2, "Bob", PlayerColour::Red)];
    let speaker = LogPiece::Speaker { name: "Bob".to_string(), colour: "#ef4444" };
    assert_eq!(
        render_log_message("Bob built a road", &players, ""),
        vec![speaker.clone(), text(" built a "), LogPiece::Tinted { icon: "build-road", colour: "#ef4444" }]
    );
    assert_eq!(
        render_log_message("Bob moved the robber", &players, "  pirate "),
        vec![speaker.clone(), text(" moved the robber"), LogPiece::Picture("pirate".to_string())]
    );
    assert_eq!(
        render_log_message("Bob moved the robber", &players, " "),
        vec![speaker.clone(), text(" moved the robber"), LogPiece::Picture("robber".to_string())]
    );
    assert_eq!(
        render_log_message("Bob rolled 8 (4+4)", &players, ""),
        vec![speaker, text("rolled 8 (4+4)")]
    );
}

#[test]
fn a_trade_line_lays_out_counts_and_cards() {
    let players = vec![player(1, "Ann", PlayerColour::Blue)];
    let ann = LogPiece::Speaker { name: "Ann".to_string(), colour: "#3b82f6" };
    assert_eq!(
        render_log_message("Ann and Bob traded 4 wood for 1 ore", &players, ""),
        vec![
            ann.clone(),
            text("and"),
            text("Bob"),
            text(" traded "),
            LogPiece::Count(4),
            LogPiece::Resource(ResourceType::Wood),
            text(" for "),
            LogPiece::Count(1),
            LogPiece::Resource(ResourceType::Ore),
        ]
    );
    assert_eq!(
        render_log_message("Ann and Bo traded 4 gold for ore", &players, "")[4..],
        [text("4"), text(" for "), LogPiece::Count(1), LogPiece::Resource(ResourceType::Ore)]
    );
}

#[test]
fn a_line_opening_on_traded_is_read_as_plain_words() {
    let players = vec![player(1, "Ann", PlayerColour::Blue)];
    assert_eq!(
        render_log_message("Ann traded 4 wood for 1 ore", &players, ""),
        vec![
            LogPiece::Speaker { name: "Ann".to_string(), colour: "#3b82f6" },
            text("traded 4"),
            LogPiece::Resource(ResourceType::Wood),
            text("for 1"),
            LogPiece::Resource(ResourceType::Ore),
        ]
    );
}

#[test]
fn a_line_of_nobody_is_plain_words() {
    assert_eq!(render_log_message("Game started! (3 players)", &[].to_vec(), ""), vec![text("Game started! (3 players)")]);
}
