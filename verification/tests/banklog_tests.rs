use colonist::banklog::{
    bank_trade_resource_key, bank_trade_resource_totals, bank_trade_summary, merge_bank_trade_lines, trimmed,
};
use colonist::rules::ResourceType;

#[test]
fn resource_names_read_with_synonyms_and_any_case() {
    assert_eq!(bank_trade_resource_key("wood"), Some(ResourceType::Wood));
    assert_eq!(bank_trade_resource_key("  Lumber\t"), Some(ResourceType::Wood));
    assert_eq!(bank_trade_resource_key("WOOL"), Some(ResourceType::Sheep));
    assert_eq!(bank_trade_resource_key("grain"), Some(ResourceType::Wheat));
    assert_eq!(bank_trade_resource_key("Ore"), Some(ResourceType::Ore));
    assert_eq!(bank_trade_resource_key("Brick"), Some(ResourceType::Brick));
    assert_eq!(bank_trade_resource_key("Desert"), None);
    assert_eq!(bank_trade_resource_key("woods"), None);
    assert_eq!(bank_trade_resource_key(""), None);
}

#[test]
fn a_side_adds_up_by_kind_in_card_order() {
    assert_eq!(
        bank_trade_resource_totals("2 ore, 3 Wood and 1 wood"),
        vec![(ResourceType::Wood, 4), (ResourceType::Ore, 2)]
    );
    assert_eq!(bank_trade_resource_totals("4 Brick"), vec![(ResourceType::Brick, 4)]);
    assert_eq!(bank_trade_resource_totals("+2 sheep"), vec![(ResourceType::Sheep, 2)]);
}

#[test]
fn a_side_skips_what_does_not_read() {
    assert!(bank_trade_resource_totals("").is_empty());
    assert!(bank_trade_resource_totals("0 wood").is_empty());
    assert!(bank_trade_resource_totals("two wood").is_empty());
    assert!(bank_trade_resource_totals("-1 wood").is_empty());
    assert!(bank_trade_resource_totals("3 Desert").is_empty());
    assert!(bank_trade_resource_totals("99999999999 wood").is_empty());
    assert_eq!(bank_trade_resource_totals("2 wood extra and 1 ore"), vec![(ResourceType::Ore, 1)]);
    assert_eq!(bank_trade_resource_totals("  5   wheat  "), vec![(ResourceType::Wheat, 5)]);
}

#[test]
fn a_summary_writes_lower_case_amounts() {
    assert_eq!(
        bank_trade_summary(
            "Ann",
            vec![(ResourceType::Wood, 4), (ResourceType::Brick, 0), (ResourceType::Ore, 2)],
            vec![(ResourceType::Sheep, 1)],
        ),
        "Ann traded 4 wood and 2 ore for 1 sheep"
    );
    assert_eq!(bank_trade_summary("Bo", vec![], vec![]), "Bo traded  for ");
}

#[test]
fn two_trade_lines_merge_into_their_sums() {
    assert_eq!(
        merge_bank_trade_lines("Ann traded 4 Wood for 1 Ore", "Ann traded 3 Brick for 1 Ore", "Ann"),
        "Ann traded 4 wood and 3 brick for 2 ore"
    );
    assert_eq!(
        merge_bank_trade_lines(
            "Ann traded 4 wood and 3 brick for 2 ore",
            "Ann traded 2 Wood for 1 Sheep",
            "Ann"
        ),
        "Ann traded 6 wood and 3 brick for 1 sheep and 2 ore"
    );
}

#[test]
fn a_line_of_someone_else_adds_nothing() {
    assert_eq!(
        merge_bank_trade_lines("Bob traded 4 Wood for 1 Ore", "Ann traded 2 Ore for 1 Wheat", "Ann"),
        "Ann traded 2 ore for 1 wheat"
    );
    assert_eq!(merge_bank_trade_lines("Ann traded nothing", "Ann said hi", "Ann"), "Ann traded  for ");
}

#[test]
fn trimming_cuts_unicode_white_space() {
    assert_eq!(trimmed("\u{3000} a b \u{2028}"), "a b");
    assert_eq!(trimmed(""), "");
}
