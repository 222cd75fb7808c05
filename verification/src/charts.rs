//! What the end-of-game statistics pages chart and tabulate: the columns of
//! the dice, resource and development card charts, and the figures of each
//! column of the players' tables.

use vstd::prelude::*;
use crate::art::{ChartBar, dev_card_art, dev_card_art_name, resource_art, resource_art_name};
use crate::narration::{card_label, card_name};
use crate::rules::{DevCardType, ResourceType, card_order, resource_name};
use crate::stats::{DICE_TOTALS, DevCardTally, GameStats, PlayerStats, dev_kinds, draws_in, tally_of};
use crate::text::{decimal, decimal_string};

verus! {

/// The colour of the table's charts.
pub open spec fn table_cyan() -> Seq<char> {
    "#56c6e1"@
}

/// The colour the seven stands out in.
pub open spec fn seven_red() -> Seq<char> {
    "#c96a4e"@
}

/// The column of the dice chart for the total at `index`: the total, how
/// often it was rolled, and the seven in red.
pub open spec fn dice_bar_ok(b: ChartBar, index: int, count: u32) -> bool {
    &&& b.label@ == decimal((index + 2) as nat)
    &&& b.value == count as i64
    &&& b.colour@ == if index + 2 == 7 {
        seven_red()
    } else {
        table_cyan()
    }
    &&& b.art is None
}

/// The dice chart: one column per total from two to twelve.
pub fn dice_bars(stats: &GameStats) -> (bars: Vec<ChartBar>)
    ensures
        bars@.len() == DICE_TOTALS,
        forall|i: int| 0 <= i < DICE_TOTALS ==> #[trigger] dice_bar_ok(bars@[i], i, stats.dice_rolls@[i]),
{
    let mut bars: Vec<ChartBar> = Vec::new();
    let mut index: usize = 0;
    while index < DICE_TOTALS
        invariant
            index <= DICE_TOTALS,
            stats.dice_rolls@.len() == DICE_TOTALS,
            bars@.len() == index,
            forall|i: int| 0 <= i < index ==> #[trigger] dice_bar_ok(bars@[i], i, stats.dice_rolls@[i]),
        decreases DICE_TOTALS - index,
    {
        let total = crate::stats::dice_total(index);
        let colour = if total == 7 {
            String::from_str("#c96a4e")
        } else {
            String::from_str("#56c6e1")
        };
        let bar = ChartBar::new(decimal_string(total as u64), stats.dice_rolls[index] as i64, colour);
        bars.push(bar);
        index = index + 1;
    }
    bars
}

/// The column of the resource chart for a kind: its name, how many were
/// drawn from the bank, and its card under the column.
pub open spec fn resource_bar_ok(b: ChartBar, kind: ResourceType, drawn: u32) -> bool {
    &&& b.label@ == resource_name(kind)
    &&& b.value == drawn as i64
    &&& b.colour@ == table_cyan()
    &&& b.art matches Some(a) && a@ == resource_art_name(kind)
}

/// The resource chart: one column per kind of card, in card order.
pub fn resource_bars(stats: &GameStats) -> (bars: Vec<ChartBar>)
    ensures
        bars@.len() == 5,
        forall|i: int|
            0 <= i < 5 ==> #[trigger] resource_bar_ok(
                bars@[i],
                card_order()[i],
                draws_in(stats.resource_draws@, card_order()[i]),
            ),
{
    let kinds = ResourceType::cards();
    let mut bars: Vec<ChartBar> = Vec::new();
    let mut i: usize = 0;
    while i < 5
        invariant
            kinds@ == card_order(),
            i <= 5,
            bars@.len() == i,
            forall|m: int|
                0 <= m < i ==> #[trigger] resource_bar_ok(
                    bars@[m],
                    card_order()[m],
                    draws_in(stats.resource_draws@, card_order()[m]),
                ),
        decreases 5 - i,
    {
        let kind = kinds[i];
        let bar = ChartBar::new(
            String::from_str(kind.label()),
            stats.draws_of(kind) as i64,
            String::from_str("#56c6e1"),
        ).with_art(resource_art(kind));
        bars.push(bar);
        i = i + 1;
    }
    bars
}

/// How many cards of a kind the players bought between them.
pub open spec fn bought_total(players: Seq<PlayerStats>, kind: DevCardType) -> nat
    decreases players.len(),
{
    if players.len() == 0 {
        0
    } else {
        bought_total(players.drop_last(), kind) + tally_of(players.last().dev_cards_bought, kind) as nat
    }
}

/// The column of the development card chart for a kind: its name, how many
/// the players bought, and its card under the column.
pub open spec fn dev_bar_ok(b: ChartBar, kind: DevCardType, bought: nat) -> bool {
    &&& b.label@ == card_name(kind)
    &&& b.value == bought
    &&& b.colour@ == table_cyan()
    &&& b.art matches Some(a) && a@ == dev_card_art_name(kind)
}

/// How many cards of a kind the players bought between them.
fn bought_of(players: &Vec<PlayerStats>, kind: &DevCardType) -> (n: u32)
    requires
        bought_total(players@, *kind) <= u32::MAX,
    ensures
        n == bought_total(players@, *kind),
{
    let mut n: u32 = 0;
    let mut k: usize = 0;
    while k < players.len()
        invariant
            k <= players@.len(),
            n == bought_total(players@.take(k as int), *kind),
            bought_total(players@, *kind) <= u32::MAX,
        decreases players@.len() - k,
    {
        proof {
            assert(players@.take(k + 1).drop_last() =~= players@.take(k as int));
            lemma_bought_prefix(players@, *kind, k + 1);
        }
        n = n + players[k].dev_cards_bought.get(kind);
        k = k + 1;
    }
    proof {
        assert(players@.take(players@.len() as int) =~= players@);
    }
    n
}

/// What the first `j` players bought is no more than all of them bought.
proof fn lemma_bought_prefix(players: Seq<PlayerStats>, kind: DevCardType, j: int)
    requires
        0 <= j <= players.len(),
    ensures
        bought_total(players.take(j), kind) <= bought_total(players, kind),
    decreases players.len() - j,
{
    if j < players.len() {
        lemma_bought_prefix(players, kind, j + 1);
        assert(players.take(j + 1).drop_last() =~= players.take(j));
    } else {
        assert(players.take(j) =~= players);
    }
}

/// The development card chart: one column per kind of card.
pub fn dev_card_bars(stats: &GameStats) -> (bars: Vec<ChartBar>)
    requires
        forall|kind: DevCardType| #[trigger] bought_total(stats.players@, kind) <= u32::MAX,
    ensures
        bars@.len() == 5,
        forall|i: int|
            0 <= i < 5 ==> #[trigger] dev_bar_ok(bars@[i], dev_kinds()[i], bought_total(stats.players@, dev_kinds()[i])),
{
    let kinds = DevCardTally::kinds();
    let mut bars: Vec<ChartBar> = Vec::new();
    let mut i: usize = 0;
    while i < 5
        invariant
            kinds@ == dev_kinds(),
            i <= 5,
            bars@.len() == i,
            forall|kind: DevCardType| #[trigger] bought_total(stats.players@, kind) <= u32::MAX,
            forall|m: int|
                0 <= m < i ==> #[trigger] dev_bar_ok(bars@[m], dev_kinds()[m], bought_total(stats.players@, dev_kinds()[m])),
        decreases 5 - i,
    {
        let kind = kinds[i];
        let total = bought_of(&stats.players, &kind);
        let bar = ChartBar::new(String::from_str(card_label(&kind)), total as i64, String::from_str("#56c6e1")).with_art(
            dev_card_art(&kind),
        );
        bars.push(bar);
        i = i + 1;
    }
    bars
}

/// A figure the players' tables show, read off a player's statistics.
#[derive(Clone, Copy, Debug, PartialEq, Eq, Structural)]
pub enum Figure {
    VictoryPoints,
    PointsFromSettlements,
    PointsFromCities,
    PointsFromDevCards,
    PointsFromLongestRoad,
    PointsFromLargestArmy,
    DevCardsBought,
    DevCardsPlayed,
    TradesProposed,
    TradesCompleted,
    ResourcesSpent,
    ResourcesBlocked,
    GainedTotal,
    LostTotal,
    CardsLeft,
    GainedByRolling,
    GainedByTrading,
    GainedByDevCards,
    GainedByRobbing,
    LostByTrading,
    LostByDevCards,
    LostByRobber,
    LostBySeven,
}

/// The value of a figure for a player.
pub open spec fn figure_of(f: Figure, p: PlayerStats) -> int {
    match f {
        Figure::VictoryPoints => p.victory_points as int,
        Figure::PointsFromSettlements => p.points.settlements as int,
        Figure::PointsFromCities => p.points.cities as int,
        Figure::PointsFromDevCards => p.points.dev_cards as int,
        Figure::PointsFromLongestRoad => p.points.longest_road as int,
        Figure::PointsFromLargestArmy => p.points.largest_army as int,
        Figure::DevCardsBought => p.activity.dev_cards_bought as int,
        Figure::DevCardsPlayed => p.activity.dev_cards_played as int,
        Figure::TradesProposed => p.activity.trades_proposed as int,
        Figure::TradesCompleted => p.activity.trades_completed as int,
        Figure::ResourcesSpent => p.activity.resources_spent as int,
        Figure::ResourcesBlocked => p.activity.resources_blocked_by_robber as int,
        Figure::GainedTotal => p.resources.gained_total as int,
        Figure::LostTotal => p.resources.lost_total as int,
        Figure::CardsLeft => p.resources.gained_total - p.resources.lost_total,
        Figure::GainedByRolling => p.resources.gained_by_rolling as int,
        Figure::GainedByTrading => p.resources.gained_by_trading as int,
        Figure::GainedByDevCards => p.resources.gained_by_dev_cards as int,
        Figure::GainedByRobbing => p.resources.gained_by_robbing as int,
        Figure::LostByTrading => p.resources.lost_by_trading as int,
        Figure::LostByDevCards => p.resources.lost_by_dev_cards as int,
        Figure::LostByRobber => p.resources.lost_by_robber as int,
        Figure::LostBySeven => p.resources.lost_by_seven as int,
    }
}

/// One column of a players' table: the artwork heading it, its hover text,
/// whether the artwork is drawn as a tile, and the figure it shows.
#[derive(Clone, Copy, Debug, PartialEq, Eq)]
pub struct StatColumn {
    pub art: &'static str,
    pub title: &'static str,
    pub tile: bool,
    pub read: Figure,
}

impl StatColumn {
    /// The column's figure for a player.
    pub fn value(&self, p: &PlayerStats) -> (v: i64)
        ensures
            v == figure_of(self.read, *p),
    {
        match self.read {
            Figure::VictoryPoints => p.victory_points as i64,
            Figure::PointsFromSettlements => p.points.settlements as i64,
            Figure::PointsFromCities => p.points.cities as i64,
            Figure::PointsFromDevCards => p.points.dev_cards as i64,
            Figure::PointsFromLongestRoad => p.points.longest_road as i64,
            Figure::PointsFromLargestArmy => p.points.largest_army as i64,
            Figure::DevCardsBought => p.activity.dev_cards_bought as i64,
            Figure::DevCardsPlayed => p.activity.dev_cards_played as i64,
            Figure::TradesProposed => p.activity.trades_proposed as i64,
            Figure::TradesCompleted => p.activity.trades_completed as i64,
            Figure::ResourcesSpent => p.activity.resources_spent as i64,
            Figure::ResourcesBlocked => p.activity.resources_blocked_by_robber as i64,
            Figure::GainedTotal => p.resources.gained_total as i64,
            Figure::LostTotal => p.resources.lost_total as i64,
            Figure::CardsLeft => p.resources.score(),
            Figure::GainedByRolling => p.resources.gained_by_rolling as i64,
            Figure::GainedByTrading => p.resources.gained_by_trading as i64,
            Figure::GainedByDevCards => p.resources.gained_by_dev_cards as i64,
            Figure::GainedByRobbing => p.resources.gained_by_robbing as i64,
            Figure::LostByTrading => p.resources.lost_by_trading as i64,
            Figure::LostByDevCards => p.resources.lost_by_dev_cards as i64,
            Figure::LostByRobber => p.resources.lost_by_robber as i64,
            Figure::LostBySeven => p.resources.lost_by_seven as i64,
        }
    }
}

/// Whether a column heads and reads as given.
pub open spec fn column_is(c: StatColumn, art: Seq<char>, title: Seq<char>, tile: bool, read: Figure) -> bool {
    c.art@ == art && c.title@ == title && c.tile == tile && c.read == read
}

/// The columns of the victory point table.
pub fn point_columns() -> (v: Vec<StatColumn>)
    ensures
        v@.len() == 6,
        column_is(v@[0], "stats-points"@, "Victory points"@, true, Figure::VictoryPoints),
        column_is(v@[1], "points-from-settlements"@, "Points from settlements"@, true, Figure::PointsFromSettlements),
        column_is(v@[2], "points-from-cities"@, "Points from cities"@, true, Figure::PointsFromCities),
        column_is(v@[3], "points-from-VP-cards"@, "Points from development cards"@, false, Figure::PointsFromDevCards),
        column_is(v@[4], "points-from-longest-road"@, "Points from the longest road"@, false, Figure::PointsFromLongestRoad),
        column_is(v@[5], "points-from-biggest-army"@, "Points from the largest army"@, false, Figure::PointsFromLargestArmy),
{
    vec![
        StatColumn { art: "stats-points", title: "Victory points", tile: true, read: Figure::VictoryPoints },
        StatColumn { art: "points-from-settlements", title: "Points from settlements", tile: true, read: Figure::PointsFromSettlements },
        StatColumn { art: "points-from-cities", title: "Points from cities", tile: true, read: Figure::PointsFromCities },
        StatColumn { art: "points-from-VP-cards", title: "Points from development cards", tile: false, read: Figure::PointsFromDevCards },
        StatColumn { art: "points-from-longest-road", title: "Points from the longest road", tile: false, read: Figure::PointsFromLongestRoad },
        StatColumn { art: "points-from-biggest-army", title: "Points from the largest army", tile: false, read: Figure::PointsFromLargestArmy },
    ]
}

/// The columns of the activity table.
pub fn activity_columns() -> (v: Vec<StatColumn>)
    ensures
        v@.len() == 6,
        column_is(v@[0], "stats-activity-amount-of-devcards-bought"@, "Development cards bought"@, false, Figure::DevCardsBought),
        column_is(v@[1], "stats-activity-amount-of-devcards-used"@, "Development cards played"@, false, Figure::DevCardsPlayed),
        column_is(v@[2], "stats-activity-trades-proposed"@, "Trades proposed"@, false, Figure::TradesProposed),
        column_is(v@[3], "stats-activity-trades-done"@, "Trades settled"@, false, Figure::TradesCompleted),
        column_is(v@[4], "stats-activity-amount-of-resources-used"@, "Resources spent on buildings and development cards"@, false, Figure::ResourcesSpent),
        column_is(v@[5], "stats-activity-amount-of-resources-blocked-by-robber"@, "Resources a roll would have paid, but for the robber"@, false, Figure::ResourcesBlocked),
{
    vec![
        StatColumn { art: "stats-activity-amount-of-devcards-bought", title: "Development cards bought", tile: false, read: Figure::DevCardsBought },
        StatColumn { art: "stats-activity-amount-of-devcards-used", title: "Development cards played", tile: false, read: Figure::DevCardsPlayed },
        StatColumn { art: "stats-activity-trades-proposed", title: "Trades proposed", tile: false, read: Figure::TradesProposed },
        StatColumn { art: "stats-activity-trades-done", title: "Trades settled", tile: false, read: Figure::TradesCompleted },
        StatColumn { art: "stats-activity-amount-of-resources-used", title: "Resources spent on buildings and development cards", tile: false, read: Figure::ResourcesSpent },
        StatColumn { art: "stats-activity-amount-of-resources-blocked-by-robber", title: "Resources a roll would have paid, but for the robber", tile: false, read: Figure::ResourcesBlocked },
    ]
}

/// The columns of the resource table.
pub fn resource_columns() -> (v: Vec<StatColumn>)
    ensures
        v@.len() == 11,
        column_is(v@[0], "stats-total-resources-income"@, "Cards gained, all told"@, false, Figure::GainedTotal),
        column_is(v@[1], "stats-total-resources-lost"@, "Cards lost, all told"@, false, Figure::LostTotal),
        column_is(v@[2], "stats-total-resources-score"@, "Cards left over: everything gained less everything lost"@, false, Figure::CardsLeft),
        column_is(v@[3], "stats-resources-gained-by-rolling"@, "Gained from the dice"@, false, Figure::GainedByRolling),
        column_is(v@[4], "stats-resources-gained-by-trading"@, "Gained by trading"@, false, Figure::GainedByTrading),
        column_is(v@[5], "stats-resources-gained-by-devcards"@, "Gained from development cards"@, false, Figure::GainedByDevCards),
        column_is(v@[6], "stats-resources-gained-by-robbing"@, "Gained by robbing"@, false, Figure::GainedByRobbing),
        column_is(v@[7], "stats-resources-lost-by-trading"@, "Lost by trading"@, false, Figure::LostByTrading),
        column_is(v@[8], "stats-resources-lost-by-devcards"@, "Lost to development cards"@, false, Figure::LostByDevCards),
        column_is(v@[9], "stats-resources-lost-by-robber"@, "Lost to the robber"@, false, Figure::LostByRobber),
        column_is(v@[10], "stats-resources-lost-by-seven"@, "Handed back on a seven"@, false, Figure::LostBySeven),
{
    vec![
        StatColumn { art: "stats-total-resources-income", title: "Cards gained, all told", tile: false, read: Figure::GainedTotal },
        StatColumn { art: "stats-total-resources-lost", title: "Cards lost, all told", tile: false, read: Figure::LostTotal },
        StatColumn { art: "stats-total-resources-score", title: "Cards left over: everything gained less everything lost", tile: false, read: Figure::CardsLeft },
        StatColumn { art: "stats-resources-gained-by-rolling", title: "Gained from the dice", tile: false, read: Figure::GainedByRolling },
        StatColumn { art: "stats-resources-gained-by-trading", title: "Gained by trading", tile: false, read: Figure::GainedByTrading },
        StatColumn { art: "stats-resources-gained-by-devcards", title: "Gained from development cards", tile: false, read: Figure::GainedByDevCards },
        StatColumn { art: "stats-resources-gained-by-robbing", title: "Gained by robbing", tile: false, read: Figure::GainedByRobbing },
        StatColumn { art: "stats-resources-lost-by-trading", title: "Lost by trading", tile: false, read: Figure::LostByTrading },
        StatColumn { art: "stats-resources-lost-by-devcards", title: "Lost to development cards", tile: false, read: Figure::LostByDevCards },
        StatColumn { art: "stats-resources-lost-by-robber", title: "Lost to the robber", tile: false, read: Figure::LostByRobber },
        StatColumn { art: "stats-resources-lost-by-seven", title: "Handed back on a seven", tile: false, read: Figure::LostBySeven },
    ]
}

} // verus!
