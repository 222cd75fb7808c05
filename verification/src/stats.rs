//! The end-of-game statistics: counters the server keeps while the game runs
//! and sends once, with the victory.

use vstd::prelude::*;
use crate::rules::{DevCardType, PlayerColour, PlayerId, ResourceType, card_slot};
use crate::text::{decimal2, push_char, push_decimal2};

verus! {

/// How many distinct totals two dice can show: 2 through 12.
pub const DICE_TOTALS: usize = 11;

/// The index a dice total occupies in an eleven-entry tally, or `None` for a
/// total two dice cannot produce.
pub fn dice_index(total: u8) -> (i: Option<usize>)
    ensures
        i == (if 2 <= total <= 12 { Some((total - 2) as usize) } else { None::<usize> }),
{
    if 2 <= total && total <= 12 {
        Some((total - 2) as usize)
    } else {
        None
    }
}

/// The dice total a tally index stands for. The index is taken modulo 256,
/// as a byte, before the two is added.
pub fn dice_total(index: usize) -> (t: u8)
    requires
        index % 256 < 254,
    ensures
        t == index % 256 + 2,
{
    let b: u8 = (index % 256) as u8;
    b + 2
}

/// `dice_total` undoes `dice_index`: a total two dice can show comes back
/// unchanged from its tally slot, and every slot names a total that maps back
/// to it.
pub proof fn lemma_dice_index_round_trip(total: u8, index: usize)
    ensures
        2 <= total <= 12 ==> ((total - 2) as usize) % 256 + 2 == total,
        index < DICE_TOTALS ==> 2 <= index % 256 + 2 <= 12 && (index % 256 + 2) - 2 == index,
{
}

/// Where a player's resource cards came from, and where they went.
#[derive(Debug, Clone, Copy, Default, PartialEq, Eq, Structural)]
pub struct ResourceFlow {
    pub gained_total: u32,
    pub lost_total: u32,
    pub gained_by_rolling: u32,
    pub gained_by_trading: u32,
    pub gained_by_dev_cards: u32,
    pub gained_by_robbing: u32,
    pub lost_by_trading: u32,
    pub lost_by_dev_cards: u32,
    pub lost_by_robber: u32,
    pub lost_by_seven: u32,
    /// Handed back to the bank to pay for a building or a development card.
    pub spent: u32,
}

impl ResourceFlow {
    /// Cards still in hand: everything that came in, less everything that
    /// went out. Signed, so a miscount shows up as a negative number.
    pub fn score(&self) -> (s: i64)
        ensures
            s == self.gained_total - self.lost_total,
    {
        self.gained_total as i64 - self.lost_total as i64
    }
}

/// A count of development cards, split by kind.
#[derive(Debug, Clone, Copy, Default, PartialEq, Eq, Structural)]
pub struct DevCardTally {
    pub knight: u32,
    pub victory_point: u32,
    pub road_building: u32,
    pub monopoly: u32,
    pub year_of_plenty: u32,
}

/// The tally's count for one kind.
pub open spec fn tally_of(t: DevCardTally, kind: DevCardType) -> u32 {
    match kind {
        DevCardType::Knight => t.knight,
        DevCardType::VictoryPoint => t.victory_point,
        DevCardType::RoadBuilding => t.road_building,
        DevCardType::Monopoly => t.monopoly,
        DevCardType::YearOfPlenty => t.year_of_plenty,
    }
}

/// The tally's count over all kinds.
pub open spec fn tally_sum(t: DevCardTally) -> int {
    t.knight + t.victory_point + t.road_building + t.monopoly + t.year_of_plenty
}

/// The five kinds in the order the interface lists them.
pub open spec fn dev_kinds() -> Seq<DevCardType> {
    seq![
        DevCardType::Knight,
        DevCardType::VictoryPoint,
        DevCardType::RoadBuilding,
        DevCardType::Monopoly,
        DevCardType::YearOfPlenty,
    ]
}

impl DevCardTally {
    /// The kinds in the order the interface lists them.
    pub fn kinds() -> (v: Vec<DevCardType>)
        ensures
            v@ == dev_kinds(),
    {
        vec![
            DevCardType::Knight,
            DevCardType::VictoryPoint,
            DevCardType::RoadBuilding,
            DevCardType::Monopoly,
            DevCardType::YearOfPlenty,
        ]
    }

    pub fn get(&self, kind: &DevCardType) -> (n: u32)
        ensures
            n == tally_of(*self, *kind),
    {
        match kind {
            DevCardType::Knight => self.knight,
            DevCardType::VictoryPoint => self.victory_point,
            DevCardType::RoadBuilding => self.road_building,
            DevCardType::Monopoly => self.monopoly,
            DevCardType::YearOfPlenty => self.year_of_plenty,
        }
    }

    /// Counts `n` more cards of one kind; the other kinds are untouched.
    pub fn add(&mut self, kind: &DevCardType, n: u32)
        requires
            tally_of(*old(self), *kind) + n <= u32::MAX,
        ensures
            forall|k: DevCardType|
                #[trigger] tally_of(*final(self), k) == if k == *kind {
                    tally_of(*old(self), k) + n
                } else {
                    tally_of(*old(self), k) as int
                },
    {
        match kind {
            DevCardType::Knight => self.knight = self.knight + n,
            DevCardType::VictoryPoint => self.victory_point = self.victory_point + n,
            DevCardType::RoadBuilding => self.road_building = self.road_building + n,
            DevCardType::Monopoly => self.monopoly = self.monopoly + n,
            DevCardType::YearOfPlenty => self.year_of_plenty = self.year_of_plenty + n,
        }
    }

    pub fn total(&self) -> (n: u32)
        requires
            tally_sum(*self) <= u32::MAX,
        ensures
            n == tally_sum(*self),
    {
        self.knight + self.victory_point + self.road_building + self.monopoly
            + self.year_of_plenty
    }
}

/// Adding `n` cards of one kind adds exactly `n` to the tally's total.
pub proof fn lemma_tally_add_total(before: DevCardTally, after: DevCardTally, kind: DevCardType, n: u32)
    requires
        forall|k: DevCardType|
            #[trigger] tally_of(after, k) == if k == kind {
                tally_of(before, k) + n
            } else {
                tally_of(before, k) as int
            },
    ensures
        tally_sum(after) == tally_sum(before) + n,
{
    assert(tally_of(after, DevCardType::Knight) == after.knight);
    assert(tally_of(after, DevCardType::VictoryPoint) == after.victory_point);
    assert(tally_of(after, DevCardType::RoadBuilding) == after.road_building);
    assert(tally_of(after, DevCardType::Monopoly) == after.monopoly);
    assert(tally_of(after, DevCardType::YearOfPlenty) == after.year_of_plenty);
}

/// Counters for the activity page.
#[derive(Debug, Clone, Copy, Default, PartialEq, Eq, Structural)]
pub struct ActivityTally {
    pub dev_cards_bought: u32,
    pub dev_cards_played: u32,
    pub trades_proposed: u32,
    pub trades_completed: u32,
    pub resources_spent: u32,
    pub resources_blocked_by_robber: u32,
}

/// Where a player's victory points came from.
#[derive(Debug, Clone, Copy, Default, PartialEq, Eq, Structural)]
pub struct PointBreakdown {
    pub settlements: u8,
    /// Two per city.
    pub cities: u8,
    pub dev_cards: u8,
    pub longest_road: u8,
    pub largest_army: u8,
}

pub open spec fn points_sum(p: PointBreakdown) -> int {
    p.settlements + p.cities + p.dev_cards + p.longest_road + p.largest_army
}

impl PointBreakdown {
    pub fn total(&self) -> (n: u8)
        requires
            points_sum(*self) <= u8::MAX,
        ensures
            n == points_sum(*self),
    {
        self.settlements + self.cities + self.dev_cards + self.longest_road + self.largest_army
    }
}

/// The sum of a run of counters.
pub open spec fn seq_sum(s: Seq<u32>) -> int
    decreases s.len(),
{
    if s.len() == 0 {
        0
    } else {
        seq_sum(s.drop_last()) + s.last()
    }
}

/// Adds up an eleven-entry dice tally.
fn sum_rolls(rolls: &[u32; DICE_TOTALS]) -> (n: u32)
    requires
        seq_sum(rolls@) <= u32::MAX,
    ensures
        n == seq_sum(rolls@),
{
    let mut total: u32 = 0;
    let mut i: usize = 0;
    while i < DICE_TOTALS
        invariant
            i <= DICE_TOTALS,
            rolls@.len() == DICE_TOTALS,
            total == seq_sum(rolls@.take(i as int)),
            seq_sum(rolls@) <= u32::MAX,
        decreases DICE_TOTALS - i,
    {
        assert(rolls@.take(i as int + 1).drop_last() =~= rolls@.take(i as int));
        proof {
            lemma_prefix_sum_bounded(rolls@, i as int + 1);
        }
        total = total + rolls[i];
        i = i + 1;
    }
    assert(rolls@.take(DICE_TOTALS as int) =~= rolls@);
    total
}

/// A prefix of a run of counters never adds up to more than the whole run.
pub proof fn lemma_prefix_sum_bounded(s: Seq<u32>, k: int)
    requires
        0 <= k <= s.len(),
    ensures
        seq_sum(s.take(k)) <= seq_sum(s),
    decreases s.len(),
{
    if k < s.len() {
        assert(s.drop_last().take(k) =~= s.take(k));
        lemma_prefix_sum_bounded(s.drop_last(), k);
    } else {
        assert(s.take(k) =~= s);
    }
}

/// Everything the statistics screen knows about one player.
#[derive(Debug, Clone, PartialEq, Eq)]
pub struct PlayerStats {
    pub player_id: PlayerId,
    pub name: String,
    pub colour: PlayerColour,
    pub victory_points: u8,
    pub points: PointBreakdown,
    /// This player's own rolls, indexed 2..=12 by `dice_index`.
    pub dice_rolls: [u32; DICE_TOTALS],
    pub resources: ResourceFlow,
    pub dev_cards_bought: DevCardTally,
    pub dev_cards_played: DevCardTally,
    pub activity: ActivityTally,
    pub settlements_built: u32,
    pub cities_built: u32,
    pub roads_built: u32,
    pub knights_played: u32,
    /// The longest unbroken run of their roads, whether or not it won the card.
    pub longest_road_length: u32,
}

impl PlayerStats {
    /// How many times this player rolled.
    pub fn rolls_made(&self) -> (n: u32)
        requires
            seq_sum(self.dice_rolls@) <= u32::MAX,
        ensures
            n == seq_sum(self.dice_rolls@),
    {
        sum_rolls(&self.dice_rolls)
    }
}

/// The finished tally for one game.
#[derive(Debug, Clone, PartialEq, Eq)]
pub struct GameStats {
    /// Wall clock from the first placement to the winning move.
    pub duration_secs: u64,
    /// Turns played after setup.
    pub turns: u64,
    pub winner: Option<PlayerId>,
    pub victory_points_to_win: u8,
    /// Every roll at the table, indexed 2..=12 by `dice_index`.
    pub dice_rolls: [u32; DICE_TOTALS],
    /// Cards drawn from the bank over the whole game, by resource, indexed
    /// by `ResourceType::card_index`.
    pub resource_draws: [u32; 5],
    /// In seat order, so every page lists players the same way.
    pub players: Vec<PlayerStats>,
}

/// The `mm:ss` form of a duration, counting minutes past sixty.
pub open spec fn duration_text(secs: nat) -> Seq<char> {
    decimal2(secs / 60) + seq![':'] + decimal2(secs % 60)
}

/// How many of one resource a game drew: its slot in the draw tally, or
/// nothing for the desert.
pub open spec fn draws_in(draws: Seq<u32>, resource: ResourceType) -> u32 {
    match card_slot(resource) {
        Some(k) => draws[k],
        None => 0,
    }
}

impl Default for GameStats {
    /// A game with nothing counted yet.
    fn default() -> (g: Self)
        ensures
            g.duration_secs == 0,
            g.turns == 0,
            g.winner is None,
            g.victory_points_to_win == 0,
            forall|i: int| 0 <= i < DICE_TOTALS ==> g.dice_rolls@[i] == 0,
            forall|i: int| 0 <= i < 5 ==> g.resource_draws@[i] == 0,
            g.players@.len() == 0,
    {
        GameStats {
            duration_secs: 0,
            turns: 0,
            winner: None,
            victory_points_to_win: 0,
            dice_rolls: [0; DICE_TOTALS],
            resource_draws: [0; 5],
            players: Vec::new(),
        }
    }

}

impl GameStats {
    /// How many times anybody rolled.
    pub fn total_rolls(&self) -> (n: u32)
        requires
            seq_sum(self.dice_rolls@) <= u32::MAX,
        ensures
            n == seq_sum(self.dice_rolls@),
    {
        sum_rolls(&self.dice_rolls)
    }

    /// How many of one resource were drawn all game.
    pub fn draws_of(&self, resource: ResourceType) -> (n: u32)
        ensures
            n == draws_in(self.resource_draws@, resource),
    {
        match resource.card_index() {
            Some(index) => self.resource_draws[index],
            None => 0,
        }
    }

    /// The duration as `mm:ss`, counting past sixty minutes rather than
    /// wrapping.
    pub fn duration_label(&self) -> (s: String)
        ensures
            s@ == duration_text(self.duration_secs as nat),
    {
        let mut s = String::new();
        push_decimal2(&mut s, self.duration_secs / 60);
        push_char(&mut s, ':');
        push_decimal2(&mut s, self.duration_secs % 60);
        proof {
            assert(Seq::<char>::empty() + decimal2((self.duration_secs / 60) as nat)
                =~= decimal2((self.duration_secs / 60) as nat));
        }
        s
    }

    /// The first player in the tally with this id, if any.
    pub fn player(&self, id: PlayerId) -> (p: Option<&PlayerStats>)
        ensures
            p matches Some(ps) ==> exists|i: int|
                0 <= i < self.players@.len() && self.players@[i] == *ps
                    && ps.player_id == id
                    && forall|j: int| 0 <= j < i ==> self.players@[j].player_id != id,
            p is None ==> forall|i: int|
                0 <= i < self.players@.len() ==> self.players@[i].player_id != id,
    {
        let mut i: usize = 0;
        while i < self.players.len()
            invariant
                i <= self.players@.len(),
                forall|j: int| 0 <= j < i ==> self.players@[j].player_id != id,
            decreases self.players@.len() - i,
        {
            if self.players[i].player_id == id {
                return Some(&self.players[i]);
            }
            i = i + 1;
        }
        None
    }
}

} // verus!
