//! The names the interface gives things: artwork for cards, harbours and
//! pieces, colour classes and labels on the board, the tabs and bars of the
//! end-of-game statistics.

use vstd::prelude::*;
use crate::rules::{DevCardType, PlayerColour, PlayerId, PlayerInfo, PortType, ResourceType, colour_hex};
use crate::client::{find_player, seated, seat_of};
use crate::text::push_char;

verus! {

/// The card face for a resource; the desert, which has no card, borrows brick's.
pub open spec fn resource_art_name(r: ResourceType) -> Seq<char> {
    match r {
        ResourceType::Brick => "brick"@,
        ResourceType::Wood => "wood"@,
        ResourceType::Sheep => "sheep"@,
        ResourceType::Wheat => "wheat"@,
        ResourceType::Ore => "ore"@,
        ResourceType::Desert => "brick"@,
    }
}

/// The card face for a resource.
pub fn resource_art(res: ResourceType) -> (s: &'static str)
    ensures
        s@ == resource_art_name(res),
{
    match res {
        ResourceType::Brick => "brick",
        ResourceType::Wood => "wood",
        ResourceType::Sheep => "sheep",
        ResourceType::Wheat => "wheat",
        ResourceType::Ore => "ore",
        ResourceType::Desert => "brick",
    }
}

/// The card face for a development card.
pub open spec fn dev_card_art_name(card: DevCardType) -> Seq<char> {
    match card {
        DevCardType::Knight => "dev-knight"@,
        DevCardType::VictoryPoint => "dev-victory"@,
        DevCardType::RoadBuilding => "dev-road"@,
        DevCardType::Monopoly => "dev-monopoly"@,
        DevCardType::YearOfPlenty => "dev-plenty"@,
    }
}

/// The card face for a development card.
pub fn dev_card_art(card: &DevCardType) -> (s: &'static str)
    ensures
        s@ == dev_card_art_name(*card),
{
    match card {
        DevCardType::Knight => "dev-knight",
        DevCardType::VictoryPoint => "dev-victory",
        DevCardType::RoadBuilding => "dev-road",
        DevCardType::Monopoly => "dev-monopoly",
        DevCardType::YearOfPlenty => "dev-plenty",
    }
}

/// The badge for a harbour: the generic one for 3:1 terms, and for a 2:1
/// harbour the one of its resource.
pub open spec fn port_art_name(port: PortType) -> Seq<char> {
    match port {
        PortType::ThreeToOne => "port-generic"@,
        PortType::TwoToOne(r) => match r {
            ResourceType::Brick => "port-brick"@,
            ResourceType::Wood => "port-wood"@,
            ResourceType::Sheep => "port-sheep"@,
            ResourceType::Wheat => "port-wheat"@,
            ResourceType::Ore => "port-ore"@,
            ResourceType::Desert => "port-generic"@,
        },
    }
}

/// The badge for a harbour.
pub fn port_art(port: &PortType) -> (s: &'static str)
    ensures
        s@ == port_art_name(*port),
{
    match port {
        PortType::ThreeToOne => "port-generic",
        PortType::TwoToOne(res) => match res {
            ResourceType::Brick => "port-brick",
            ResourceType::Wood => "port-wood",
            ResourceType::Sheep => "port-sheep",
            ResourceType::Wheat => "port-wheat",
            ResourceType::Ore => "port-ore",
            ResourceType::Desert => "port-generic",
        },
    }
}

/// The fill class a hex of a resource is painted with.
pub open spec fn resource_fill(r: ResourceType) -> Seq<char> {
    match r {
        ResourceType::Wood => "fill-emerald-600"@,
        ResourceType::Brick => "fill-orange-400"@,
        ResourceType::Sheep => "fill-lime-500"@,
        ResourceType::Wheat => "fill-yellow-500"@,
        ResourceType::Ore => "fill-slate-500"@,
        ResourceType::Desert => "fill-amber-200"@,
    }
}

/// The fill class a hex of a resource is painted with.
pub fn resource_color(resource: &ResourceType) -> (s: &'static str)
    ensures
        s@ == resource_fill(*resource),
{
    match resource {
        ResourceType::Wood => "fill-emerald-600",
        ResourceType::Brick => "fill-orange-400",
        ResourceType::Sheep => "fill-lime-500",
        ResourceType::Wheat => "fill-yellow-500",
        ResourceType::Ore => "fill-slate-500",
        ResourceType::Desert => "fill-amber-200",
    }
}

/// The label printed across a hex, in capitals.
pub open spec fn hex_label(r: ResourceType) -> Seq<char> {
    match r {
        ResourceType::Wood => "WOOD"@,
        ResourceType::Brick => "BRICK"@,
        ResourceType::Sheep => "SHEEP"@,
        ResourceType::Wheat => "WHEAT"@,
        ResourceType::Ore => "ORE"@,
        ResourceType::Desert => "DESERT"@,
    }
}

/// The label printed across a hex.
pub fn resource_label(resource: &ResourceType) -> (s: &'static str)
    ensures
        s@ == hex_label(*resource),
{
    match resource {
        ResourceType::Wood => "WOOD",
        ResourceType::Brick => "BRICK",
        ResourceType::Sheep => "SHEEP",
        ResourceType::Wheat => "WHEAT",
        ResourceType::Ore => "ORE",
        ResourceType::Desert => "DESERT",
    }
}

/// The colour a player's pieces are drawn in, from the first roster entry
/// with their id; a purple for a player the roster does not hold.
pub open spec fn piece_colour(ps: Seq<PlayerInfo>, id: PlayerId) -> Seq<char> {
    if seated(ps, id) {
        colour_hex(ps[seat_of(ps, id)].colour)
    } else {
        "#a855f7"@
    }
}

/// The colour a player's pieces are drawn in.
pub fn player_color(player_id: PlayerId, players: &Vec<PlayerInfo>) -> (s: &'static str)
    ensures
        s@ == piece_colour(players@, player_id),
{
    match find_player(players, player_id) {
        Some(k) => players[k].colour.hex(),
        None => "#a855f7",
    }
}

/// The colour a player's name is written in.
pub fn colour_hex_of(colour: PlayerColour) -> (s: &'static str)
    ensures
        s@ == colour_hex(colour),
{
    colour.hex()
}

/// `s` without the `#` signs it begins with.
pub open spec fn without_hashes(s: Seq<char>) -> Seq<char>
    decreases s.len(),
{
    if s.len() > 0 && s[0] == '#' {
        without_hashes(s.drop_first())
    } else {
        s
    }
}

/// The id of the tint filter for a colour: `tint` and the colour's hex
/// digits, its leading `#` signs dropped.
pub fn tint_id(hex: &str) -> (s: String)
    ensures
        s@ == "tint"@ + without_hashes(hex@),
{
    let v = crate::banklog::chars_of(hex);
    let mut i: usize = 0;
    proof {
        assert(hex@.skip(0) =~= hex@);
    }
    while i < v.len() && v[i] == '#'
        invariant
            v@ == hex@,
            i <= v@.len(),
            without_hashes(hex@) == without_hashes(hex@.skip(i as int)),
        decreases v@.len() - i,
    {
        proof {
            assert(hex@.skip(i as int).drop_first() =~= hex@.skip(i + 1));
        }
        i = i + 1;
    }
    let mut s = String::from_str("tint");
    let ghost start = s@;
    let mut j = i;
    while j < v.len()
        invariant
            v@ == hex@,
            i <= j <= v@.len(),
            s@ == start + hex@.subrange(i as int, j as int),
        decreases v@.len() - j,
    {
        push_char(&mut s, v[j]);
        j = j + 1;
        proof {
            assert(s@ =~= start + hex@.subrange(i as int, j as int));
        }
    }
    proof {
        assert(hex@.subrange(i as int, v@.len() as int) =~= hex@.skip(i as int));
    }
    s
}

/// The pages of the end-of-game statistics.
#[derive(Clone, Copy, Debug, PartialEq, Eq, Structural)]
pub enum StatsTab {
    Overview,
    Dice,
    ResourceCards,
    DevCards,
    Activity,
    Resources,
}

/// The caption of a statistics page.
pub open spec fn tab_caption(t: StatsTab) -> Seq<char> {
    match t {
        StatsTab::Overview => "Overview"@,
        StatsTab::Dice => "Dice Stats"@,
        StatsTab::ResourceCards => "Res Card Stats"@,
        StatsTab::DevCards => "Dev Card Stats"@,
        StatsTab::Activity => "Activity Stats"@,
        StatsTab::Resources => "Resource Stats"@,
    }
}

impl StatsTab {
    /// The pages in the order their tabs stand.
    pub fn all() -> (v: Vec<StatsTab>)
        ensures
            v@ == seq![
                StatsTab::Overview,
                StatsTab::Dice,
                StatsTab::ResourceCards,
                StatsTab::DevCards,
                StatsTab::Activity,
                StatsTab::Resources,
            ],
    {
        vec![
            StatsTab::Overview,
            StatsTab::Dice,
            StatsTab::ResourceCards,
            StatsTab::DevCards,
            StatsTab::Activity,
            StatsTab::Resources,
        ]
    }

    /// The caption on the page's tab.
    pub fn label(&self) -> (s: &'static str)
        ensures
            s@ == tab_caption(*self),
    {
        match self {
            StatsTab::Overview => "Overview",
            StatsTab::Dice => "Dice Stats",
            StatsTab::ResourceCards => "Res Card Stats",
            StatsTab::DevCards => "Dev Card Stats",
            StatsTab::Activity => "Activity Stats",
            StatsTab::Resources => "Resource Stats",
        }
    }
}

/// One column of a statistics chart: its label, its height, its colour (any
/// CSS colour), and artwork shown under it in place of the label.
#[derive(Clone, Debug, PartialEq, Eq)]
pub struct ChartBar {
    pub label: String,
    pub value: i64,
    pub colour: String,
    pub art: Option<&'static str>,
}

impl ChartBar {
    /// A column with no artwork.
    pub fn new(label: String, value: i64, colour: String) -> (b: Self)
        ensures
            b.label@ == label@,
            b.value == value,
            b.colour@ == colour@,
            b.art is None,
    {
        ChartBar { label, value, colour, art: None }
    }

    /// The same column with artwork under it.
    pub fn with_art(self, art: &'static str) -> (b: Self)
        ensures
            b.label@ == self.label@,
            b.value == self.value,
            b.colour@ == self.colour@,
            b.art == Some(art),
    {
        let mut b = self;
        b.art = Some(art);
        b
    }
}

/// A resource's name on the cards that fly across the table.
pub fn label_of(res: ResourceType) -> (s: &'static str)
    ensures
        s@ == crate::rules::resource_name(res),
{
    res.label()
}

} // verus!
