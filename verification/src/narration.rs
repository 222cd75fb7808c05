//! The event log's lines: what the client writes when something happens.

use vstd::prelude::*;
use vstd::string::*;
use crate::rules::{
    DevCardType, GamePhase, InitialRound, PortType, ResourceType, Resources, StructureType,
    resource_name, structure_label,
};
use crate::text::{decimal, push_decimal};

verus! {

/// A development card's name.
pub open spec fn card_name(card: DevCardType) -> Seq<char> {
    match card {
        DevCardType::Knight => "Knight"@,
        DevCardType::VictoryPoint => "Victory Point"@,
        DevCardType::RoadBuilding => "Road Building"@,
        DevCardType::Monopoly => "Monopoly"@,
        DevCardType::YearOfPlenty => "Year of Plenty"@,
    }
}

/// A development card's name.
pub fn card_label(card: &DevCardType) -> (s: &'static str)
    ensures
        s@ == card_name(*card),
{
    match card {
        DevCardType::Knight => "Knight",
        DevCardType::VictoryPoint => "Victory Point",
        DevCardType::RoadBuilding => "Road Building",
        DevCardType::Monopoly => "Monopoly",
        DevCardType::YearOfPlenty => "Year of Plenty",
    }
}

/// What the log says when a game starts in a given phase.
pub open spec fn start_phrase(phase: GamePhase) -> Seq<char> {
    match phase {
        GamePhase::InitialPlacement { round: InitialRound::First, .. } => "Starting initial placement - Round 1!"@,
        GamePhase::InitialPlacement { round: InitialRound::Second, .. } => "Initial placement - Round 2!"@,
        GamePhase::RegularPlay => "Game started!"@,
        GamePhase::SpecialBuilding { .. } => "Special building phase"@,
        GamePhase::WaitingForPlayers => "Waiting for players..."@,
    }
}

/// The game-start line: the phase, and how many are playing.
pub open spec fn start_line(phase: GamePhase, players: nat) -> Seq<char> {
    start_phrase(phase) + " ("@ + decimal(players) + " players)"@
}

pub fn start_text(phase: GamePhase, players: usize) -> (s: String)
    ensures
        s@ == start_line(phase, players as nat),
{
    let phrase = match phase {
        GamePhase::InitialPlacement { round: InitialRound::First, .. } => "Starting initial placement - Round 1!",
        GamePhase::InitialPlacement { round: InitialRound::Second, .. } => "Initial placement - Round 2!",
        GamePhase::RegularPlay => "Game started!",
        GamePhase::SpecialBuilding { .. } => "Special building phase",
        GamePhase::WaitingForPlayers => "Waiting for players...",
    };
    let mut s = String::from_str(phrase);
    s.append(" (");
    push_decimal(&mut s, players as u64);
    s.append(" players)");
    s
}

/// What the log says when the phase changes; `mine` is whether a special
/// building phase has been handed to this client.
pub open spec fn phase_line(phase: GamePhase, mine: bool) -> Seq<char> {
    match phase {
        GamePhase::InitialPlacement { round: InitialRound::First, .. } => "Initial placement - Round 1"@,
        GamePhase::InitialPlacement { round: InitialRound::Second, .. } => "Initial placement - Round 2"@,
        GamePhase::RegularPlay => "Regular play started!"@,
        GamePhase::SpecialBuilding { .. } => if mine {
            "Special building phase - build or buy, then pass"@
        } else {
            "Special building phase"@
        },
        GamePhase::WaitingForPlayers => "Waiting for players"@,
    }
}

pub fn phase_text(phase: GamePhase, mine: bool) -> (s: String)
    ensures
        s@ == phase_line(phase, mine),
{
    let phrase = match phase {
        GamePhase::InitialPlacement { round: InitialRound::First, .. } => "Initial placement - Round 1",
        GamePhase::InitialPlacement { round: InitialRound::Second, .. } => "Initial placement - Round 2",
        GamePhase::RegularPlay => "Regular play started!",
        GamePhase::SpecialBuilding { .. } => if mine {
            "Special building phase - build or buy, then pass"
        } else {
            "Special building phase"
        },
        GamePhase::WaitingForPlayers => "Waiting for players",
    };
    String::from_str(phrase)
}

/// "s" after a count that is not one.
pub open spec fn plural(n: nat) -> Seq<char> {
    if n == 1 {
        ""@
    } else {
        "s"@
    }
}

/// The line for rolling a seven while others still have to discard.
pub open spec fn seven_line(pending: nat) -> Seq<char> {
    "You rolled 7! Waiting for "@ + decimal(pending) + " player"@ + plural(pending) + " to discard..."@
}

pub fn seven_text(pending: usize) -> (s: String)
    ensures
        s@ == seven_line(pending as nat),
{
    let mut s = String::from_str("You rolled 7! Waiting for ");
    push_decimal(&mut s, pending as u64);
    s.append(" player");
    s.append(if pending == 1 { "" } else { "s" });
    s.append(" to discard...");
    s
}

/// The line for a roll.
pub open spec fn rolled_line(name: Seq<char>, total: nat, d1: nat, d2: nat) -> Seq<char> {
    name + " rolled "@ + decimal(total) + " ("@ + decimal(d1) + "+"@ + decimal(d2) + ")"@
}

pub fn rolled_text(name: String, total: u8, d1: u8, d2: u8) -> (s: String)
    ensures
        s@ == rolled_line(name@, total as nat, d1 as nat, d2 as nat),
{
    let mut s = name;
    s.append(" rolled ");
    push_decimal(&mut s, total as u64);
    s.append(" (");
    push_decimal(&mut s, d1 as u64);
    s.append("+");
    push_decimal(&mut s, d2 as u64);
    s.append(")");
    s
}

/// A name followed by a fixed phrase.
pub fn name_then(name: String, phrase: &str) -> (s: String)
    ensures
        s@ == name@ + phrase@,
{
    let mut s = name;
    s.append(phrase);
    s
}

/// A fixed phrase followed by some text.
pub fn phrase_then(phrase: &str, rest: &str) -> (s: String)
    ensures
        s@ == phrase@ + rest@,
{
    let mut s = String::from_str(phrase);
    s.append(rest);
    s
}

/// The line for a piece being built.
pub open spec fn built_line(name: Seq<char>, t: StructureType) -> Seq<char> {
    name + " built a "@ + structure_label(t)
}

pub fn built_text(name: String, t: StructureType) -> (s: String)
    ensures
        s@ == built_line(name@, t),
{
    let mut s = name;
    s.append(" built a ");
    s.append(t.label());
    s
}

/// The line for a new turn.
pub open spec fn turn_line(name: Seq<char>) -> Seq<char> {
    "It's "@ + name + "'s turn"@
}

pub fn turn_text(name: String) -> (s: String)
    ensures
        s@ == turn_line(name@),
{
    let mut s = String::from_str("It's ");
    s.append(name.as_str());
    s.append("'s turn");
    s
}

/// The line for drawing a development card.
pub open spec fn drew_line(card: DevCardType) -> Seq<char> {
    "You drew a "@ + card_name(card) + " card"@
}

pub fn drew_text(card: DevCardType) -> (s: String)
    ensures
        s@ == drew_line(card),
{
    let mut s = String::from_str("You drew a ");
    s.append(card_label(&card));
    s.append(" card");
    s
}

/// The line for playing a development card.
pub open spec fn played_line(name: Seq<char>, card: DevCardType) -> Seq<char> {
    name + " played a "@ + card_name(card) + " card"@
}

pub fn played_text(name: String, card: DevCardType) -> (s: String)
    ensures
        s@ == played_line(name@, card),
{
    let mut s = name;
    s.append(" played a ");
    s.append(card_label(&card));
    s.append(" card");
    s
}

/// The line for a robbery.
pub open spec fn robbed_line(thief: Seq<char>, victim: Seq<char>, resource: Option<ResourceType>, stole: bool) -> Seq<char> {
    if !stole {
        thief + " couldn't rob "@ + victim + " (no cards)"@
    } else {
        match resource {
            Some(r) => thief + " stole "@ + resource_name(r) + " from "@ + victim,
            None => thief + " stole a card from "@ + victim,
        }
    }
}

pub fn robbed_text(thief: String, victim: String, resource: Option<ResourceType>, stole: bool) -> (s: String)
    ensures
        s@ == robbed_line(thief@, victim@, resource, stole),
{
    let mut s = thief;
    if !stole {
        s.append(" couldn't rob ");
        s.append(victim.as_str());
        s.append(" (no cards)");
    } else {
        match resource {
            Some(r) => {
                s.append(" stole ");
                s.append(r.label());
                s.append(" from ");
                s.append(victim.as_str());
            },
            None => {
                s.append(" stole a card from ");
                s.append(victim.as_str());
            },
        }
    }
    s
}

/// The line for a player owing a discard.
pub open spec fn must_discard_line(name: Seq<char>, count: nat) -> Seq<char> {
    name + " must discard "@ + decimal(count) + " cards"@
}

pub fn must_discard_text(name: String, count: usize) -> (s: String)
    ensures
        s@ == must_discard_line(name@, count as nat),
{
    let mut s = name;
    s.append(" must discard ");
    push_decimal(&mut s, count as u64);
    s.append(" cards");
    s
}

/// The parts of a discard, one per kind that was given up: wood, brick,
/// sheep, wheat, ore.
pub open spec fn discard_parts(r: Resources) -> Seq<Seq<char>> {
    let w = if r.lumber > 0 { seq![decimal(r.lumber as nat) + " wood"@] } else { seq![] };
    let b = if r.brick > 0 { seq![decimal(r.brick as nat) + " brick"@] } else { seq![] };
    let s = if r.wool > 0 { seq![decimal(r.wool as nat) + " sheep"@] } else { seq![] };
    let h = if r.grain > 0 { seq![decimal(r.grain as nat) + " wheat"@] } else { seq![] };
    let o = if r.ore > 0 { seq![decimal(r.ore as nat) + " ore"@] } else { seq![] };
    w + b + s + h + o
}

/// Parts joined by ", ".
pub open spec fn comma_join(parts: Seq<Seq<char>>) -> Seq<char>
    decreases parts.len(),
{
    if parts.len() == 0 {
        seq![]
    } else if parts.len() == 1 {
        parts[0]
    } else {
        comma_join(parts.drop_last()) + ", "@ + parts.last()
    }
}

/// A list in prose: "nothing", one part, or "a, b, and c".
pub open spec fn prose_list(parts: Seq<Seq<char>>) -> Seq<char> {
    if parts.len() == 0 {
        "nothing"@
    } else if parts.len() == 1 {
        parts[0]
    } else {
        comma_join(parts.drop_last()) + ", and "@ + parts.last()
    }
}

/// The line for a discard.
pub open spec fn discarded_line(name: Seq<char>, r: Resources) -> Seq<char> {
    name + " discarded "@ + prose_list(discard_parts(r))
}

fn discard_part(n: u8, label: &str) -> (s: String)
    ensures
        s@ == decimal(n as nat) + label@,
{
    let mut s = String::new();
    push_decimal(&mut s, n as u64);
    s.append(label);
    proof {
        assert(Seq::<char>::empty() + decimal(n as nat) =~= decimal(n as nat));
    }
    s
}

/// The view of a list of strings.
pub open spec fn texts(v: Seq<String>) -> Seq<Seq<char>> {
    v.map_values(|p: String| p@)
}

fn push_part(parts: &mut Vec<String>, n: u8, label: &str)
    ensures
        texts(final(parts)@) == if n > 0 {
            texts(old(parts)@).push(decimal(n as nat) + label@)
        } else {
            texts(old(parts)@)
        },
{
    if n > 0 {
        let p = discard_part(n, label);
        parts.push(p);
        proof {
            assert(texts(parts@) =~= texts(old(parts)@).push(p@));
        }
    }
}

fn discard_part_list(r: Resources) -> (parts: Vec<String>)
    ensures
        texts(parts@) == discard_parts(r),
{
    let mut parts: Vec<String> = Vec::new();
    assert(texts(parts@) =~= Seq::<Seq<char>>::empty());
    push_part(&mut parts, r.lumber, " wood");
    push_part(&mut parts, r.brick, " brick");
    push_part(&mut parts, r.wool, " sheep");
    push_part(&mut parts, r.grain, " wheat");
    push_part(&mut parts, r.ore, " ore");
    proof {
        let w: Seq<Seq<char>> = if r.lumber > 0 { seq![decimal(r.lumber as nat) + " wood"@] } else { seq![] };
        let b: Seq<Seq<char>> = if r.brick > 0 { seq![decimal(r.brick as nat) + " brick"@] } else { seq![] };
        let sh: Seq<Seq<char>> = if r.wool > 0 { seq![decimal(r.wool as nat) + " sheep"@] } else { seq![] };
        let h: Seq<Seq<char>> = if r.grain > 0 { seq![decimal(r.grain as nat) + " wheat"@] } else { seq![] };
        let o: Seq<Seq<char>> = if r.ore > 0 { seq![decimal(r.ore as nat) + " ore"@] } else { seq![] };
        assert(texts(parts@) =~= w + b + sh + h + o);
    }
    parts
}

/// Appends parts joined by ", ".
fn push_comma_join(s: &mut String, parts: &Vec<String>, n: usize)
    requires
        n <= parts@.len(),
    ensures
        final(s)@ == old(s)@ + comma_join(texts(parts@).take(n as int)),
{
    let ghost start = s@;
    let ghost pv = texts(parts@);
    let mut i: usize = 0;
    while i < n
        invariant
            n <= parts@.len(),
            i <= n,
            pv == texts(parts@),
            s@ == start + comma_join(pv.take(i as int)),
        decreases n - i,
    {
        if i > 0 {
            s.append(", ");
        }
        s.append(parts[i].as_str());
        proof {
            let t = pv.take(i + 1);
            assert(t.drop_last() =~= pv.take(i as int));
            assert(t.last() == parts@[i as int]@);
            if i == 0 {
                assert(pv.take(0) =~= Seq::<Seq<char>>::empty());
            }
            assert(s@ =~= start + comma_join(t));
        }
        i = i + 1;
    }
}

/// Appends a list in prose.
fn push_prose_list(s: &mut String, parts: &Vec<String>)
    ensures
        final(s)@ == old(s)@ + prose_list(texts(parts@)),
{
    let n = parts.len();
    if n == 0 {
        s.append("nothing");
    } else if n == 1 {
        s.append(parts[0].as_str());
    } else {
        push_comma_join(s, parts, n - 1);
        s.append(", and ");
        s.append(parts[n - 1].as_str());
        proof {
            assert(texts(parts@).take((n - 1) as int) =~= texts(parts@).drop_last());
        }
    }
}

pub fn discarded_text(name: String, r: Resources) -> (s: String)
    ensures
        s@ == discarded_line(name@, r),
{
    let parts = discard_part_list(r);
    let mut s = name;
    s.append(" discarded ");
    push_prose_list(&mut s, &parts);
    s
}

/// The line for a Year of Plenty draw.
pub open spec fn plenty_line(name: Seq<char>, r1: ResourceType, r2: ResourceType) -> Seq<char> {
    name + " received "@ + resource_name(r1) + " and "@ + resource_name(r2) + " from Year of Plenty."@
}

pub fn plenty_text(name: String, r1: ResourceType, r2: ResourceType) -> (s: String)
    ensures
        s@ == plenty_line(name@, r1, r2),
{
    let mut s = name;
    s.append(" received ");
    s.append(r1.label());
    s.append(" and ");
    s.append(r2.label());
    s.append(" from Year of Plenty.");
    s
}

/// The line for a Monopoly.
pub open spec fn monopoly_line(name: Seq<char>, total: nat, r: ResourceType) -> Seq<char> {
    name + " used Monopoly and stole "@ + decimal(total) + " "@ + resource_name(r) + " from other players!"@
}

pub fn monopoly_text(name: String, total: u32, r: ResourceType) -> (s: String)
    ensures
        s@ == monopoly_line(name@, total as nat, r),
{
    let mut s = name;
    s.append(" used Monopoly and stole ");
    push_decimal(&mut s, total as u64);
    s.append(" ");
    s.append(r.label());
    s.append(" from other players!");
    s
}

/// The line for free roads to place.
pub open spec fn free_roads_line(n: nat) -> Seq<char> {
    "Place "@ + decimal(n) + " free road"@ + plural(n) + "!"@
}

pub fn free_roads_text(n: u8) -> (s: String)
    ensures
        s@ == free_roads_line(n as nat),
{
    let mut s = String::from_str("Place ");
    push_decimal(&mut s, n as u64);
    s.append(" free road");
    s.append(if n == 1 { "" } else { "s" });
    s.append("!");
    s
}

/// The line for a trade with the bank.
pub open spec fn bank_trade_line(name: Seq<char>, gc: nat, gave: ResourceType, rc: nat, received: ResourceType) -> Seq<char> {
    name + " traded "@ + decimal(gc) + " "@ + resource_name(gave) + " for "@ + decimal(rc) + " "@
        + resource_name(received)
}

pub fn bank_trade_text(name: &String, gc: u32, gave: ResourceType, rc: u32, received: ResourceType) -> (s: String)
    ensures
        s@ == bank_trade_line(name@, gc as nat, gave, rc as nat, received),
{
    let mut s = name.clone();
    s.append(" traded ");
    push_decimal(&mut s, gc as u64);
    s.append(" ");
    s.append(gave.label());
    s.append(" for ");
    push_decimal(&mut s, rc as u64);
    s.append(" ");
    s.append(received.label());
    s
}

/// How the log describes a harbour.
pub open spec fn port_phrase(p: PortType) -> Seq<char> {
    match p {
        PortType::ThreeToOne => "3:1 port"@,
        PortType::TwoToOne(r) => "2:1 "@ + resource_name(r) + " port"@,
    }
}

/// The line for gaining a harbour.
pub open spec fn port_line(p: PortType) -> Seq<char> {
    "You gained access to a "@ + port_phrase(p) + "!"@
}

pub fn port_text(p: PortType) -> (s: String)
    ensures
        s@ == port_line(p),
{
    let mut s = String::from_str("You gained access to a ");
    match p {
        PortType::ThreeToOne => {
            s.append("3:1 port");
        },
        PortType::TwoToOne(r) => {
            s.append("2:1 ");
            s.append(r.label());
            s.append(" port");
        },
    }
    s.append("!");
    s
}

/// The line for a settled trade.
pub open spec fn completed_line(proposer: Seq<char>, accepter: Seq<char>) -> Seq<char> {
    "Trade completed between "@ + proposer + " and "@ + accepter
}

pub fn completed_text(proposer: String, accepter: String) -> (s: String)
    ensures
        s@ == completed_line(proposer@, accepter@),
{
    let mut s = String::from_str("Trade completed between ");
    s.append(proposer.as_str());
    s.append(" and ");
    s.append(accepter.as_str());
    s
}

/// The line for the end of the game.
pub open spec fn won_line(name: Seq<char>, points: nat) -> Seq<char> {
    name + " has won the game with "@ + decimal(points) + " secret victory points!"@
}

pub fn won_text(name: String, points: u8) -> (s: String)
    ensures
        s@ == won_line(name@, points as nat),
{
    let mut s = name;
    s.append(" has won the game with ");
    push_decimal(&mut s, points as u64);
    s.append(" secret victory points!");
    s
}

} // verus!
