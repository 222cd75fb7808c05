//! What a roll pays out, worked out from the board the client already holds,
//! and how the log reports it.

use vstd::prelude::*;
use crate::board::{corner, hex_vertices, pos, spot};
use crate::client::{GameState, name_of};
use crate::rules::{BuildingInfo, HexInfo, PlayerId, PlayerInfo, ResourceType};
use crate::text::{decimal, push_decimal};
use vstd::string::*;

verus! {

/// One card a roll pays: the tile it comes off, who gets it, and what it is.
pub type Payment = ((i32, i32), PlayerId, ResourceType);

/// A card for each piece in `bs` standing at `v` (`per_piece` cards each).
pub open spec fn pay_pieces(bs: Seq<BuildingInfo>, v: (int, int), h: HexInfo, per_piece: nat) -> Seq<Payment>
    decreases bs.len(),
{
    if bs.len() == 0 {
        seq![]
    } else {
        let r = pay_pieces(bs.drop_last(), v, h, per_piece);
        if spot(bs.last()) == v {
            if per_piece == 2 {
                r.push(((h.q, h.r), bs.last().player_id, h.resource)).push(
                    ((h.q, h.r), bs.last().player_id, h.resource),
                )
            } else {
                r.push(((h.q, h.r), bs.last().player_id, h.resource))
            }
        } else {
            r
        }
    }
}

/// What the first `n` corners of a producing hex pay: each settlement one
/// card, each city two.
pub open spec fn pay_corners(
    settlements: Seq<BuildingInfo>,
    cities: Seq<BuildingInfo>,
    h: HexInfo,
    n: int,
) -> Seq<Payment>
    decreases n,
{
    if n <= 0 {
        seq![]
    } else {
        pay_corners(settlements, cities, h, n - 1) + pay_pieces(settlements, corner(h, n - 1), h, 1)
            + pay_pieces(cities, corner(h, n - 1), h, 2)
    }
}

/// A hex produces on `total` when it carries that number, is not desert, and
/// the robber is not on it.
pub open spec fn produces(h: HexInfo, total: u8, robber: Option<(i32, i32)>) -> bool {
    h.number == total && h.resource != ResourceType::Desert && robber != Some((h.q, h.r))
}

/// What the first hexes of the board pay on `total`.
pub open spec fn pay_hexes(
    hexes: Seq<HexInfo>,
    settlements: Seq<BuildingInfo>,
    cities: Seq<BuildingInfo>,
    robber: Option<(i32, i32)>,
    total: u8,
) -> Seq<Payment>
    decreases hexes.len(),
{
    if hexes.len() == 0 {
        seq![]
    } else {
        let r = pay_hexes(hexes.drop_last(), settlements, cities, robber, total);
        if produces(hexes.last(), total, robber) {
            r + pay_corners(settlements, cities, hexes.last(), 6)
        } else {
            r
        }
    }
}

/// The corners of every hex that produces on `total` fit in 32-bit
/// coordinates; a seven asks nothing.
pub open spec fn producing_fit(hexes: Seq<HexInfo>, robber: Option<(i32, i32)>, total: u8) -> bool {
    total == 7 || forall|k: int|
        0 <= k < hexes.len() && #[trigger] produces(hexes[k], total, robber) ==> -715_827_882 <= hexes[k].q
            <= 715_827_881 && -715_827_882 <= hexes[k].r <= 715_827_881
}

/// Whether the corners of every hex that produces on `total` fit in 32-bit
/// coordinates.
pub fn producing_hexes_fit(hexes: &Vec<HexInfo>, robber: Option<(i32, i32)>, total: u8) -> (b: bool)
    ensures
        b == producing_fit(hexes@, robber, total),
{
    if total == 7 {
        return true;
    }
    let mut k: usize = 0;
    while k < hexes.len()
        invariant
            k <= hexes@.len(),
            total != 7,
            forall|j: int|
                0 <= j < k && #[trigger] produces(hexes@[j], total, robber) ==> -715_827_882 <= hexes@[j].q
                    <= 715_827_881 && -715_827_882 <= hexes@[j].r <= 715_827_881,
        decreases hexes@.len() - k,
    {
        let h = hexes[k];
        let robbed = match robber {
            Some(rp) => rp.0 == h.q && rp.1 == h.r,
            None => false,
        };
        let is_desert = match h.resource {
            ResourceType::Desert => true,
            _ => false,
        };
        if h.number == total && !is_desert && !robbed {
            if !(-715_827_882 <= h.q && h.q <= 715_827_881 && -715_827_882 <= h.r && h.r <= 715_827_881) {
                assert(produces(hexes@[k as int], total, robber));
                return false;
            }
        } else {
            assert(!produces(hexes@[k as int], total, robber));
        }
        k = k + 1;
    }
    true
}

/// What a roll of `total` pays: nothing on a seven, otherwise a card per
/// settlement and two per city on every corner of every producing hex.
pub open spec fn payout(s: GameState, total: u8) -> Seq<Payment> {
    if total == 7 {
        seq![]
    } else {
        pay_hexes(s.hexes@, s.settlements@, s.cities@, s.robber_pos, total)
    }
}

/// Appends a card for each piece in `bs` standing at `v`.
fn pay_at(out: &mut Vec<Payment>, bs: &Vec<BuildingInfo>, v: (i32, i32), h: HexInfo, per_piece: usize)
    requires
        per_piece == 1 || per_piece == 2,
    ensures
        final(out)@ == old(out)@ + pay_pieces(bs@, pos(v), h, per_piece as nat),
{
    let ghost start = out@;
    let mut k: usize = 0;
    while k < bs.len()
        invariant
            k <= bs@.len(),
            per_piece == 1 || per_piece == 2,
            out@ == start + pay_pieces(bs@.take(k as int), pos(v), h, per_piece as nat),
        decreases bs@.len() - k,
    {
        proof {
            assert(bs@.take(k + 1).drop_last() =~= bs@.take(k as int));
            assert(bs@.take(k + 1).last() == bs@[k as int]);
        }
        if bs[k].x == v.0 && bs[k].y == v.1 {
            out.push(((h.q, h.r), bs[k].player_id, h.resource));
            if per_piece == 2 {
                out.push(((h.q, h.r), bs[k].player_id, h.resource));
            }
        }
        proof {
            let p = pay_pieces(bs@.take(k as int), pos(v), h, per_piece as nat);
            let item = ((h.q, h.r), bs@[k as int].player_id, h.resource);
            if spot(bs@[k as int]) == pos(v) {
                if per_piece == 2 {
                    assert(start + p.push(item).push(item) =~= (start + p).push(item).push(item));
                } else {
                    assert(start + p.push(item) =~= (start + p).push(item));
                }
            }
        }
        k = k + 1;
    }
    proof {
        assert(bs@.take(bs@.len() as int) =~= bs@);
    }
}

impl GameState {
    /// What a roll of `total` pays out, as one entry per card: the tile it
    /// comes off, who gets it, and what it is.
    pub fn roll_payout(&self, total: u8) -> (paid: Vec<Payment>)
        requires
            producing_fit(self.hexes@, self.robber_pos, total),
        ensures
            paid@ == payout(*self, total),
    {
        let mut paid: Vec<Payment> = Vec::new();
        if total == 7 {
            return paid;
        }
        let mut h: usize = 0;
        while h < self.hexes.len()
            invariant
                h <= self.hexes@.len(),
                total != 7,
                producing_fit(self.hexes@, self.robber_pos, total),
                paid@ == pay_hexes(self.hexes@.take(h as int), self.settlements@, self.cities@, self.robber_pos, total),
            decreases self.hexes@.len() - h,
        {
            let hex = self.hexes[h];
            proof {
                assert(self.hexes@.take(h + 1).drop_last() =~= self.hexes@.take(h as int));
                assert(self.hexes@.take(h + 1).last() == hex);
            }
            let robbed = match self.robber_pos {
                Some(rp) => rp.0 == hex.q && rp.1 == hex.r,
                None => false,
            };
            let is_desert = match hex.resource {
                ResourceType::Desert => true,
                _ => false,
            };
            if hex.number == total && !is_desert && !robbed {
                assert(produces(self.hexes@[h as int], total, self.robber_pos));
                let ghost before = paid@;
                let corners = hex_vertices(hex.q, hex.r);
                let mut i: usize = 0;
                while i < 6
                    invariant
                        i <= 6,
                        forall|c: int| 0 <= c < 6 ==> #[trigger] pos(corners@[c]) == corner(hex, c),
                        paid@ == before + pay_corners(self.settlements@, self.cities@, hex, i as int),
                    decreases 6 - i,
                {
                    let v = corners[i];
                    assert(pos(corners@[i as int]) == corner(hex, i as int));
                    let ghost mid = paid@;
                    pay_at(&mut paid, &self.settlements, v, hex, 1);
                    pay_at(&mut paid, &self.cities, v, hex, 2);
                    proof {
                        assert(paid@ =~= before + pay_corners(self.settlements@, self.cities@, hex, i + 1));
                    }
                    i = i + 1;
                }
                assert(produces(hex, total, self.robber_pos));
            } else {
                assert(!produces(hex, total, self.robber_pos));
            }
            h = h + 1;
        }
        proof {
            assert(self.hexes@.take(self.hexes@.len() as int) =~= self.hexes@);
        }
        paid
    }
}


/// A resource's name in running prose, for the log.
pub open spec fn prose_name(r: ResourceType) -> Seq<char> {
    match r {
        ResourceType::Wood => "wood"@,
        ResourceType::Brick => "brick"@,
        ResourceType::Sheep => "sheep"@,
        ResourceType::Wheat => "wheat"@,
        ResourceType::Ore => "ore"@,
        ResourceType::Desert => "desert"@,
    }
}

/// A resource's name in running prose, for the log: its label in lower
/// case.
pub fn resource_label(res: ResourceType) -> (s: &'static str)
    ensures
        s@ == prose_name(res),
        s@ == crate::banklog::ascii_lower(crate::rules::resource_name(res)),
{
    proof {
        reveal_strlit("wood");
        reveal_strlit("brick");
        reveal_strlit("sheep");
        reveal_strlit("wheat");
        reveal_strlit("ore");
        reveal_strlit("desert");
        reveal_strlit("Wood");
        reveal_strlit("Brick");
        reveal_strlit("Sheep");
        reveal_strlit("Wheat");
        reveal_strlit("Ore");
        reveal_strlit("Desert");
        let l = crate::banklog::ascii_lower(crate::rules::resource_name(res));
        match res {
            ResourceType::Wood => assert(l =~= "wood"@),
            ResourceType::Brick => assert(l =~= "brick"@),
            ResourceType::Sheep => assert(l =~= "sheep"@),
            ResourceType::Wheat => assert(l =~= "wheat"@),
            ResourceType::Ore => assert(l =~= "ore"@),
            ResourceType::Desert => assert(l =~= "desert"@),
        }
    }
    match res {
        ResourceType::Wood => "wood",
        ResourceType::Brick => "brick",
        ResourceType::Sheep => "sheep",
        ResourceType::Wheat => "wheat",
        ResourceType::Ore => "ore",
        ResourceType::Desert => "desert",
    }
}

/// What one player got off a roll: each kind of card, with how many, in
/// the order the kinds first came up.
pub type Haul = Seq<(ResourceType, nat)>;

/// The slot of `res` in a haul, or -1.
pub open spec fn res_index(cards: Haul, res: ResourceType) -> int
    decreases cards.len(),
{
    if cards.len() == 0 {
        -1
    } else if cards.last().0 == res {
        cards.len() - 1
    } else {
        res_index(cards.drop_last(), res)
    }
}

/// The slot of `pid` in a tally, or -1.
pub open spec fn pid_index(t: Seq<(PlayerId, Haul)>, pid: PlayerId) -> int
    decreases t.len(),
{
    if t.len() == 0 {
        -1
    } else if t.last().0 == pid {
        t.len() - 1
    } else {
        pid_index(t.drop_last(), pid)
    }
}

/// One more card of `res` in a haul.
pub open spec fn bump(cards: Haul, res: ResourceType) -> Haul {
    let j = res_index(cards, res);
    if j < 0 {
        cards.push((res, 1))
    } else {
        cards.update(j, (res, cards[j].1 + 1))
    }
}

/// One more card in a tally of hauls by player.
pub open spec fn tally_add(t: Seq<(PlayerId, Haul)>, p: Payment) -> Seq<(PlayerId, Haul)> {
    let k = pid_index(t, p.1);
    if k < 0 {
        t.push((p.1, seq![(p.2, 1nat)]))
    } else {
        t.update(k, (p.1, bump(t[k].1, p.2)))
    }
}

/// Who a roll paid, in the order players first came up, with their hauls.
pub open spec fn tally(ps: Seq<Payment>) -> Seq<(PlayerId, Haul)>
    decreases ps.len(),
{
    if ps.len() == 0 {
        seq![]
    } else {
        tally_add(tally(ps.drop_last()), ps.last())
    }
}

/// "2 wheat" and the like.
pub open spec fn haul_item(c: (ResourceType, nat)) -> Seq<char> {
    decimal(c.1) + " "@ + prose_name(c.0)
}

/// A haul as a comma-separated list.
pub open spec fn haul_text(cards: Haul) -> Seq<char>
    decreases cards.len(),
{
    if cards.len() == 0 {
        seq![]
    } else if cards.len() == 1 {
        haul_item(cards[0])
    } else {
        haul_text(cards.drop_last()) + ", "@ + haul_item(cards.last())
    }
}

/// The log line for what one player got off a roll.
pub open spec fn haul_line(players: Seq<PlayerInfo>, entry: (PlayerId, Haul)) -> Seq<char> {
    name_of(players, entry.0) + " got "@ + haul_text(entry.1)
}

/// The log lines for a roll's payout, one per player paid.
pub open spec fn payout_lines(players: Seq<PlayerInfo>, ps: Seq<Payment>) -> Seq<Seq<char>> {
    let t = tally(ps);
    Seq::new(t.len(), |i: int| haul_line(players, t[i]))
}

/// The spec view of an executable haul.
pub open spec fn haul_view(v: Vec<(ResourceType, u64)>) -> Haul {
    v@.map_values(|c: (ResourceType, u64)| (c.0, c.1 as nat))
}

/// The spec view of an executable tally.
pub open spec fn tally_view(v: Seq<(PlayerId, Vec<(ResourceType, u64)>)>) -> Seq<(PlayerId, Haul)> {
    v.map_values(|e: (PlayerId, Vec<(ResourceType, u64)>)| (e.0, haul_view(e.1)))
}

proof fn lemma_res_index_scan(cards: Haul, res: ResourceType, k: int)
    requires
        0 <= k <= cards.len(),
        forall|j: int| k <= j < cards.len() ==> cards[j].0 != res,
    ensures
        res_index(cards, res) == res_index(cards.take(k), res),
    decreases cards.len(),
{
    if cards.len() > k {
        assert(cards.drop_last().take(k) =~= cards.take(k));
        lemma_res_index_scan(cards.drop_last(), res, k);
    } else {
        assert(cards.take(k) =~= cards);
    }
}

proof fn lemma_pid_index_scan(t: Seq<(PlayerId, Haul)>, pid: PlayerId, k: int)
    requires
        0 <= k <= t.len(),
        forall|j: int| k <= j < t.len() ==> t[j].0 != pid,
    ensures
        pid_index(t, pid) == pid_index(t.take(k), pid),
    decreases t.len(),
{
    if t.len() > k {
        assert(t.drop_last().take(k) =~= t.take(k));
        lemma_pid_index_scan(t.drop_last(), pid, k);
    } else {
        assert(t.take(k) =~= t);
    }
}

proof fn lemma_res_index_range(cards: Haul, res: ResourceType)
    ensures
        -1 <= res_index(cards, res) < cards.len(),
        res_index(cards, res) >= 0 ==> cards[res_index(cards, res)].0 == res,
    decreases cards.len(),
{
    if cards.len() > 0 {
        lemma_res_index_range(cards.drop_last(), res);
    }
}

proof fn lemma_pid_index_range(t: Seq<(PlayerId, Haul)>, pid: PlayerId)
    ensures
        -1 <= pid_index(t, pid) < t.len(),
        pid_index(t, pid) >= 0 ==> t[pid_index(t, pid)].0 == pid,
    decreases t.len(),
{
    if t.len() > 0 {
        lemma_pid_index_range(t.drop_last(), pid);
    }
}

/// Adds one card to an executable haul.
fn bump_haul(cards: &mut Vec<(ResourceType, u64)>, res: ResourceType, bound: Ghost<nat>)
    requires
        forall|j: int| 0 <= j < old(cards)@.len() ==> #[trigger] old(cards)@[j].1 <= bound@,
        bound@ < u64::MAX,
    ensures
        haul_view(*final(cards)) == bump(haul_view(*old(cards)), res),
        forall|j: int| 0 <= j < final(cards)@.len() ==> #[trigger] final(cards)@[j].1 <= bound@ + 1,
{
    let ghost hv = haul_view(*cards);
    let mut k: usize = cards.len();
    while k > 0 && !same_resource(cards[k - 1].0, res)
        invariant
            k <= cards@.len(),
            hv == haul_view(*cards),
            forall|j: int| k <= j < cards@.len() ==> cards@[j].0 != res,
        decreases k,
    {
        k = k - 1;
    }
    proof {
        assert(forall|j: int| k <= j < hv.len() ==> hv[j].0 != res);
        lemma_res_index_scan(hv, res, k as int);
    }
    if k == 0 {
        proof {
            assert(hv.take(0) =~= Seq::<(ResourceType, nat)>::empty());
        }
        cards.push((res, 1));
        proof {
            assert(haul_view(*cards) =~= hv.push((res, 1nat)));
        }
    } else {
        proof {
            assert(hv.take(k as int).last() == hv[k - 1]);
            assert(hv.take(k as int).len() == k);
            assert(res_index(hv.take(k as int), res) == k - 1);
        }
        let (r, n) = cards[k - 1];
        cards.set(k - 1, (r, n + 1));
        proof {
            assert(haul_view(*cards) =~= hv.update(k - 1, (res, hv[k - 1].1 + 1)));
        }
    }
}

fn same_resource(a: ResourceType, b: ResourceType) -> (r: bool)
    ensures
        r == (a == b),
{
    match (a, b) {
        (ResourceType::Brick, ResourceType::Brick) => true,
        (ResourceType::Wood, ResourceType::Wood) => true,
        (ResourceType::Wheat, ResourceType::Wheat) => true,
        (ResourceType::Ore, ResourceType::Ore) => true,
        (ResourceType::Sheep, ResourceType::Sheep) => true,
        (ResourceType::Desert, ResourceType::Desert) => true,
        _ => false,
    }
}

/// Who a roll paid, with their hauls.
fn tally_payout(paid: &Vec<Payment>) -> (t: Vec<(PlayerId, Vec<(ResourceType, u64)>)>)
    ensures
        tally_view(t@) == tally(paid@),
{
    let mut t: Vec<(PlayerId, Vec<(ResourceType, u64)>)> = Vec::new();
    let mut i: usize = 0;
    while i < paid.len()
        invariant
            i <= paid@.len(),
            tally_view(t@) == tally(paid@.take(i as int)),
            forall|k: int, j: int|
                0 <= k < t@.len() && 0 <= j < t@[k].1@.len() ==> #[trigger] t@[k].1@[j].1 <= i,
        decreases paid@.len() - i,
    {
        let (_, pid, res) = paid[i];
        let ghost tv = tally_view(t@);
        proof {
            assert(paid@.take(i + 1).drop_last() =~= paid@.take(i as int));
            assert(paid@.take(i + 1).last() == paid@[i as int]);
        }
        let mut k: usize = t.len();
        while k > 0 && t[k - 1].0 != pid
            invariant
                k <= t@.len(),
                tv == tally_view(t@),
                forall|j: int| k <= j < t@.len() ==> t@[j].0 != pid,
            decreases k,
        {
            k = k - 1;
        }
        proof {
            assert(forall|j: int| k <= j < tv.len() ==> tv[j].0 != pid);
            lemma_pid_index_scan(tv, pid, k as int);
        }
        if k == 0 {
            let mut cards: Vec<(ResourceType, u64)> = Vec::new();
            cards.push((res, 1));
            let ghost cv = haul_view(cards);
            assert(cv =~= seq![(res, 1nat)]);
            t.push((pid, cards));
            proof {
                assert(tv.take(0) =~= Seq::<(PlayerId, Haul)>::empty());
                assert(tally_view(t@) =~= tv.push((pid, seq![(res, 1nat)])));
            }
        } else {
            proof {
                assert(tv.take(k as int).last() == tv[k - 1]);
                assert(tv.take(k as int).len() == k);
                assert(pid_index(tv.take(k as int), pid) == k - 1);
            }
            let (p, mut cards) = t.remove(k - 1);
            assert(forall|j: int| 0 <= j < cards@.len() ==> #[trigger] cards@[j].1 <= i);
            bump_haul(&mut cards, res, Ghost(i as nat));
            t.insert(k - 1, (p, cards));
            proof {
                assert(tally_view(t@) =~= tv.update(k - 1, (pid, bump(tv[k - 1].1, res))));
            }
        }
        i = i + 1;
    }
    proof {
        assert(paid@.take(paid@.len() as int) =~= paid@);
    }
    t
}


/// Appends a haul as a comma-separated list.
fn push_haul(s: &mut String, cards: &Vec<(ResourceType, u64)>)
    ensures
        final(s)@ == old(s)@ + haul_text(haul_view(*cards)),
{
    let ghost start = s@;
    let ghost hv = haul_view(*cards);
    let mut i: usize = 0;
    while i < cards.len()
        invariant
            i <= cards@.len(),
            hv == haul_view(*cards),
            s@ == start + haul_text(hv.take(i as int)),
        decreases cards@.len() - i,
    {
        let ghost before = s@;
        if i > 0 {
            s.append(", ");
        }
        let (res, n) = cards[i];
        push_decimal(s, n);
        s.append(" ");
        s.append(resource_label(res));
        proof {
            let t = hv.take(i + 1);
            assert(t.drop_last() =~= hv.take(i as int));
            assert(t.last() == (res, n as nat));
            if i == 0 {
                assert(hv.take(0) =~= Seq::<(ResourceType, nat)>::empty());
                assert(s@ =~= start + haul_text(t));
            } else {
                assert(s@ =~= start + haul_text(t));
            }
        }
        i = i + 1;
    }
    proof {
        assert(hv.take(cards@.len() as int) =~= hv);
    }
}

/// The spec view of the log.
pub open spec fn log_of(msgs: Seq<String>) -> Seq<Seq<char>> {
    msgs.map_values(|m: String| m@)
}

impl GameState {
    /// Appends one log line per player a roll of `total` paid.
    pub(crate) fn log_payout(&mut self, total: u8)
        requires
            producing_fit(old(self).hexes@, old(self).robber_pos, total),
        ensures
            log_of(final(self).messages@) == log_of(old(self).messages@) + payout_lines(
                old(self).players@,
                payout(*old(self), total),
            ),
            *final(self) == (GameState { messages: final(self).messages, ..*old(self) }),
    {
        let paid = self.roll_payout(total);
        let t = tally_payout(&paid);
        let ghost tv = tally_view(t@);
        let ghost start = log_of(self.messages@);
        let mut i: usize = 0;
        while i < t.len()
            invariant
                i <= t@.len(),
                tv == tally_view(t@),
                tv == tally(paid@),
                paid@ == payout(*old(self), total),
                start == log_of(old(self).messages@),
                *self == (GameState { messages: self.messages, ..*old(self) }),
                log_of(self.messages@) == start + Seq::new(i as nat, |j: int| haul_line(self.players@, tv[j])),
            decreases t@.len() - i,
        {
            let mut line = self.player_name(t[i].0);
            line.append(" got ");
            push_haul(&mut line, &t[i].1);
            let ghost before = self.messages@;
            self.messages.push(line);
            proof {
                assert(log_of(self.messages@) =~= log_of(before).push(line@));
                assert(line@ == haul_line(self.players@, tv[i as int]));
                assert(start + Seq::new((i + 1) as nat, |j: int| haul_line(self.players@, tv[j]))
                    =~= (start + Seq::new(i as nat, |j: int| haul_line(self.players@, tv[j]))).push(line@));
            }
            i = i + 1;
        }
        proof {
            assert(payout_lines(self.players@, paid@) =~= Seq::new(i as nat, |j: int| haul_line(self.players@, tv[j])));
        }
    }
}

} // verus!
