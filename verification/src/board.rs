//! The board's geometry and where a player may build on it.
//!
//! Positions are in the server's coordinates: a hex at axial `(q, r)` has its
//! six corners around `(3q, 3r)`, and an edge is named by the sum of its two
//! corners divided by three.

use vstd::prelude::*;
use crate::rules::{BuildingInfo, HexInfo, PlayerId};

verus! {

/// A position as a pair of mathematical integers.
pub open spec fn pos(p: (i32, i32)) -> (int, int) {
    (p.0 as int, p.1 as int)
}

/// Where a piece stands.
pub open spec fn spot(b: BuildingInfo) -> (int, int) {
    (b.x as int, b.y as int)
}

/// Corner `i` (0..6) of a hex, counting round from the one up and to the right.
pub open spec fn corner(h: HexInfo, i: int) -> (int, int) {
    let q = h.q as int;
    let r = h.r as int;
    if i == 0 {
        (3 * q + 1, 3 * r + 1)
    } else if i == 1 {
        (3 * q - 1, 3 * r + 2)
    } else if i == 2 {
        (3 * q - 2, 3 * r + 1)
    } else if i == 3 {
        (3 * q - 1, 3 * r - 1)
    } else if i == 4 {
        (3 * q + 1, 3 * r - 2)
    } else {
        (3 * q + 2, 3 * r - 1)
    }
}

/// The corner after `i` going round a hex.
pub open spec fn next(i: int) -> int {
    if i == 5 {
        0
    } else {
        i + 1
    }
}

/// The name of side `i` of a hex: the side from corner `i` to corner
/// `next(i)`, named by the sum of its corners divided by three.
pub open spec fn side_key(h: HexInfo, i: int) -> (int, int) {
    let q = h.q as int;
    let r = h.r as int;
    if i == 0 {
        (2 * q, 2 * r + 1)
    } else if i == 1 {
        (2 * q - 1, 2 * r + 1)
    } else if i == 2 {
        (2 * q - 1, 2 * r)
    } else if i == 3 {
        (2 * q, 2 * r - 1)
    } else if i == 4 {
        (2 * q + 1, 2 * r - 1)
    } else {
        (2 * q + 1, 2 * r)
    }
}

/// Integer division by three, rounding toward zero as Rust does.
pub open spec fn div3(x: int) -> int {
    if x >= 0 {
        x / 3
    } else {
        -((-x) / 3)
    }
}

/// The coordinates of every hex are small enough for corner and edge
/// arithmetic to stay inside `i32`.
pub open spec fn coords_fit(hexes: Seq<HexInfo>) -> bool {
    forall|k: int|
        0 <= k < hexes.len() ==> -357_913_940 <= #[trigger] hexes[k].q <= 357_913_940
            && -357_913_940 <= hexes[k].r <= 357_913_940
}

/// Every hex's corners fit in 32-bit coordinates.
pub open spec fn corners_fit(hexes: Seq<HexInfo>) -> bool {
    forall|k: int|
        0 <= k < hexes.len() ==> -715_827_882 <= #[trigger] hexes[k].q <= 715_827_881
            && -715_827_882 <= hexes[k].r <= 715_827_881
}

/// `v` is a corner of some hex of the board.
pub open spec fn on_board(hexes: Seq<HexInfo>, v: (int, int)) -> bool {
    exists|h: int, i: int| 0 <= h < hexes.len() && 0 <= i < 6 && #[trigger] corner(hexes[h], i) == v
}

/// `e` names a side of some hex of the board.
pub open spec fn is_edge(hexes: Seq<HexInfo>, e: (int, int)) -> bool {
    exists|h: int, i: int| 0 <= h < hexes.len() && 0 <= i < 6 && #[trigger] side_key(hexes[h], i) == e
}

/// The edge named `e` ends at corner `v`.
pub open spec fn edge_touches(hexes: Seq<HexInfo>, e: (int, int), v: (int, int)) -> bool {
    exists|h: int, i: int|
        0 <= h < hexes.len() && 0 <= i < 6 && #[trigger] side_key(hexes[h], i) == e && (corner(
            hexes[h],
            i,
        ) == v || corner(hexes[h], next(i)) == v)
}

/// Corners `v` and `w` are the two ends of one side of the board.
pub open spec fn adjacent(hexes: Seq<HexInfo>, v: (int, int), w: (int, int)) -> bool {
    exists|h: int, i: int|
        0 <= h < hexes.len() && 0 <= i < 6 && ((#[trigger] corner(hexes[h], i) == v && corner(
            hexes[h],
            next(i),
        ) == w) || (corner(hexes[h], i) == w && corner(hexes[h], next(i)) == v))
}

/// Some piece in `bs` stands at `v`.
pub open spec fn occupied(bs: Seq<BuildingInfo>, v: (int, int)) -> bool {
    exists|k: int| 0 <= k < bs.len() && #[trigger] spot(bs[k]) == v
}

/// Some piece of `me` in `bs` stands at `v`.
pub open spec fn owned(bs: Seq<BuildingInfo>, me: PlayerId, v: (int, int)) -> bool {
    exists|k: int| 0 <= k < bs.len() && #[trigger] spot(bs[k]) == v && bs[k].player_id == me
}

/// One of `me`'s roads ends at corner `v`.
pub open spec fn road_reaches(hexes: Seq<HexInfo>, roads: Seq<BuildingInfo>, me: PlayerId, v: (int, int)) -> bool {
    exists|k: int|
        0 <= k < roads.len() && roads[k].player_id == me && #[trigger] edge_touches(
            hexes,
            spot(roads[k]),
            v,
        )
}

/// Where `me` may put a settlement: a corner of the board, empty, with no
/// building on any neighbouring corner, and - outside initial placement -
/// at the end of one of their roads.
pub open spec fn settlement_allowed(
    hexes: Seq<HexInfo>,
    settlements: Seq<BuildingInfo>,
    cities: Seq<BuildingInfo>,
    roads: Seq<BuildingInfo>,
    me: PlayerId,
    initial: bool,
    v: (int, int),
) -> bool {
    &&& on_board(hexes, v)
    &&& !occupied(settlements, v)
    &&& !occupied(cities, v)
    &&& forall|w: (int, int)|
        #[trigger] adjacent(hexes, v, w) ==> !occupied(settlements, w) && !occupied(cities, w)
    &&& initial || road_reaches(hexes, roads, me, v)
}

/// Where `me` may put a road: a side of the board with no road on it that
/// touches `must_touch` when that is given, and otherwise ends at one of
/// their buildings or roads.
pub open spec fn road_allowed(
    hexes: Seq<HexInfo>,
    settlements: Seq<BuildingInfo>,
    cities: Seq<BuildingInfo>,
    roads: Seq<BuildingInfo>,
    me: PlayerId,
    must_touch: Option<(i32, i32)>,
    e: (int, int),
) -> bool {
    &&& is_edge(hexes, e)
    &&& !occupied(roads, e)
    &&& match must_touch {
        Some(v) => edge_touches(hexes, e, pos(v)),
        None => exists|w: (int, int)|
            #[trigger] edge_touches(hexes, e, w) && (owned(settlements, me, w) || owned(
                cities,
                me,
                w,
            ) || road_reaches(hexes, roads, me, w)),
    }
}

/// One edge of the board: its two corners and its name.
pub type Edge = ((i32, i32), (i32, i32), (i32, i32));

/// Side `(h, i)` comes after side `(h2, i2)` in board order.
pub open spec fn later(h: int, i: int, h2: int, i2: int) -> bool {
    h > h2 || (h == h2 && i > i2)
}

/// `e` is side `i` of hex `h`, exactly as the board lists it.
pub open spec fn is_side(hexes: Seq<HexInfo>, e: Edge, h: int, i: int) -> bool {
    &&& 0 <= h < hexes.len()
    &&& 0 <= i < 6
    &&& pos(e.0) == corner(hexes[h], i)
    &&& pos(e.1) == corner(hexes[h], next(i))
    &&& pos(e.2) == side_key(hexes[h], i)
}

/// `e` is a side of the board and no later side has the same name.
pub open spec fn last_side(hexes: Seq<HexInfo>, e: Edge) -> bool {
    exists|h: int, i: int|
        #[trigger] is_side(hexes, e, h, i) && forall|h2: int, i2: int|
            0 <= h2 < hexes.len() && 0 <= i2 < 6 && #[trigger] later(h2, i2, h, i)
                ==> side_key(hexes[h2], i2) != pos(e.2)
}

/// The edge list of a board: one entry per edge name, each entry being the
/// last side of the board (in hex order, then corner order) with that name.
pub open spec fn edges_of(hexes: Seq<HexInfo>, edges: Seq<Edge>) -> bool {
    &&& forall|a: int, b: int|
        0 <= a < b < edges.len() ==> #[trigger] edges[a].2 != #[trigger] edges[b].2
    &&& forall|k: int| 0 <= k < edges.len() ==> #[trigger] last_side(hexes, edges[k])
    &&& forall|h: int, i: int|
        0 <= h < hexes.len() && 0 <= i < 6 ==> edge_named(edges, #[trigger] side_key(hexes[h], i))
}

/// Some entry of the edge list is named `key`.
pub open spec fn edge_named(edges: Seq<Edge>, key: (int, int)) -> bool {
    exists|k: int| 0 <= k < edges.len() && #[trigger] pos(edges[k].2) == key
}

/// Two sides with the same name are the same edge of the board: they join
/// the same two corners, in one order or the other.
pub proof fn lemma_same_key_same_edge(a: HexInfo, i: int, b: HexInfo, j: int)
    requires
        0 <= i < 6,
        0 <= j < 6,
        side_key(a, i) == side_key(b, j),
    ensures
        (corner(a, i) == corner(b, j) && corner(a, next(i)) == corner(b, next(j))) || (corner(
            a,
            i,
        ) == corner(b, next(j)) && corner(a, next(i)) == corner(b, j)),
{
}

/// The six corners of a hex, in the server's coordinates.
pub fn hex_vertices(q: i32, r: i32) -> (v: [(i32, i32); 6])
    requires
        -715_827_882 <= q <= 715_827_881,
        -715_827_882 <= r <= 715_827_881,
    ensures
        forall|i: int|
            0 <= i < 6 ==> #[trigger] pos(v@[i]) == corner(HexInfo { q, r, resource: crate::rules::ResourceType::Desert, number: 0 }, i),
{
    let bq = q * 3;
    let br = r * 3;
    [(bq + 1, br + 1), (bq - 1, br + 2), (bq - 2, br + 1), (bq - 1, br - 1), (bq + 1, br - 2), (bq + 2, br - 1)]
}

/// The six corners of a hex, as a list.
pub fn get_hex_vertices(q: i32, r: i32) -> (v: Vec<(i32, i32)>)
    requires
        -715_827_882 <= q <= 715_827_881,
        -715_827_882 <= r <= 715_827_881,
    ensures
        v@.len() == 6,
        forall|i: int|
            0 <= i < 6 ==> #[trigger] pos(v@[i]) == corner(HexInfo { q, r, resource: crate::rules::ResourceType::Desert, number: 0 }, i),
{
    let c = hex_vertices(q, r);
    let mut v = Vec::new();
    let mut i: usize = 0;
    while i < 6
        invariant
            i <= 6,
            v@.len() == i,
            forall|k: int| 0 <= k < i ==> v@[k] == c@[k],
        decreases 6 - i,
    {
        v.push(c[i]);
        i = i + 1;
    }
    v
}

/// The name of the edge between two corners: their sum divided by three,
/// rounding toward zero.
pub fn edge_key(v1: (i32, i32), v2: (i32, i32)) -> (e: (i32, i32))
    requires
        i32::MIN <= v1.0 + v2.0 <= i32::MAX,
        i32::MIN <= v1.1 + v2.1 <= i32::MAX,
    ensures
        pos(e) == (div3(v1.0 + v2.0), div3(v1.1 + v2.1)),
{
    let x: i64 = v1.0 as i64 + v2.0 as i64;
    let y: i64 = v1.1 as i64 + v2.1 as i64;
    let qx: i64 = if x >= 0 { x / 3 } else { -((-x) / 3) };
    let qy: i64 = if y >= 0 { y / 3 } else { -((-y) / 3) };
    (qx as i32, qy as i32)
}

/// Whether two positions are the same.
pub fn same_pos(a: (i32, i32), b: (i32, i32)) -> (r: bool)
    ensures
        r == (a == b),
{
    a.0 == b.0 && a.1 == b.1
}

/// Whether a position is in a list.
pub fn has_pos(v: &Vec<(i32, i32)>, p: (i32, i32)) -> (b: bool)
    ensures
        b == v@.contains(p),
{
    let mut i: usize = 0;
    while i < v.len()
        invariant
            i <= v@.len(),
            forall|k: int| 0 <= k < i ==> v@[k] != p,
        decreases v@.len() - i,
    {
        if same_pos(v[i], p) {
            return true;
        }
        i = i + 1;
    }
    false
}

/// Every corner of the board, each once.
pub fn calculate_all_vertices(hexes: &[HexInfo]) -> (out: Vec<(i32, i32)>)
    requires
        corners_fit(hexes@),
    ensures
        forall|a: int, b: int| 0 <= a < b < out@.len() ==> out@[a] != out@[b],
        forall|p: (i32, i32)| out@.contains(p) <==> on_board(hexes@, pos(p)),
{
    let mut out: Vec<(i32, i32)> = Vec::new();
    let mut h: usize = 0;
    while h < hexes.len()
        invariant
            h <= hexes@.len(),
            corners_fit(hexes@),
            forall|a: int, b: int| 0 <= a < b < out@.len() ==> out@[a] != out@[b],
            forall|p: (i32, i32)|
                out@.contains(p) <==> exists|h2: int, i: int|
                    0 <= h2 < h && 0 <= i < 6 && #[trigger] corner(hexes@[h2], i) == pos(p),
        decreases hexes@.len() - h,
    {
        let hex = hexes[h];
        assert(-715_827_882 <= hexes@[h as int].q <= 715_827_881);
        let corners = hex_vertices(hex.q, hex.r);
        let mut i: usize = 0;
        while i < 6
            invariant
                h < hexes@.len(),
                i <= 6,
                hex == hexes@[h as int],
                forall|k: int| 0 <= k < 6 ==> #[trigger] pos(corners@[k]) == corner(hex, k),
                forall|a: int, b: int| 0 <= a < b < out@.len() ==> out@[a] != out@[b],
                forall|p: (i32, i32)|
                    out@.contains(p) <==> (exists|h2: int, j: int|
                        0 <= h2 < h && 0 <= j < 6 && #[trigger] corner(hexes@[h2], j) == pos(p))
                        || exists|j: int| 0 <= j < i && #[trigger] corner(hex, j) == pos(p),
            decreases 6 - i,
        {
            let c = corners[i];
            assert(pos(corners@[i as int]) == corner(hex, i as int));
            let ghost before = out@;
            if !has_pos(&out, c) {
                out.push(c);
            }
            proof {
                assert forall|p: (i32, i32)| out@.contains(p) <==> (before.contains(p) || p == c) by {
                    if out@.len() > before.len() {
                        assert(out@ == before.push(c));
                        if out@.contains(p) {
                            let k = choose|k: int| 0 <= k < out@.len() && out@[k] == p;
                            if k < before.len() {
                                assert(before[k] == p);
                            }
                        }
                        if before.contains(p) {
                            let k = choose|k: int| 0 <= k < before.len() && before[k] == p;
                            assert(out@[k] == p);
                        }
                        if p == c {
                            assert(out@[before.len() as int] == c);
                        }
                    }
                }
                assert forall|p: (i32, i32)|
                    out@.contains(p) <==> (exists|h2: int, j: int|
                        0 <= h2 < h && 0 <= j < 6 && #[trigger] corner(hexes@[h2], j) == pos(p))
                        || exists|j: int| 0 <= j < i + 1 && #[trigger] corner(hex, j) == pos(p) by {
                    if p == c {
                        assert(corner(hex, i as int) == pos(p));
                    }
                    if before.contains(p) {
                        assert(before.contains(p) <==> (exists|h2: int, j: int|
                            0 <= h2 < h && 0 <= j < 6 && #[trigger] corner(hexes@[h2], j) == pos(p))
                            || exists|j: int| 0 <= j < i && #[trigger] corner(hex, j) == pos(p));
                    }
                    if exists|j: int| 0 <= j < i + 1 && #[trigger] corner(hex, j) == pos(p) {
                        let j = choose|j: int| 0 <= j < i + 1 && #[trigger] corner(hex, j) == pos(p);
                        if j == i {
                            assert(pos(p) == pos(c));
                            assert(p == c);
                        } else {
                            assert(before.contains(p));
                        }
                    }
                }
            }
            i = i + 1;
        }
        proof {
            assert forall|p: (i32, i32)|
                out@.contains(p) <==> exists|h2: int, i: int|
                    0 <= h2 < h + 1 && 0 <= i < 6 && #[trigger] corner(hexes@[h2], i) == pos(p) by {
                if exists|h2: int, i: int|
                    0 <= h2 < h + 1 && 0 <= i < 6 && #[trigger] corner(hexes@[h2], i) == pos(p) {
                    let (h2, j) = choose|h2: int, i: int|
                        0 <= h2 < h + 1 && 0 <= i < 6 && #[trigger] corner(hexes@[h2], i) == pos(p);
                    if h2 == h {
                        assert(corner(hex, j) == pos(p));
                    }
                }
            }
        }
        h = h + 1;
    }
    out
}


/// Side `(h2, i2)` comes before the cursor `(h, i)` in board order.
pub open spec fn before(h2: int, i2: int, h: int, i: int) -> bool {
    h2 < h || (h2 == h && i2 < i)
}

/// `e` is a side among those before the cursor `(h, i)`, and no later side
/// before the cursor has the same name.
pub open spec fn last_side_before(hexes: Seq<HexInfo>, e: Edge, h: int, i: int) -> bool {
    exists|h2: int, i2: int|
        before(h2, i2, h, i) && #[trigger] is_side(hexes, e, h2, i2) && forall|h3: int, i3: int|
            0 <= h3 < hexes.len() && 0 <= i3 < 6 && before(h3, i3, h, i) && #[trigger] later(
                h3,
                i3,
                h2,
                i2,
            ) ==> side_key(hexes[h3], i3) != pos(e.2)
}

/// The edge list of the sides before the cursor `(h, i)`.
pub open spec fn edges_before(hexes: Seq<HexInfo>, edges: Seq<Edge>, h: int, i: int) -> bool {
    &&& forall|a: int, b: int|
        0 <= a < b < edges.len() ==> #[trigger] edges[a].2 != #[trigger] edges[b].2
    &&& forall|k: int| 0 <= k < edges.len() ==> #[trigger] last_side_before(hexes, edges[k], h, i)
    &&& forall|h2: int, i2: int|
        0 <= h2 < hexes.len() && 0 <= i2 < 6 && before(h2, i2, h, i) ==> edge_named(
            edges,
            #[trigger] side_key(hexes[h2], i2),
        )
}

proof fn lemma_cursor_next_hex(hexes: Seq<HexInfo>, edges: Seq<Edge>, h: int)
    requires
        edges_before(hexes, edges, h, 6),
    ensures
        edges_before(hexes, edges, h + 1, 0),
{
    assert forall|k: int| 0 <= k < edges.len() implies #[trigger] last_side_before(
        hexes,
        edges[k],
        h + 1,
        0,
    ) by {
        assert(last_side_before(hexes, edges[k], h, 6));
        let (h2, i2) = choose|h2: int, i2: int|
            before(h2, i2, h, 6) && #[trigger] is_side(hexes, edges[k], h2, i2) && forall|
                h3: int,
                i3: int,
            |
                0 <= h3 < hexes.len() && 0 <= i3 < 6 && before(h3, i3, h, 6) && #[trigger] later(
                    h3,
                    i3,
                    h2,
                    i2,
                ) ==> side_key(hexes[h3], i3) != pos(edges[k].2);
        assert(before(h2, i2, h + 1, 0));
        assert forall|h3: int, i3: int|
            0 <= h3 < hexes.len() && 0 <= i3 < 6 && before(h3, i3, h + 1, 0) && #[trigger] later(
                h3,
                i3,
                h2,
                i2,
            ) implies side_key(hexes[h3], i3) != pos(edges[k].2) by {
            assert(before(h3, i3, h, 6));
        }
    }
    assert forall|h2: int, i2: int|
        0 <= h2 < hexes.len() && 0 <= i2 < 6 && before(h2, i2, h + 1, 0) implies edge_named(
        edges,
        #[trigger] side_key(hexes[h2], i2),
    ) by {
        assert(before(h2, i2, h, 6));
    }
}

proof fn lemma_edges_complete(hexes: Seq<HexInfo>, edges: Seq<Edge>)
    requires
        edges_before(hexes, edges, hexes.len() as int, 0),
    ensures
        edges_of(hexes, edges),
{
    let n = hexes.len() as int;
    assert forall|k: int| 0 <= k < edges.len() implies #[trigger] last_side(hexes, edges[k]) by {
        assert(last_side_before(hexes, edges[k], n, 0));
        let (h2, i2) = choose|h2: int, i2: int|
            before(h2, i2, n, 0) && #[trigger] is_side(hexes, edges[k], h2, i2) && forall|
                h3: int,
                i3: int,
            |
                0 <= h3 < hexes.len() && 0 <= i3 < 6 && before(h3, i3, n, 0) && #[trigger] later(
                    h3,
                    i3,
                    h2,
                    i2,
                ) ==> side_key(hexes[h3], i3) != pos(edges[k].2);
        assert forall|h3: int, i3: int|
            0 <= h3 < hexes.len() && 0 <= i3 < 6 && #[trigger] later(h3, i3, h2, i2) implies side_key(
            hexes[h3],
            i3,
        ) != pos(edges[k].2) by {
            assert(before(h3, i3, n, 0));
        }
    }
    assert forall|h: int, i: int| 0 <= h < hexes.len() && 0 <= i < 6 implies edge_named(
        edges,
        #[trigger] side_key(hexes[h], i),
    ) by {
        assert(before(h, i, n, 0));
    }
}

/// The index of the entry named `e`, if there is one.
fn find_edge(edges: &Vec<Edge>, e: (i32, i32)) -> (r: Option<usize>)
    ensures
        r matches Some(k) ==> k < edges@.len() && edges@[k as int].2 == e,
        r is None ==> forall|k: int| 0 <= k < edges@.len() ==> edges@[k].2 != e,
{
    let mut k: usize = 0;
    while k < edges.len()
        invariant
            k <= edges@.len(),
            forall|j: int| 0 <= j < k ==> edges@[j].2 != e,
        decreases edges@.len() - k,
    {
        if same_pos(edges[k].2, e) {
            return Some(k);
        }
        k = k + 1;
    }
    None
}

/// Every edge of the board, each once, with the two corners it joins.
pub fn calculate_all_edges(hexes: &[HexInfo]) -> (edges: Vec<Edge>)
    requires
        coords_fit(hexes@),
    ensures
        edges_of(hexes@, edges@),
{
    let mut edges: Vec<Edge> = Vec::new();
    let mut h: usize = 0;
    while h < hexes.len()
        invariant
            h <= hexes@.len(),
            coords_fit(hexes@),
            edges_before(hexes@, edges@, h as int, 0),
        decreases hexes@.len() - h,
    {
        let hex = hexes[h];
        assert(-357_913_940 <= hexes@[h as int].q <= 357_913_940);
        let corners = hex_vertices(hex.q, hex.r);
        let mut i: usize = 0;
        while i < 6
            invariant
                h < hexes@.len(),
                i <= 6,
                hex == hexes@[h as int],
                -357_913_940 <= hex.q <= 357_913_940,
                -357_913_940 <= hex.r <= 357_913_940,
                forall|k: int| 0 <= k < 6 ==> #[trigger] pos(corners@[k]) == corner(hex, k),
                edges_before(hexes@, edges@, h as int, i as int),
            decreases 6 - i,
        {
            let j: usize = if i == 5 { 0 } else { i + 1 };
            let v1 = corners[i];
            let v2 = corners[j];
            assert(pos(corners@[i as int]) == corner(hex, i as int));
            assert(pos(corners@[j as int]) == corner(hex, j as int));
            let key = edge_key(v1, v2);
            assert(pos(key) == side_key(hex, i as int));
            let entry: Edge = (v1, v2, key);
            assert(is_side(hexes@, entry, h as int, i as int));
            let ghost old_edges = edges@;
            match find_edge(&edges, key) {
                Some(k) => {
                    edges.set(k, entry);
                    proof {
                        lemma_replace_step(hexes@, old_edges, edges@, k as int, entry, h as int, i as int);
                    }
                },
                None => {
                    edges.push(entry);
                    proof {
                        lemma_push_step(hexes@, old_edges, edges@, entry, h as int, i as int);
                    }
                },
            }
            i = i + 1;
        }
        proof {
            lemma_cursor_next_hex(hexes@, edges@, h as int);
        }
        h = h + 1;
    }
    proof {
        lemma_edges_complete(hexes@, edges@);
    }
    edges
}

proof fn lemma_replace_step(
    hexes: Seq<HexInfo>,
    old_edges: Seq<Edge>,
    edges: Seq<Edge>,
    k: int,
    entry: Edge,
    h: int,
    i: int,
)
    requires
        0 <= h < hexes.len(),
        0 <= i < 6,
        edges_before(hexes, old_edges, h, i),
        0 <= k < old_edges.len(),
        old_edges[k].2 == entry.2,
        edges == old_edges.update(k, entry),
        is_side(hexes, entry, h, i),
    ensures
        edges_before(hexes, edges, h, i + 1),
{
    assert forall|a: int, b: int| 0 <= a < b < edges.len() implies #[trigger] edges[a].2
        != #[trigger] edges[b].2 by {
        assert(old_edges[a].2 != old_edges[b].2);
    }
    assert forall|m: int| 0 <= m < edges.len() implies #[trigger] last_side_before(
        hexes,
        edges[m],
        h,
        i + 1,
    ) by {
        if m == k {
            assert(before(h, i, h, i + 1));
            assert(is_side(hexes, edges[m], h, i));
            assert forall|h3: int, i3: int|
                0 <= h3 < hexes.len() && 0 <= i3 < 6 && before(h3, i3, h, i + 1) && #[trigger] later(
                    h3,
                    i3,
                    h,
                    i,
                ) implies side_key(hexes[h3], i3) != pos(edges[m].2) by {
            }
        } else {
            assert(edges[m] == old_edges[m]);
            assert(last_side_before(hexes, old_edges[m], h, i));
            let (h2, i2) = choose|h2: int, i2: int|
                before(h2, i2, h, i) && #[trigger] is_side(hexes, old_edges[m], h2, i2) && forall|
                    h3: int,
                    i3: int,
                |
                    0 <= h3 < hexes.len() && 0 <= i3 < 6 && before(h3, i3, h, i) && #[trigger] later(
                        h3,
                        i3,
                        h2,
                        i2,
                    ) ==> side_key(hexes[h3], i3) != pos(old_edges[m].2);
            assert(before(h2, i2, h, i + 1));
            assert forall|h3: int, i3: int|
                0 <= h3 < hexes.len() && 0 <= i3 < 6 && before(h3, i3, h, i + 1) && #[trigger] later(
                    h3,
                    i3,
                    h2,
                    i2,
                ) implies side_key(hexes[h3], i3) != pos(edges[m].2) by {
                if h3 == h && i3 == i {
                    if m < k {
                        assert(old_edges[m].2 != old_edges[k].2);
                    } else {
                        assert(old_edges[k].2 != old_edges[m].2);
                    }
                } else {
                    assert(before(h3, i3, h, i));
                }
            }
        }
    }
    assert forall|h2: int, i2: int|
        0 <= h2 < hexes.len() && 0 <= i2 < 6 && before(h2, i2, h, i + 1) implies edge_named(
        edges,
        #[trigger] side_key(hexes[h2], i2),
    ) by {
        if h2 == h && i2 == i {
            assert(pos(edges[k].2) == side_key(hexes[h2], i2));
        } else {
            assert(before(h2, i2, h, i));
            assert(edge_named(old_edges, side_key(hexes[h2], i2)));
            let m = choose|m: int|
                0 <= m < old_edges.len() && #[trigger] pos(old_edges[m].2) == side_key(hexes[h2], i2);
            assert(edges[m].2 == old_edges[m].2);
        }
    }
}

proof fn lemma_push_step(
    hexes: Seq<HexInfo>,
    old_edges: Seq<Edge>,
    edges: Seq<Edge>,
    entry: Edge,
    h: int,
    i: int,
)
    requires
        0 <= h < hexes.len(),
        0 <= i < 6,
        edges_before(hexes, old_edges, h, i),
        forall|k: int| 0 <= k < old_edges.len() ==> old_edges[k].2 != entry.2,
        edges == old_edges.push(entry),
        is_side(hexes, entry, h, i),
    ensures
        edges_before(hexes, edges, h, i + 1),
{
    let n = old_edges.len() as int;
    assert forall|a: int, b: int| 0 <= a < b < edges.len() implies #[trigger] edges[a].2
        != #[trigger] edges[b].2 by {
        if b < n {
            assert(old_edges[a].2 != old_edges[b].2);
        } else {
            assert(old_edges[a].2 != entry.2);
        }
    }
    assert forall|m: int| 0 <= m < edges.len() implies #[trigger] last_side_before(
        hexes,
        edges[m],
        h,
        i + 1,
    ) by {
        if m == n {
            assert(before(h, i, h, i + 1));
            assert(is_side(hexes, edges[m], h, i));
            assert forall|h3: int, i3: int|
                0 <= h3 < hexes.len() && 0 <= i3 < 6 && before(h3, i3, h, i + 1) && #[trigger] later(
                    h3,
                    i3,
                    h,
                    i,
                ) implies side_key(hexes[h3], i3) != pos(edges[m].2) by {
            }
        } else {
            assert(edges[m] == old_edges[m]);
            assert(last_side_before(hexes, old_edges[m], h, i));
            let (h2, i2) = choose|h2: int, i2: int|
                before(h2, i2, h, i) && #[trigger] is_side(hexes, old_edges[m], h2, i2) && forall|
                    h3: int,
                    i3: int,
                |
                    0 <= h3 < hexes.len() && 0 <= i3 < 6 && before(h3, i3, h, i) && #[trigger] later(
                        h3,
                        i3,
                        h2,
                        i2,
                    ) ==> side_key(hexes[h3], i3) != pos(old_edges[m].2);
            assert(before(h2, i2, h, i + 1));
            assert forall|h3: int, i3: int|
                0 <= h3 < hexes.len() && 0 <= i3 < 6 && before(h3, i3, h, i + 1) && #[trigger] later(
                    h3,
                    i3,
                    h2,
                    i2,
                ) implies side_key(hexes[h3], i3) != pos(edges[m].2) by {
                if h3 == h && i3 == i {
                    assert(old_edges[m].2 != entry.2);
                } else {
                    assert(before(h3, i3, h, i));
                }
            }
        }
    }
    assert forall|h2: int, i2: int|
        0 <= h2 < hexes.len() && 0 <= i2 < 6 && before(h2, i2, h, i + 1) implies edge_named(
        edges,
        #[trigger] side_key(hexes[h2], i2),
    ) by {
        if h2 == h && i2 == i {
            assert(pos(edges[n].2) == side_key(hexes[h2], i2));
        } else {
            assert(before(h2, i2, h, i));
            assert(edge_named(old_edges, side_key(hexes[h2], i2)));
            let m = choose|m: int|
                0 <= m < old_edges.len() && #[trigger] pos(old_edges[m].2) == side_key(hexes[h2], i2);
            assert(edges[m].2 == old_edges[m].2);
        }
    }
}


/// An entry of the edge list joins the same two corners as every side of the
/// board with its name.
pub proof fn lemma_entry_touches(hexes: Seq<HexInfo>, edges: Seq<Edge>, k: int, v: (int, int))
    requires
        edges_of(hexes, edges),
        0 <= k < edges.len(),
    ensures
        edge_touches(hexes, pos(edges[k].2), v) == (pos(edges[k].0) == v || pos(edges[k].1) == v),
{
    assert(last_side(hexes, edges[k]));
    let (h2, i2) = choose|h2: int, i2: int|
        #[trigger] is_side(hexes, edges[k], h2, i2) && forall|h3: int, i3: int|
            0 <= h3 < hexes.len() && 0 <= i3 < 6 && #[trigger] later(h3, i3, h2, i2)
                ==> side_key(hexes[h3], i3) != pos(edges[k].2);
    if edge_touches(hexes, pos(edges[k].2), v) {
        let (h, i) = choose|h: int, i: int|
            0 <= h < hexes.len() && 0 <= i < 6 && #[trigger] side_key(hexes[h], i) == pos(
                edges[k].2,
            ) && (corner(hexes[h], i) == v || corner(hexes[h], next(i)) == v);
        lemma_same_key_same_edge(hexes[h2], i2, hexes[h], i);
    }
    if pos(edges[k].0) == v || pos(edges[k].1) == v {
        assert(side_key(hexes[h2], i2) == pos(edges[k].2));
    }
}

/// The entry of the edge list named like a side of the board.
proof fn lemma_entry_for_side(hexes: Seq<HexInfo>, edges: Seq<Edge>, h: int, i: int) -> (k: int)
    requires
        edges_of(hexes, edges),
        0 <= h < hexes.len(),
        0 <= i < 6,
    ensures
        0 <= k < edges.len(),
        pos(edges[k].2) == side_key(hexes[h], i),
        (pos(edges[k].0) == corner(hexes[h], i) && pos(edges[k].1) == corner(hexes[h], next(i)))
            || (pos(edges[k].0) == corner(hexes[h], next(i)) && pos(edges[k].1) == corner(
            hexes[h],
            i,
        )),
{
    assert(edge_named(edges, side_key(hexes[h], i)));
    let k = choose|k: int| 0 <= k < edges.len() && #[trigger] pos(edges[k].2) == side_key(hexes[h], i);
    assert(last_side(hexes, edges[k]));
    let (h2, i2) = choose|h2: int, i2: int|
        #[trigger] is_side(hexes, edges[k], h2, i2) && forall|h3: int, i3: int|
            0 <= h3 < hexes.len() && 0 <= i3 < 6 && #[trigger] later(h3, i3, h2, i2)
                ==> side_key(hexes[h3], i3) != pos(edges[k].2);
    lemma_same_key_same_edge(hexes[h2], i2, hexes[h], i);
    k
}

/// Some entry of the edge list joins `v` to a corner where a building stands.
pub open spec fn entry_blocked(
    edges: Seq<Edge>,
    settlements: Seq<BuildingInfo>,
    cities: Seq<BuildingInfo>,
    v: (int, int),
) -> bool {
    exists|k: int|
        0 <= k < edges.len() && ((pos(#[trigger] edges[k].0) == v && (occupied(
            settlements,
            pos(edges[k].1),
        ) || occupied(cities, pos(edges[k].1)))) || (pos(edges[k].1) == v && (occupied(
            settlements,
            pos(edges[k].0),
        ) || occupied(cities, pos(edges[k].0)))))
}

/// Read off the edge list, a corner is blocked exactly when a neighbouring
/// corner is built on.
proof fn lemma_blocked(
    hexes: Seq<HexInfo>,
    edges: Seq<Edge>,
    settlements: Seq<BuildingInfo>,
    cities: Seq<BuildingInfo>,
    v: (int, int),
)
    requires
        edges_of(hexes, edges),
    ensures
        entry_blocked(edges, settlements, cities, v) == exists|w: (int, int)|
            #[trigger] adjacent(hexes, v, w) && (occupied(settlements, w) || occupied(cities, w)),
{
    if entry_blocked(edges, settlements, cities, v) {
        let k = choose|k: int|
            0 <= k < edges.len() && ((pos(#[trigger] edges[k].0) == v && (occupied(
                settlements,
                pos(edges[k].1),
            ) || occupied(cities, pos(edges[k].1)))) || (pos(edges[k].1) == v && (occupied(
                settlements,
                pos(edges[k].0),
            ) || occupied(cities, pos(edges[k].0)))));
        assert(last_side(hexes, edges[k]));
        let (h2, i2) = choose|h2: int, i2: int|
            #[trigger] is_side(hexes, edges[k], h2, i2) && forall|h3: int, i3: int|
                0 <= h3 < hexes.len() && 0 <= i3 < 6 && #[trigger] later(h3, i3, h2, i2)
                    ==> side_key(hexes[h3], i3) != pos(edges[k].2);
        if pos(edges[k].0) == v && (occupied(settlements, pos(edges[k].1)) || occupied(
            cities,
            pos(edges[k].1),
        )) {
            assert(adjacent(hexes, v, pos(edges[k].1)));
        } else {
            assert(adjacent(hexes, v, pos(edges[k].0)));
        }
    }
    if exists|w: (int, int)|
        #[trigger] adjacent(hexes, v, w) && (occupied(settlements, w) || occupied(cities, w)) {
        let w = choose|w: (int, int)|
            #[trigger] adjacent(hexes, v, w) && (occupied(settlements, w) || occupied(cities, w));
        let (h, i) = choose|h: int, i: int|
            0 <= h < hexes.len() && 0 <= i < 6 && ((#[trigger] corner(hexes[h], i) == v && corner(
                hexes[h],
                next(i),
            ) == w) || (corner(hexes[h], i) == w && corner(hexes[h], next(i)) == v));
        let k = lemma_entry_for_side(hexes, edges, h, i);
        assert(pos(edges[k].0) == v || pos(edges[k].1) == v);
        assert(edges[k].0 == edges[k].0);
    }
}

/// Some entry of the edge list carries one of `me`'s roads and ends at `v`.
pub open spec fn entry_reach(edges: Seq<Edge>, roads: Seq<BuildingInfo>, me: PlayerId, v: (int, int)) -> bool {
    exists|k: int|
        0 <= k < edges.len() && owned(roads, me, pos(#[trigger] edges[k].2)) && (pos(edges[k].0)
            == v || pos(edges[k].1) == v)
}

/// Read off the edge list, `me`'s roads reach exactly the corners the rule says.
proof fn lemma_reach(
    hexes: Seq<HexInfo>,
    edges: Seq<Edge>,
    roads: Seq<BuildingInfo>,
    me: PlayerId,
    v: (int, int),
)
    requires
        edges_of(hexes, edges),
    ensures
        entry_reach(edges, roads, me, v) == road_reaches(hexes, roads, me, v),
{
    if entry_reach(edges, roads, me, v) {
        let k = choose|k: int|
            0 <= k < edges.len() && owned(roads, me, pos(#[trigger] edges[k].2)) && (pos(
                edges[k].0,
            ) == v || pos(edges[k].1) == v);
        lemma_entry_touches(hexes, edges, k, v);
        let r = choose|r: int|
            0 <= r < roads.len() && #[trigger] spot(roads[r]) == pos(edges[k].2)
                && roads[r].player_id == me;
        assert(edge_touches(hexes, spot(roads[r]), v));
    }
    if road_reaches(hexes, roads, me, v) {
        let r = choose|r: int|
            0 <= r < roads.len() && roads[r].player_id == me && #[trigger] edge_touches(
                hexes,
                spot(roads[r]),
                v,
            );
        let (h, i) = choose|h: int, i: int|
            0 <= h < hexes.len() && 0 <= i < 6 && #[trigger] side_key(hexes[h], i) == spot(roads[r])
                && (corner(hexes[h], i) == v || corner(hexes[h], next(i)) == v);
        let k = lemma_entry_for_side(hexes, edges, h, i);
        assert(owned(roads, me, pos(edges[k].2)));
    }
}

/// Whether a piece in `bs` stands at `p`.
fn occupied_at(bs: &[BuildingInfo], p: (i32, i32)) -> (b: bool)
    ensures
        b == occupied(bs@, pos(p)),
{
    let mut k: usize = 0;
    while k < bs.len()
        invariant
            k <= bs@.len(),
            forall|j: int| 0 <= j < k ==> spot(bs@[j]) != pos(p),
        decreases bs@.len() - k,
    {
        if bs[k].x == p.0 && bs[k].y == p.1 {
            assert(spot(bs@[k as int]) == pos(p));
            return true;
        }
        k = k + 1;
    }
    false
}

/// Whether a piece of `me` in `bs` stands at `p`.
fn owned_at(bs: &[BuildingInfo], me: PlayerId, p: (i32, i32)) -> (b: bool)
    ensures
        b == owned(bs@, me, pos(p)),
{
    let mut k: usize = 0;
    while k < bs.len()
        invariant
            k <= bs@.len(),
            forall|j: int| 0 <= j < k ==> !(spot(bs@[j]) == pos(p) && bs@[j].player_id == me),
        decreases bs@.len() - k,
    {
        if bs[k].x == p.0 && bs[k].y == p.1 && bs[k].player_id == me {
            assert(spot(bs@[k as int]) == pos(p));
            return true;
        }
        k = k + 1;
    }
    false
}

/// The corners at the ends of `me`'s roads, read off the edge list.
fn road_ends(edges: &Vec<Edge>, roads: &[BuildingInfo], me: PlayerId) -> (out: Vec<(i32, i32)>)
    ensures
        forall|p: (i32, i32)| out@.contains(p) <==> entry_reach(edges@, roads@, me, pos(p)),
{
    let mut out: Vec<(i32, i32)> = Vec::new();
    let mut k: usize = 0;
    while k < edges.len()
        invariant
            k <= edges@.len(),
            forall|p: (i32, i32)|
                out@.contains(p) <==> exists|j: int|
                    0 <= j < k && owned(roads@, me, pos(#[trigger] edges@[j].2)) && (pos(
                        edges@[j].0,
                    ) == pos(p) || pos(edges@[j].1) == pos(p)),
        decreases edges@.len() - k,
    {
        let e = edges[k];
        let ghost before_out = out@;
        if owned_at(roads, me, e.2) {
            out.push(e.0);
            out.push(e.1);
        }
        proof {
            assert forall|p: (i32, i32)|
                out@.contains(p) <==> exists|j: int|
                    0 <= j < k + 1 && owned(roads@, me, pos(#[trigger] edges@[j].2)) && (pos(
                        edges@[j].0,
                    ) == pos(p) || pos(edges@[j].1) == pos(p)) by {
                if owned(roads@, me, pos(e.2)) {
                    assert(out@ == before_out.push(e.0).push(e.1));
                    if out@.contains(p) {
                        let i = choose|i: int| 0 <= i < out@.len() && out@[i] == p;
                        if i < before_out.len() {
                            assert(before_out[i] == p);
                            assert(before_out.contains(p));
                        }
                    }
                    if before_out.contains(p) {
                        let i = choose|i: int| 0 <= i < before_out.len() && before_out[i] == p;
                        assert(out@[i] == p);
                    }
                    if pos(e.0) == pos(p) {
                        assert(out@[before_out.len() as int] == p);
                    }
                    if pos(e.1) == pos(p) {
                        assert(out@[before_out.len() as int + 1] == p);
                    }
                }
                if exists|j: int|
                    0 <= j < k + 1 && owned(roads@, me, pos(#[trigger] edges@[j].2)) && (pos(
                        edges@[j].0,
                    ) == pos(p) || pos(edges@[j].1) == pos(p)) {
                    let j = choose|j: int|
                        0 <= j < k + 1 && owned(roads@, me, pos(#[trigger] edges@[j].2)) && (pos(
                            edges@[j].0,
                        ) == pos(p) || pos(edges@[j].1) == pos(p));
                    if j < k {
                        assert(before_out.contains(p));
                    }
                }
            }
        }
        k = k + 1;
    }
    out
}

/// Whether some entry of the edge list joins `v` to a built-on corner.
fn blocked_at(
    edges: &Vec<Edge>,
    settlements: &[BuildingInfo],
    cities: &[BuildingInfo],
    v: (i32, i32),
) -> (b: bool)
    ensures
        b == entry_blocked(edges@, settlements@, cities@, pos(v)),
{
    let mut k: usize = 0;
    while k < edges.len()
        invariant
            k <= edges@.len(),
            forall|j: int|
                0 <= j < k ==> !((pos(#[trigger] edges@[j].0) == pos(v) && (occupied(
                    settlements@,
                    pos(edges@[j].1),
                ) || occupied(cities@, pos(edges@[j].1)))) || (pos(edges@[j].1) == pos(v) && (
                occupied(settlements@, pos(edges@[j].0)) || occupied(cities@, pos(edges@[j].0))))),
        decreases edges@.len() - k,
    {
        let (a, b, _) = edges[k];
        if (same_pos(a, v) && (occupied_at(settlements, b) || occupied_at(cities, b)))
            || (same_pos(b, v) && (occupied_at(settlements, a) || occupied_at(cities, a))) {
            return true;
        }
        k = k + 1;
    }
    false
}

/// Corners where `me` may put a settlement, each once.
///
/// Mirrors the server: the space must be empty, no neighbouring corner may be
/// built on, and outside initial placement it has to touch one of `me`'s roads.
pub fn legal_settlements(
    hexes: &[HexInfo],
    settlements: &[BuildingInfo],
    cities: &[BuildingInfo],
    roads: &[BuildingInfo],
    me: PlayerId,
    initial: bool,
) -> (out: Vec<(i32, i32)>)
    requires
        coords_fit(hexes@),
    ensures
        forall|a: int, b: int| 0 <= a < b < out@.len() ==> out@[a] != out@[b],
        forall|p: (i32, i32)|
            out@.contains(p) <==> settlement_allowed(
                hexes@,
                settlements@,
                cities@,
                roads@,
                me,
                initial,
                pos(p),
            ),
{
    let edges = calculate_all_edges(hexes);
    let reach = road_ends(&edges, roads, me);
    let verts = calculate_all_vertices(hexes);
    let mut out: Vec<(i32, i32)> = Vec::new();
    let mut j: usize = 0;
    while j < verts.len()
        invariant
            j <= verts@.len(),
            edges_of(hexes@, edges@),
            forall|p: (i32, i32)| reach@.contains(p) <==> entry_reach(edges@, roads@, me, pos(p)),
            forall|a: int, b: int| 0 <= a < b < verts@.len() ==> verts@[a] != verts@[b],
            forall|p: (i32, i32)| verts@.contains(p) <==> on_board(hexes@, pos(p)),
            forall|a: int, b: int| 0 <= a < b < out@.len() ==> out@[a] != out@[b],
            forall|p: (i32, i32)|
                out@.contains(p) <==> exists|i: int|
                    0 <= i < j && #[trigger] verts@[i] == p && settlement_allowed(
                        hexes@,
                        settlements@,
                        cities@,
                        roads@,
                        me,
                        initial,
                        pos(p),
                    ),
        decreases verts@.len() - j,
    {
        let v = verts[j];
        let free = !occupied_at(settlements, v) && !occupied_at(cities, v);
        let clear = !blocked_at(&edges, settlements, cities, v);
        let near = initial || has_pos(&reach, v);
        proof {
            lemma_blocked(hexes@, edges@, settlements@, cities@, pos(v));
            lemma_reach(hexes@, edges@, roads@, me, pos(v));
            assert(verts@.contains(v));
            assert(on_board(hexes@, pos(v)));
            if settlement_allowed(hexes@, settlements@, cities@, roads@, me, initial, pos(v)) {
                if exists|w: (int, int)|
                    #[trigger] adjacent(hexes@, pos(v), w) && (occupied(settlements@, w) || occupied(
                        cities@,
                        w,
                    )) {
                    let w = choose|w: (int, int)|
                        #[trigger] adjacent(hexes@, pos(v), w) && (occupied(settlements@, w)
                            || occupied(cities@, w));
                    assert(false);
                }
            }
        }
        let ghost before_out = out@;
        if free && clear && near {
            out.push(v);
        }
        proof {
            assert(free && clear && near <==> settlement_allowed(
                hexes@,
                settlements@,
                cities@,
                roads@,
                me,
                initial,
                pos(v),
            ));
            assert forall|a: int, b: int| 0 <= a < b < out@.len() implies out@[a] != out@[b] by {
                if out@.len() > before_out.len() {
                    assert(out@ == before_out.push(v));
                    if b == before_out.len() {
                        let x = before_out[a];
                        assert(before_out.contains(x));
                        let i = choose|i: int|
                            0 <= i < j && #[trigger] verts@[i] == x && settlement_allowed(
                                hexes@,
                                settlements@,
                                cities@,
                                roads@,
                                me,
                                initial,
                                pos(x),
                            );
                        assert(verts@[i] != verts@[j as int]);
                    } else {
                        assert(before_out[a] != before_out[b]);
                    }
                }
            }
            assert forall|p: (i32, i32)|
                out@.contains(p) <==> exists|i: int|
                    0 <= i < j + 1 && #[trigger] verts@[i] == p && settlement_allowed(
                        hexes@,
                        settlements@,
                        cities@,
                        roads@,
                        me,
                        initial,
                        pos(p),
                    ) by {
                if out@.len() > before_out.len() {
                    assert(out@ == before_out.push(v));
                    if out@.contains(p) {
                        let i = choose|i: int| 0 <= i < out@.len() && out@[i] == p;
                        if i < before_out.len() {
                            assert(before_out[i] == p);
                            assert(before_out.contains(p));
                        } else {
                            assert(verts@[j as int] == p);
                        }
                    }
                    if before_out.contains(p) {
                        let i = choose|i: int| 0 <= i < before_out.len() && before_out[i] == p;
                        assert(out@[i] == p);
                    }
                    if p == v {
                        assert(out@[before_out.len() as int] == p);
                    }
                }
                if exists|i: int|
                    0 <= i < j + 1 && #[trigger] verts@[i] == p && settlement_allowed(
                        hexes@,
                        settlements@,
                        cities@,
                        roads@,
                        me,
                        initial,
                        pos(p),
                    ) {
                    let i = choose|i: int|
                        0 <= i < j + 1 && #[trigger] verts@[i] == p && settlement_allowed(
                            hexes@,
                            settlements@,
                            cities@,
                            roads@,
                            me,
                            initial,
                            pos(p),
                        );
                    if i < j {
                        assert(before_out.contains(p));
                    }
                }
            }
        }
        j = j + 1;
    }
    proof {
        assert forall|p: (i32, i32)|
            settlement_allowed(hexes@, settlements@, cities@, roads@, me, initial, pos(p)) implies out@.contains(
                p,
            ) by {
            assert(verts@.contains(p));
            let i = choose|i: int| 0 <= i < verts@.len() && verts@[i] == p;
            assert(verts@[i] == p);
        }
    }
    out
}


/// The two corners an edge joins, or `None` when no side of the board has
/// that name. Of the sides with that name, the ends are read off the last one
/// in board order.
pub fn find_vertices_for_edge(edge_coord: (i32, i32), hexes: &[HexInfo]) -> (r: Option<((i32, i32), (i32, i32))>)
    requires
        coords_fit(hexes@),
    ensures
        r is Some <==> is_edge(hexes@, pos(edge_coord)),
        r matches Some(ends) ==> last_side(hexes@, (ends.0, ends.1, edge_coord)),
{
    let edges = calculate_all_edges(hexes);
    match find_edge(&edges, edge_coord) {
        Some(k) => {
            let e = edges[k];
            assert(last_side(hexes@, edges@[k as int]));
            assert(e == (e.0, e.1, edge_coord));
            Some((e.0, e.1))
        },
        None => {
            proof {
                if is_edge(hexes@, pos(edge_coord)) {
                    let (h, i) = choose|h: int, i: int|
                        0 <= h < hexes@.len() && 0 <= i < 6 && #[trigger] side_key(hexes@[h], i)
                            == pos(edge_coord);
                    let k = lemma_entry_for_side(hexes@, edges@, h, i);
                    assert(edges@[k].2 == edge_coord);
                }
            }
            None
        },
    }
}

/// Whether an entry of the edge list may take a road, read off its ends.
fn road_fits(
    e: Edge,
    settlements: &[BuildingInfo],
    cities: &[BuildingInfo],
    roads: &[BuildingInfo],
    reach: &Vec<(i32, i32)>,
    me: PlayerId,
    must_touch: Option<(i32, i32)>,
) -> (b: bool)
    ensures
        b == (!occupied(roads@, pos(e.2)) && match must_touch {
            Some(v) => e.0 == v || e.1 == v,
            None => owned(settlements@, me, pos(e.0)) || owned(settlements@, me, pos(e.1)) || owned(
                cities@,
                me,
                pos(e.0),
            ) || owned(cities@, me, pos(e.1)) || reach@.contains(e.0) || reach@.contains(e.1),
        }),
{
    if occupied_at(roads, e.2) {
        return false;
    }
    match must_touch {
        Some(v) => same_pos(e.0, v) || same_pos(e.1, v),
        None => owned_at(settlements, me, e.0) || owned_at(settlements, me, e.1) || owned_at(
            cities,
            me,
            e.0,
        ) || owned_at(cities, me, e.1) || has_pos(reach, e.0) || has_pos(reach, e.1),
    }
}

proof fn lemma_road_fits(
    hexes: Seq<HexInfo>,
    edges: Seq<Edge>,
    k: int,
    settlements: Seq<BuildingInfo>,
    cities: Seq<BuildingInfo>,
    roads: Seq<BuildingInfo>,
    reach: Seq<(i32, i32)>,
    me: PlayerId,
    must_touch: Option<(i32, i32)>,
)
    requires
        edges_of(hexes, edges),
        0 <= k < edges.len(),
        forall|p: (i32, i32)| reach.contains(p) <==> entry_reach(edges, roads, me, pos(p)),
    ensures
        (!occupied(roads, pos(edges[k].2)) && match must_touch {
            Some(v) => edges[k].0 == v || edges[k].1 == v,
            None => owned(settlements, me, pos(edges[k].0)) || owned(settlements, me, pos(edges[k].1))
                || owned(cities, me, pos(edges[k].0)) || owned(cities, me, pos(edges[k].1))
                || reach.contains(edges[k].0) || reach.contains(edges[k].1),
        }) == road_allowed(hexes, settlements, cities, roads, me, must_touch, pos(edges[k].2)),
{
    let e = edges[k];
    assert(last_side(hexes, e));
    let (h2, i2) = choose|h2: int, i2: int|
        #[trigger] is_side(hexes, e, h2, i2) && forall|h3: int, i3: int|
            0 <= h3 < hexes.len() && 0 <= i3 < 6 && #[trigger] later(h3, i3, h2, i2)
                ==> side_key(hexes[h3], i3) != pos(e.2);
    assert(side_key(hexes[h2], i2) == pos(e.2));
    assert(is_edge(hexes, pos(e.2)));
    match must_touch {
        Some(v) => {
            lemma_entry_touches(hexes, edges, k, pos(v));
        },
        None => {
            lemma_entry_touches(hexes, edges, k, pos(e.0));
            lemma_entry_touches(hexes, edges, k, pos(e.1));
            lemma_reach(hexes, edges, roads, me, pos(e.0));
            lemma_reach(hexes, edges, roads, me, pos(e.1));
            if exists|w: (int, int)|
                #[trigger] edge_touches(hexes, pos(e.2), w) && (owned(settlements, me, w) || owned(
                    cities,
                    me,
                    w,
                ) || road_reaches(hexes, roads, me, w)) {
                let w = choose|w: (int, int)|
                    #[trigger] edge_touches(hexes, pos(e.2), w) && (owned(settlements, me, w)
                        || owned(cities, me, w) || road_reaches(hexes, roads, me, w));
                lemma_entry_touches(hexes, edges, k, w);
                lemma_reach(hexes, edges, roads, me, w);
            }
        },
    }
}

/// Edges where `me` may put a road, each once: empty, and touching
/// something of theirs - or, during initial placement, touching the
/// settlement just placed.
pub fn legal_roads(
    hexes: &[HexInfo],
    settlements: &[BuildingInfo],
    cities: &[BuildingInfo],
    roads: &[BuildingInfo],
    me: PlayerId,
    must_touch: Option<(i32, i32)>,
) -> (out: Vec<(i32, i32)>)
    requires
        coords_fit(hexes@),
    ensures
        forall|a: int, b: int| 0 <= a < b < out@.len() ==> out@[a] != out@[b],
        forall|p: (i32, i32)|
            out@.contains(p) <==> road_allowed(
                hexes@,
                settlements@,
                cities@,
                roads@,
                me,
                must_touch,
                pos(p),
            ),
{
    let edges = calculate_all_edges(hexes);
    let reach = road_ends(&edges, roads, me);
    let mut out: Vec<(i32, i32)> = Vec::new();
    let mut k: usize = 0;
    while k < edges.len()
        invariant
            k <= edges@.len(),
            edges_of(hexes@, edges@),
            forall|p: (i32, i32)| reach@.contains(p) <==> entry_reach(edges@, roads@, me, pos(p)),
            forall|a: int, b: int| 0 <= a < b < out@.len() ==> out@[a] != out@[b],
            forall|p: (i32, i32)|
                out@.contains(p) <==> exists|i: int|
                    0 <= i < k && #[trigger] edges@[i].2 == p && road_allowed(
                        hexes@,
                        settlements@,
                        cities@,
                        roads@,
                        me,
                        must_touch,
                        pos(p),
                    ),
        decreases edges@.len() - k,
    {
        let e = edges[k];
        let fits = road_fits(e, settlements, cities, roads, &reach, me, must_touch);
        proof {
            lemma_road_fits(hexes@, edges@, k as int, settlements@, cities@, roads@, reach@, me, must_touch);
        }
        let ghost before_out = out@;
        if fits {
            out.push(e.2);
        }
        proof {
            assert forall|a: int, b: int| 0 <= a < b < out@.len() implies out@[a] != out@[b] by {
                if out@.len() > before_out.len() {
                    assert(out@ == before_out.push(e.2));
                    if b == before_out.len() {
                        let x = before_out[a];
                        assert(before_out.contains(x));
                        let i = choose|i: int|
                            0 <= i < k && #[trigger] edges@[i].2 == x && road_allowed(
                                hexes@,
                                settlements@,
                                cities@,
                                roads@,
                                me,
                                must_touch,
                                pos(x),
                            );
                        assert(edges@[i].2 != edges@[k as int].2);
                    } else {
                        assert(before_out[a] != before_out[b]);
                    }
                }
            }
            assert forall|p: (i32, i32)|
                out@.contains(p) <==> exists|i: int|
                    0 <= i < k + 1 && #[trigger] edges@[i].2 == p && road_allowed(
                        hexes@,
                        settlements@,
                        cities@,
                        roads@,
                        me,
                        must_touch,
                        pos(p),
                    ) by {
                if out@.len() > before_out.len() {
                    assert(out@ == before_out.push(e.2));
                    if out@.contains(p) {
                        let i = choose|i: int| 0 <= i < out@.len() && out@[i] == p;
                        if i < before_out.len() {
                            assert(before_out[i] == p);
                            assert(before_out.contains(p));
                        } else {
                            assert(edges@[k as int].2 == p);
                        }
                    }
                    if before_out.contains(p) {
                        let i = choose|i: int| 0 <= i < before_out.len() && before_out[i] == p;
                        assert(out@[i] == p);
                    }
                    if p == e.2 {
                        assert(out@[before_out.len() as int] == p);
                    }
                }
                if exists|i: int|
                    0 <= i < k + 1 && #[trigger] edges@[i].2 == p && road_allowed(
                        hexes@,
                        settlements@,
                        cities@,
                        roads@,
                        me,
                        must_touch,
                        pos(p),
                    ) {
                    let i = choose|i: int|
                        0 <= i < k + 1 && #[trigger] edges@[i].2 == p && road_allowed(
                            hexes@,
                            settlements@,
                            cities@,
                            roads@,
                            me,
                            must_touch,
                            pos(p),
                        );
                    if i < k {
                        assert(before_out.contains(p));
                    }
                }
            }
        }
        k = k + 1;
    }
    proof {
        assert forall|p: (i32, i32)|
            road_allowed(hexes@, settlements@, cities@, roads@, me, must_touch, pos(p)) implies out@.contains(
                p,
            ) by {
            let (h, i) = choose|h: int, i: int|
                0 <= h < hexes@.len() && 0 <= i < 6 && #[trigger] side_key(hexes@[h], i) == pos(p);
            let m = lemma_entry_for_side(hexes@, edges@, h, i);
            assert(edges@[m].2 == p);
        }
    }
    out
}

} // verus!
