use colonist::board::{
    calculate_all_edges, calculate_all_vertices, edge_key, find_vertices_for_edge, get_hex_vertices, hex_vertices,
    legal_roads, legal_settlements,
};
use colonist::rules::{BuildingInfo, HexInfo, ResourceType};

fn one_hex() -> Vec<HexInfo> {
    vec![HexInfo { q: 0, r: 0, resource: ResourceType::Ore, number: 8 }]
}

fn sorted(mut v: Vec<(i32, i32)>) -> Vec<(i32, i32)> {
    v.sort();
    v
}

#[test]
fn a_hex_has_six_corners_round_from_the_upper_right() {
    let v = hex_vertices(0, 0);
    assert_eq!(v, [(1, 1), (-1, 2), (-2, 1), (-1, -1), (1, -2), (2, -1)]);
    assert_eq!(get_hex_vertices(1, 0), vec![(4, 1), (2, 2), (1, 1), (2, -1), (4, -2), (5, -1)]);
}

#[test]
fn an_edge_is_named_by_its_midpoint() {
    assert_eq!(edge_key((1, 1), (-1, 2)), (0, 1));
    assert_eq!(edge_key((-1, 2), (1, 1)), (0, 1));
    assert_eq!(edge_key((2, -1), (1, 1)), (1, 0));
}

#[test]
fn one_hex_has_six_vertices_and_six_edges() {
    let hexes = one_hex();
    assert_eq!(sorted(calculate_all_vertices(&hexes)), sorted(hex_vertices(0, 0).to_vec()));
    let edges = calculate_all_edges(&hexes);
    assert_eq!(edges.len(), 6);
    assert_eq!(find_vertices_for_edge((0, 1), &hexes).map(|(a, b)| sorted(vec![a, b])), Some(vec![(-1, 2), (1, 1)]));
    assert_eq!(find_vertices_for_edge((5, 5), &hexes), None);
}

#[test]
fn two_neighbouring_hexes_share_corners_and_an_edge() {
    let hexes = vec![
        HexInfo { q: 0, r: 0, resource: ResourceType::Ore, number: 8 },
        HexInfo { q: 1, r: 0, resource: ResourceType::Wood, number: 3 },
    ];
    assert_eq!(calculate_all_vertices(&hexes).len(), 10);
    assert_eq!(calculate_all_edges(&hexes).len(), 11);
}

#[test]
fn setup_settlements_keep_their_distance() {
    let hexes = one_hex();
    let all = legal_settlements(&hexes, &[], &[], &[], 1, true);
    assert_eq!(all.len(), 6);
    let taken = [BuildingInfo { player_id: 2, x: 1, y: 1 }];
    let left = legal_settlements(&hexes, &taken, &[], &[], 1, true);
    assert_eq!(sorted(left), sorted(vec![(-2, 1), (-1, -1), (1, -2)]));
}

#[test]
fn later_settlements_need_a_road() {
    let hexes = one_hex();
    assert!(legal_settlements(&hexes, &[], &[], &[], 1, false).is_empty());
    let roads = [BuildingInfo { player_id: 1, x: 0, y: 1 }];
    assert_eq!(sorted(legal_settlements(&hexes, &[], &[], &roads, 1, false)), vec![(-1, 2), (1, 1)]);
    assert!(legal_settlements(&hexes, &[], &[], &roads, 2, false).is_empty());
}

#[test]
fn roads_grow_from_what_you_own() {
    let hexes = one_hex();
    assert!(legal_roads(&hexes, &[], &[], &[], 1, None).is_empty());
    let mine = [BuildingInfo { player_id: 1, x: 1, y: 1 }];
    assert_eq!(sorted(legal_roads(&hexes, &mine, &[], &[], 1, None)), vec![(0, 1), (1, 0)]);
    assert_eq!(legal_roads(&hexes, &[], &[], &[], 1, Some((1, 1))).len(), 2);
    let road = [BuildingInfo { player_id: 2, x: 0, y: 1 }];
    assert_eq!(legal_roads(&hexes, &mine, &[], &road, 1, None), vec![(1, 0)]);
}
