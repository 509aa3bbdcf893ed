use ludum_dare_45::geometry::{Point, Rect};
use ludum_dare_45::lighting::{SegmentPalette, TileLightState, TileLightTracing};

fn tile_with_mask(mask: u8, hits: usize) -> TileLightTracing {
    let mut tile = TileLightTracing::new(0, Point::new(0, 0), 30, 30);
    tile.hits = hits;
    for k in 0..8 {
        if mask & (1 << k) != 0 {
            tile.segment_hits[k] = 1;
        }
    }
    tile
}

fn shape(mask: u8) -> TileLightState {
    tile_with_mask(mask, 1).get_light_state()
}

fn bits(list: &[usize]) -> u8 {
    list.iter().fold(0u8, |m, &b| m | (1 << b))
}

#[test]
fn no_hits_is_unlit_for_every_mask() {
    for mask in 0..=255u8 {
        assert_eq!(tile_with_mask(mask, 0).get_light_state(), TileLightState::Unlit);
    }
}

// An independent reading of the classifier's rules, used to check every mask.
fn expected_shape(mask: u8) -> TileLightState {
    let p = |k: usize| mask & (1 << k) != 0;
    let up = (p(0) && p(1) && !p(2)) || (p(0) && !p(1) && p(2)) || (!p(0) && p(1) && !p(2))
        || (!p(0) && p(1) && p(2)) || (p(0) && p(1) && p(2));
    let right = (p(2) && p(3) && !p(4)) || (p(2) && !p(3) && p(4)) || (!p(2) && p(3) && !p(4))
        || (!p(2) && p(3) && p(4)) || (p(2) && p(3) && p(4));
    let down = (p(6) && p(5) && !p(4)) || (p(6) && !p(5) && p(4)) || (!p(6) && p(5) && !p(4))
        || (!p(6) && p(5) && p(4)) || (p(6) && p(5) && p(4));
    let left = (p(0) && p(7) && !p(6)) || (p(0) && !p(7) && p(6)) || (!p(0) && p(7) && !p(6))
        || (!p(0) && p(7) && p(6)) || (p(0) && p(7) && p(6));
    let edges = [up, right, down, left];
    let count = edges.iter().filter(|e| **e).count();
    if count == 1 {
        return if up {
            TileLightState::Up
        } else if right {
            TileLightState::Right
        } else if down {
            TileLightState::Down
        } else {
            TileLightState::Left
        };
    }
    if count == 2 {
        if up && right {
            return TileLightState::UpRightBig;
        }
        if right && down {
            return TileLightState::DownRightBig;
        }
        if down && left {
            return TileLightState::DownLeftBig;
        }
        if left && up {
            return TileLightState::UpLeftBig;
        }
        return TileLightState::Full;
    }
    let corners = [p(0), p(2), p(4), p(6)];
    let set = corners.iter().filter(|c| **c).count();
    if set == 1 {
        return if p(0) {
            TileLightState::UpLeftSmall
        } else if p(2) {
            TileLightState::UpRightSmall
        } else if p(4) {
            TileLightState::DownRightSmall
        } else {
            TileLightState::DownLeftSmall
        };
    }
    if (p(0) && p(4)) || (p(2) && p(6)) {
        return TileLightState::Full;
    }
    TileLightState::Unlit
}

#[test]
fn every_mask_has_one_shape() {
    for mask in 0..=255u8 {
        assert_eq!(shape(mask), expected_shape(mask), "mask {:08b}", mask);
    }
}

#[test]
fn single_corner_bits_give_small_corners() {
    assert_eq!(shape(bits(&[0])), TileLightState::UpLeftSmall);
    assert_eq!(shape(bits(&[2])), TileLightState::UpRightSmall);
    assert_eq!(shape(bits(&[4])), TileLightState::DownRightSmall);
    assert_eq!(shape(bits(&[6])), TileLightState::DownLeftSmall);
}

#[test]
fn top_row_is_up() {
    assert_eq!(shape(bits(&[0, 1, 2])), TileLightState::Up);
}

#[test]
fn four_corners_are_full() {
    assert_eq!(shape(bits(&[0, 2, 4, 6])), TileLightState::Full);
}

#[test]
fn single_edge_middles() {
    assert_eq!(shape(bits(&[1])), TileLightState::Up);
    assert_eq!(shape(bits(&[3])), TileLightState::Right);
    assert_eq!(shape(bits(&[5])), TileLightState::Down);
    assert_eq!(shape(bits(&[7])), TileLightState::Left);
}

#[test]
fn adjacent_edges_give_big_corners() {
    assert_eq!(shape(bits(&[1, 3])), TileLightState::UpRightBig);
    assert_eq!(shape(bits(&[3, 5])), TileLightState::DownRightBig);
    assert_eq!(shape(bits(&[5, 7])), TileLightState::DownLeftBig);
    assert_eq!(shape(bits(&[7, 1])), TileLightState::UpLeftBig);
}

#[test]
fn opposite_edges_are_full() {
    assert_eq!(shape(bits(&[1, 5])), TileLightState::Full);
    assert_eq!(shape(bits(&[3, 7])), TileLightState::Full);
}

#[test]
fn outer_corners_of_an_edge_light_it() {
    // Segments 0 and 2 light the top edge, and no other edge.
    assert_eq!(shape(bits(&[0, 2])), TileLightState::Up);
    // Three lit edges match no edge shape, and no corner is lit.
    assert_eq!(shape(bits(&[1, 3, 5])), TileLightState::Unlit);
    // Corners 0, 2 and 4 light the top and right edges.
    assert_eq!(shape(bits(&[0, 2, 4])), TileLightState::UpRightBig);
    // Three lit edges and two adjacent corners.
    assert_eq!(shape(bits(&[0, 2, 3, 7])), TileLightState::Unlit);
    // All four edges lit: the opposite corners decide, whatever else is lit.
    assert_eq!(shape(bits(&[0, 1, 2, 4, 6])), TileLightState::Full);
    assert_eq!(shape(0), TileLightState::Unlit);
}

#[test]
fn palette_reads_counts() {
    let palette = SegmentPalette::new(&[0, 3, 0, 1, 0, 0, 2, 0]);
    assert_eq!(palette.palette, [false, true, false, true, false, false, true, false]);
    assert!(palette.is_up());
    assert!(palette.is_right());
    assert!(!palette.is_down());
    assert!(!palette.is_left());
    assert!(!palette.is_corner0());
    assert!(!palette.is_corner1());
    assert!(!palette.is_corner2());
    assert!(palette.is_corner3());
}

#[test]
fn new_tile_is_centred() {
    let tile = TileLightTracing::new(5, Point::new(100, 200), 30, 40);
    assert_eq!(tile.tile_id, 5);
    assert_eq!(tile.rect, Rect::new(85, 180, 30, 40));
    assert_eq!(tile.hits, 0);
    assert_eq!(tile.segment_hits, [0; 8]);
}

#[test]
fn register_hit_counts_each_segment() {
    // A 30 by 30 tile at the origin: segments are 10 by 10.
    let points = [(5, 5), (15, 5), (25, 5), (25, 15), (25, 25), (15, 25), (5, 25), (5, 15)];
    for (k, (x, y)) in points.iter().enumerate() {
        let mut tile = TileLightTracing::new(0, Point::new(15, 15), 30, 30);
        tile.register_hit(Point::new(*x, *y));
        let mut expected = [0usize; 8];
        expected[k] = 1;
        assert_eq!(tile.hits, 1);
        assert_eq!(tile.segment_hits, expected);
    }
}

#[test]
fn register_hit_on_shared_border_takes_first_segment() {
    let mut tile = TileLightTracing::new(0, Point::new(15, 15), 30, 30);
    // (10, 0) lies on the border of segments 0 and 1.
    tile.register_hit(Point::new(10, 0));
    assert_eq!(tile.segment_hits, [1, 0, 0, 0, 0, 0, 0, 0]);
}

#[test]
fn register_hit_in_centre_counts_only_the_tile() {
    let mut tile = TileLightTracing::new(0, Point::new(15, 15), 30, 30);
    tile.register_hit(Point::new(15, 15));
    assert_eq!(tile.hits, 1);
    assert_eq!(tile.segment_hits, [0; 8]);
}

#[test]
fn find_intersection_picks_first_tile() {
    let mut tiles = vec![
        TileLightTracing::new(1, Point::new(15, 15), 30, 30),
        TileLightTracing::new(2, Point::new(45, 15), 30, 30),
    ];
    // x = 30 is on both tiles' shared border: the first in order wins.
    let found = TileLightTracing::find_intersection_mut(&mut tiles, Point::new(30, 10)).map(|t| t.tile_id);
    assert_eq!(found, Some(1));
    let found = TileLightTracing::find_intersection_mut(&mut tiles, Point::new(40, 10)).map(|t| t.tile_id);
    assert_eq!(found, Some(2));
    assert!(TileLightTracing::find_intersection_mut(&mut tiles, Point::new(70, 10)).is_none());
    if let Some(t) = TileLightTracing::find_intersection_mut(&mut tiles, Point::new(40, 10)) {
        t.hits = 9;
    }
    assert_eq!(tiles[1].hits, 9);
    assert_eq!(tiles[0].hits, 0);
}

#[test]
fn set_origin_moves_every_tile() {
    let mut tiles = vec![
        TileLightTracing::new(1, Point::new(15, 15), 30, 30),
        TileLightTracing::new(2, Point::new(45, 15), 30, 30),
    ];
    TileLightTracing::set_origin(&mut tiles, Point::new(10, -5));
    assert_eq!(tiles[0].rect, Rect::new(-10, 5, 30, 30));
    assert_eq!(tiles[1].rect, Rect::new(20, 5, 30, 30));
    assert_eq!(tiles[1].tile_id, 2);
}
