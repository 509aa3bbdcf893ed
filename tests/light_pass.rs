use ludum_dare_45::frame::trace_light;
use ludum_dare_45::geometry::Point;
use ludum_dare_45::lighting::{TileLightState, TileLightTracing};
use ludum_dare_45::resources::{Level, Wall};
use ludum_dare_45::selection::{select_tiles, LightSource};
use ludum_dare_45::tracing::cast_rays;

// World units per pixel: tiles of 32 pixels, rays sampled every 8 pixels.
const SCALE: i64 = 768;
const TILE: i64 = 32 * SCALE;
const STEP: i64 = 8;

fn ray_directions(count: usize) -> Vec<Point> {
    (0..count)
        .map(|k| {
            let angle = (k as f64 * 360.0 / count as f64).to_radians();
            Point::new(
                (angle.cos() * SCALE as f64).round() as i64,
                (angle.sin() * SCALE as f64).round() as i64,
            )
        })
        .collect()
}

fn level(width: usize, height: usize, walls: Vec<Wall>) -> Level {
    Level { walls, width, height, key: "test".to_string() }
}

fn centre_light(width: usize, height: usize, radius_px: i64) -> LightSource {
    LightSource {
        position: Point::new(width as i64 * TILE / 2, height as i64 * TILE / 2),
        radius: radius_px * SCALE,
    }
}

fn ids(tiles: &[TileLightTracing]) -> Vec<usize> {
    tiles.iter().map(|t| t.tile_id).collect()
}

#[test]
fn selection_matches_brute_force_on_wall_grid() {
    for &(m, n, r) in &[(5usize, 7usize, 40i64), (9, 9, 100), (4, 3, 0), (11, 6, 64)] {
        let grid = level(m, n, vec![Wall::S; m * n]);
        let light = centre_light(m, n, r);
        let tiles = select_tiles(&grid, Point::new(0, 0), TILE, light, false);
        let mut expected = Vec::new();
        for i in 0..m {
            for j in 0..n {
                let cx = i as i64 * TILE + TILE / 2;
                let cy = j as i64 * TILE + TILE / 2;
                let dx = (cx - light.position.x) as f64;
                let dy = (cy - light.position.y) as f64;
                if (dx * dx + dy * dy).sqrt() <= (light.radius + TILE) as f64 {
                    expected.push(j * m + i);
                }
            }
        }
        assert_eq!(ids(&tiles), expected, "grid {}x{} radius {}", m, n, r);
        for t in &tiles {
            assert_eq!(t.hits, 0);
            let i = (t.tile_id % m) as i64;
            let j = (t.tile_id / m) as i64;
            assert_eq!((t.rect.x, t.rect.y, t.rect.w, t.rect.h), (i * TILE, j * TILE, TILE, TILE));
        }
    }
}

#[test]
fn selection_skips_empty_cells_and_far_cells() {
    let mut walls = vec![Wall::S; 25];
    walls[12] = Wall::N;
    walls[0] = Wall::N;
    let grid = level(5, 5, walls);
    let light = centre_light(5, 5, 14);
    let tiles = select_tiles(&grid, Point::new(0, 0), TILE, light, false);
    // Radius plus one tile reaches the eight neighbours only.
    assert_eq!(ids(&tiles), vec![6, 11, 16, 7, 17, 8, 13, 18]);
}

#[test]
fn activated_doors_leave_the_selection() {
    let mut walls = vec![Wall::S; 9];
    walls[4] = Wall::N;
    walls[1] = Wall::B0H;
    walls[7] = Wall::D1V;
    let grid = level(3, 3, walls);
    let light = centre_light(3, 3, 100);
    let closed = select_tiles(&grid, Point::new(0, 0), TILE, light, false);
    let open = select_tiles(&grid, Point::new(0, 0), TILE, light, true);
    assert_eq!(ids(&closed), vec![0, 3, 6, 1, 7, 2, 5, 8]);
    assert_eq!(ids(&open), vec![0, 3, 6, 2, 5, 8]);
}

#[test]
fn casting_twice_gives_the_same_masks() {
    let mut walls = vec![Wall::S; 25];
    for id in [6, 7, 8, 11, 12, 13, 16, 17, 18] {
        walls[id] = Wall::N;
    }
    let grid = level(5, 5, walls);
    let light = LightSource { position: Point::new(2 * TILE + 3000, 2 * TILE + 9000), radius: 90 * SCALE };
    let dirs = ray_directions(360);
    let mut first = select_tiles(&grid, Point::new(0, 0), TILE, light, false);
    TileLightTracing::set_origin(&mut first, light.position);
    let mut second = first.clone();
    cast_rays(&mut first, &dirs, STEP, light.radius);
    cast_rays(&mut second, &dirs, STEP, light.radius);
    let masks = |tiles: &Vec<TileLightTracing>| -> Vec<Vec<bool>> {
        tiles.iter().map(|t| t.segment_hits.iter().map(|c| *c > 0).collect()).collect()
    };
    assert_eq!(masks(&first), masks(&second));
    let shapes: Vec<TileLightState> = first.iter().map(|t| t.get_light_state()).collect();
    cast_rays(&mut first, &dirs, STEP, light.radius);
    assert_eq!(masks(&first), masks(&second));
    let again: Vec<TileLightState> = first.iter().map(|t| t.get_light_state()).collect();
    assert_eq!(shapes, again);
    assert!(first.iter().zip(second.iter()).all(|(a, b)| a.hits == 2 * b.hits));
}

#[test]
fn ray_stops_at_radius() {
    let mut tiles = vec![TileLightTracing::new(0, Point::new(100, 0), 20, 20)];
    // Samples at 30, 60, 90: the tile spans x in [90, 110].
    cast_rays(&mut tiles, &vec![Point::new(1, 0)], 30, 89);
    assert_eq!(tiles[0].hits, 0);
    cast_rays(&mut tiles, &vec![Point::new(1, 0)], 30, 90);
    assert_eq!(tiles[0].hits, 1);
    assert_eq!(tiles[0].segment_hits, [0, 0, 0, 0, 0, 0, 0, 1]);
}

#[test]
fn ray_hits_first_tile_in_its_path() {
    let mut tiles = vec![
        TileLightTracing::new(0, Point::new(0, 100), 20, 20),
        TileLightTracing::new(1, Point::new(0, 50), 20, 20),
    ];
    cast_rays(&mut tiles, &vec![Point::new(0, 1), Point::new(0, -1)], 10, 200);
    assert_eq!(tiles[0].hits, 0);
    assert_eq!(tiles[1].hits, 1);
    // Sample (0, 40) is on the top edge of tile 1, in its top middle segment.
    assert_eq!(tiles[1].segment_hits, [0, 1, 0, 0, 0, 0, 0, 0]);
}

#[test]
fn three_by_three_room_scenario() {
    let mut walls = vec![Wall::S; 9];
    walls[4] = Wall::N;
    let grid = level(3, 3, walls);
    let light = centre_light(3, 3, 100);
    let tiles = trace_light(&grid, Point::new(0, 0), TILE, light, false, &ray_directions(360), STEP);
    let got: Vec<(usize, usize, [usize; 8], TileLightState)> =
        tiles.iter().map(|t| (t.tile_id, t.hits, t.segment_hits, t.get_light_state())).collect();
    let expected = vec![
        (0, 7, [0, 0, 0, 0, 7, 0, 0, 0], TileLightState::DownRightSmall),
        (3, 83, [0, 0, 29, 25, 29, 0, 0, 0], TileLightState::Right),
        (6, 7, [0, 0, 7, 0, 0, 0, 0, 0], TileLightState::UpRightSmall),
        (1, 83, [0, 0, 0, 0, 29, 25, 29, 0], TileLightState::Down),
        (7, 83, [29, 25, 29, 0, 0, 0, 0, 0], TileLightState::Up),
        (2, 7, [0, 0, 0, 0, 0, 0, 7, 0], TileLightState::DownLeftSmall),
        (5, 83, [29, 0, 0, 0, 0, 0, 29, 25], TileLightState::Left),
        (8, 7, [7, 0, 0, 0, 0, 0, 0, 0], TileLightState::UpLeftSmall),
    ];
    assert_eq!(got, expected);
    // Tiles come back in world coordinates.
    assert_eq!((tiles[0].rect.x, tiles[0].rect.y), (0, 0));
    assert_eq!((tiles[7].rect.x, tiles[7].rect.y), (2 * TILE, 2 * TILE));
}

#[test]
fn isolated_light_lights_nothing() {
    let grid = level(3, 3, vec![Wall::N; 9]);
    let light = centre_light(3, 3, 100);
    let tiles = trace_light(&grid, Point::new(0, 0), TILE, light, false, &ray_directions(360), STEP);
    assert!(tiles.is_empty());
}
