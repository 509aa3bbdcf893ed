//! One frame of lighting: select the candidate tiles, cast the rays from the
//! light, and hand back the tiles with their hits, in world coordinates.

use vstd::prelude::*;
use crate::geometry::{Point, Rect};
use crate::lighting::{rects_of, TileLightTracing, SEGMENT_COUNT};
use crate::resources::Level;
use crate::selection::{
    candidates, cell_rect, lemma_candidates_cells, placement_fits, select_tiles, tiles_for,
    LightSource,
};
use crate::tracing::{
    cast_effect, cast_rays, room_for, segment_hits, tile_hits, valid_direction, valid_march,
};

verus! {

/// `r` in coordinates whose origin is `p`.
pub open spec fn rect_relative_to(r: Rect, p: Point) -> Rect {
    Rect { x: (r.x - p.x) as i64, y: (r.y - p.y) as i64, w: r.w, h: r.h }
}

/// The candidate tiles' squares, in coordinates centred on the light, in scan
/// order: what the rays are cast against.
pub open spec fn local_rects(
    level: &Level,
    offset: Point,
    tile: int,
    light: LightSource,
    doors_activated: bool,
) -> Seq<Rect> {
    candidates(level, offset, tile, light, doors_activated).map_values(
        |id: int| rect_relative_to(cell_rect(level, offset, tile, id), light.position),
    )
}

/// `tiles` are the frame's candidate tiles, in scan order, each in its cell's
/// square in world coordinates, holding the hits that the rays along `dirs`
/// leave on it.
pub open spec fn lit_tiles(
    tiles: Seq<TileLightTracing>,
    level: &Level,
    offset: Point,
    tile: int,
    light: LightSource,
    doors_activated: bool,
    dirs: Seq<Point>,
    step: int,
) -> bool {
    let ids = candidates(level, offset, tile, light, doors_activated);
    let rects = local_rects(level, offset, tile, light, doors_activated);
    &&& tiles.len() == ids.len()
    &&& forall|k: int|
        0 <= k < ids.len() ==> {
            &&& (#[trigger] tiles[k]).tile_id == ids[k]
            &&& tiles[k].rect == cell_rect(level, offset, tile, ids[k])
            &&& tiles[k].hits == tile_hits(rects, dirs, step, light.radius as int, k)
            &&& forall|s: int|
                0 <= s < SEGMENT_COUNT ==> tiles[k].segment_hits@[s] == segment_hits(
                    rects,
                    dirs,
                    step,
                    light.radius as int,
                    k,
                    s,
                )
        }
}

/// The light pass of one frame: the candidate tiles around `light` (see
/// `select_tiles`) after the rays along `directions` have been cast from the
/// light with sample spacing `step` times the direction (see `cast_rays`).
pub fn trace_light(
    level: &Level,
    offset: Point,
    tile_size: i64,
    light: LightSource,
    doors_activated: bool,
    directions: &Vec<Point>,
    step: i64,
) -> (r: Vec<TileLightTracing>)
    requires
        placement_fits(level, offset, tile_size as int),
        light.well_formed(),
        valid_march(step as int, light.radius as int),
        forall|q: int| 0 <= q < directions@.len() ==> valid_direction(#[trigger] directions@[q]),
    ensures
        lit_tiles(r@, level, offset, tile_size as int, light, doors_activated, directions@, step as int),
{
    let ghost t = tile_size as int;
    let ghost w = level.width as int;
    let ghost h = level.height as int;
    let ghost ids = candidates(level, offset, t, light, doors_activated);
    let mut tiles = select_tiles(level, offset, tile_size, light, doors_activated);
    let ghost fresh = tiles@;
    proof {
        lemma_candidates_cells(level, offset, t, light, doors_activated, w * h);
        assert forall|k: int| 0 <= k < fresh.len() implies {
            &&& (#[trigger] fresh[k]).can_move(light.position.x as int, light.position.y as int)
            &&& -0x1_0000_0000 <= fresh[k].rect.x <= 0x1_0000_0000
            &&& -0x1_0000_0000 <= fresh[k].rect.y <= 0x1_0000_0000
        } by {
            let id = ids[k];
            let i = id % w;
            let j = id / w;
            assert(0 <= i * t <= w * t) by (nonlinear_arith)
                requires
                    0 <= i < w,
                    0 <= t,
            ;
            assert(0 <= j * t <= h * t) by (nonlinear_arith)
                requires
                    0 <= j < h,
                    0 <= t,
            ;
        }
    }
    TileLightTracing::set_origin(&mut tiles, light.position);
    let ghost local = tiles@;
    let ray_count = directions.len();
    proof {
        assert(rects_of(local) =~= local_rects(level, offset, t, light, doors_activated));
        assert forall|k: int| 0 <= k < local.len() implies {
            &&& (#[trigger] local[k]).rect.well_formed()
            &&& local[k].hits + directions@.len() <= usize::MAX
            &&& forall|s: int|
                0 <= s < SEGMENT_COUNT ==> local[k].segment_hits@[s] + directions@.len()
                    <= usize::MAX
        } by {
            assert(fresh[k].segment_hits@ == seq![0usize; 8]);
            assert(local[k].segment_hits == fresh[k].segment_hits);
            assert(local[k].hits == 0);
            assert(local[k].rect.w == t);
            assert(local[k].rect.h == t);
        }
        assert(room_for(local, directions@.len() as int));
    }
    cast_rays(&mut tiles, directions, step, light.radius);
    let ghost cast = tiles@;
    proof {
        assert forall|k: int| 0 <= k < cast.len() implies (#[trigger] cast[k]).can_move(
            -light.position.x,
            -light.position.y,
        ) by {
            assert(local[k].rect == cast[k].rect);
        }
    }
    TileLightTracing::set_origin(&mut tiles, Point::new(-light.position.x, -light.position.y));
    proof {
        assert forall|k: int| 0 <= k < ids.len() implies {
            &&& (#[trigger] tiles@[k]).tile_id == ids[k]
            &&& tiles@[k].rect == cell_rect(level, offset, t, ids[k])
        } by {
            assert(fresh[k].rect == cell_rect(level, offset, t, ids[k]));
        }
    }
    tiles
}

} // verus!
