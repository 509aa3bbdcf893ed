//! Choosing the tiles that one frame's light pass considers.

use vstd::prelude::*;
use vstd::arithmetic::div_mod::lemma_fundamental_div_mod_converse;
use crate::geometry::{dist_sq, Point, Rect};
use crate::lighting::TileLightTracing;
use crate::resources::{Level, Wall};

verus! {

/// Largest magnitude of a world coordinate handled by the light pass.
pub const COORD_LIMIT: i64 = 0x4000_0000;

/// A point light: where it is and how far it reaches.
#[derive(Clone, Copy, Debug, PartialEq, Eq, Structural)]
pub struct LightSource {
    pub position: Point,
    pub radius: i64,
}

impl LightSource {
    pub open spec fn well_formed(self) -> bool {
        &&& -COORD_LIMIT <= self.position.x <= COORD_LIMIT
        &&& -COORD_LIMIT <= self.position.y <= COORD_LIMIT
        &&& 0 <= self.radius <= COORD_LIMIT
    }
}

/// The level drawn with its top-left corner at `offset` and square tiles of
/// edge `tile` fits the coordinate range.
pub open spec fn placement_fits(level: &Level, offset: Point, tile: int) -> bool {
    &&& level.well_formed()
    &&& 0 <= tile <= COORD_LIMIT
    &&& -COORD_LIMIT <= offset.x <= COORD_LIMIT
    &&& -COORD_LIMIT <= offset.y <= COORD_LIMIT
    &&& level.width * tile <= COORD_LIMIT
    &&& level.height * tile <= COORD_LIMIT
}

/// Centre of column `i` (x) or row `j` (y) of a grid placed at `start`.
pub open spec fn cell_center(start: int, tile: int, i: int) -> int {
    start + i * tile + tile / 2
}

/// Whether a cell takes part in lighting: walls always, doors only while they
/// are not activated, empty cells never.
pub open spec fn casts_shadow(wall: Wall, doors_activated: bool) -> bool {
    if wall.spec_is_door() {
        !doors_activated
    } else {
        !wall.spec_is_empty()
    }
}

/// Cell `(i, j)` is a candidate: it takes part in lighting and its centre is
/// within the light's radius plus one tile edge of the light.
pub open spec fn is_candidate(
    level: &Level,
    offset: Point,
    tile: int,
    light: LightSource,
    doors_activated: bool,
    i: int,
    j: int,
) -> bool {
    &&& casts_shadow(level.cell(i, j), doors_activated)
    &&& dist_sq(
        cell_center(offset.x as int, tile, i),
        cell_center(offset.y as int, tile, j),
        light.position.x as int,
        light.position.y as int,
    ) <= (light.radius + tile) * (light.radius + tile)
}

/// The ids of the candidate cells among the first `c` cells of a scan that
/// goes column by column, left to right, each column top to bottom.
pub open spec fn candidates_upto(
    level: &Level,
    offset: Point,
    tile: int,
    light: LightSource,
    doors_activated: bool,
    c: int,
) -> Seq<int>
    decreases c,
{
    if c <= 0 {
        seq![]
    } else {
        let prev = candidates_upto(level, offset, tile, light, doors_activated, c - 1);
        let i = (c - 1) / (level.height as int);
        let j = (c - 1) % (level.height as int);
        if is_candidate(level, offset, tile, light, doors_activated, i, j) {
            prev.push(level.width * j + i)
        } else {
            prev
        }
    }
}

/// The ids of all candidate cells, in scan order.
pub open spec fn candidates(
    level: &Level,
    offset: Point,
    tile: int,
    light: LightSource,
    doors_activated: bool,
) -> Seq<int> {
    candidates_upto(level, offset, tile, light, doors_activated, level.width * level.height)
}

/// The square of cell `id` (row-major), centred on the cell's centre.
pub open spec fn cell_rect(level: &Level, offset: Point, tile: int, id: int) -> Rect {
    let i = id % (level.width as int);
    let j = id / (level.width as int);
    Rect {
        x: (cell_center(offset.x as int, tile, i) - tile / 2) as i64,
        y: (cell_center(offset.y as int, tile, j) - tile / 2) as i64,
        w: tile as i64,
        h: tile as i64,
    }
}

/// `t` is the fresh tile of cell `id`: the cell's square, no hits.
pub open spec fn fresh_tile_at(t: TileLightTracing, level: &Level, offset: Point, tile: int, id: int) -> bool {
    &&& t.tile_id == id
    &&& t.rect == cell_rect(level, offset, tile, id)
    &&& t.hits == 0
    &&& t.segment_hits@ == seq![0usize; 8]
}

/// `tiles` are the fresh tiles of the cells `ids`, in that order.
pub open spec fn tiles_for(tiles: Seq<TileLightTracing>, ids: Seq<int>, level: &Level, offset: Point, tile: int) -> bool {
    &&& tiles.len() == ids.len()
    &&& forall|k: int| 0 <= k < ids.len() ==> fresh_tile_at(#[trigger] tiles[k], level, offset, tile, ids[k])
}

/// The candidate tiles of one frame: every cell that takes part in lighting
/// (see `casts_shadow`) and whose centre lies within `light.radius + tile_size`
/// of the light, as a fresh tile centred on the cell, in scan order.
pub fn select_tiles(
    level: &Level,
    offset: Point,
    tile_size: i64,
    light: LightSource,
    doors_activated: bool,
) -> (r: Vec<TileLightTracing>)
    requires
        placement_fits(level, offset, tile_size as int),
        light.well_formed(),
    ensures
        tiles_for(r@, candidates(level, offset, tile_size as int, light, doors_activated), level, offset, tile_size as int),
{
    let ghost t = tile_size as int;
    let ghost w = level.width as int;
    let ghost h = level.height as int;
    let mut tiles: Vec<TileLightTracing> = Vec::new();
    let reach = light.radius + tile_size;
    proof {
        lemma_square_fits(reach as int);
    }
    let reach_sq = (reach as i128) * (reach as i128);
    let n_cells = level.walls.len();
    let mut i: usize = 0;
    while i < level.width
        invariant
            placement_fits(level, offset, t),
            light.well_formed(),
            t == tile_size,
            w == level.width,
            h == level.height,
            reach == light.radius + tile_size,
            reach_sq == reach * reach,
            n_cells == w * h,
            i <= w,
            tiles_for(tiles@, candidates_upto(level, offset, t, light, doors_activated, i * h), level, offset, t),
        decreases w - i,
    {
        let mut j: usize = 0;
        while j < level.height
            invariant
                placement_fits(level, offset, t),
                light.well_formed(),
                t == tile_size,
                w == level.width,
                h == level.height,
                reach == light.radius + tile_size,
                reach_sq == reach * reach,
                n_cells == w * h,
                i < w,
                j <= h,
                tiles_for(tiles@, candidates_upto(level, offset, t, light, doors_activated, i * h + j), level, offset, t),
            decreases h - j,
        {
            let ghost c = i * h + j;
            proof {
                lemma_fundamental_div_mod_converse(c, h, i as int, j as int);
                lemma_cell_in_grid(w, h, i as int, j as int);
            }
            let wall = level.get(i, j);
            let takes_part = if wall.is_door() {
                !doors_activated
            } else {
                !wall.is_empty()
            };
            if takes_part {
                let tile_id = level.width * j + i;
                proof {
                    lemma_cell_bounds(w, h, t, i as int, j as int);
                }
                let cx = ((offset.x as i128) + (i as i128) * (tile_size as i128) + (tile_size
                    / 2) as i128) as i64;
                let cy = ((offset.y as i128) + (j as i128) * (tile_size as i128) + (tile_size
                    / 2) as i128) as i64;
                let dx = (cx as i128) - (light.position.x as i128);
                let dy = (cy as i128) - (light.position.y as i128);
                proof {
                    lemma_square_fits(dx as int);
                    lemma_square_fits(dy as int);
                }
                if dx * dx + dy * dy <= reach_sq {
                    let tile = TileLightTracing::new(tile_id, Point::new(cx, cy), tile_size, tile_size);
                    proof {
                        lemma_fundamental_div_mod_converse(tile_id as int, w, j as int, i as int);
                    }
                    tiles.push(tile);
                }
            }
            j += 1;
        }
        assert(i * h + h == (i + 1) * h) by (nonlinear_arith);
        i += 1;
    }
    tiles
}

/// Every id in a scan prefix names a grid cell that is a candidate and that the
/// prefix covers.
pub proof fn lemma_candidates_cells(
    level: &Level,
    offset: Point,
    tile: int,
    light: LightSource,
    doors_activated: bool,
    c: int,
)
    requires
        0 <= c <= level.width * level.height,
    ensures
        forall|k: int|
            0 <= k < candidates_upto(level, offset, tile, light, doors_activated, c).len() ==> {
                let id = #[trigger] candidates_upto(level, offset, tile, light, doors_activated, c)[k];
                let i = id % (level.width as int);
                let j = id / (level.width as int);
                &&& 0 <= i < level.width
                &&& 0 <= j < level.height
                &&& id == level.width * j + i
                &&& i * level.height + j < c
                &&& is_candidate(level, offset, tile, light, doors_activated, i, j)
            },
    decreases c,
{
    if c > 0 {
        let w = level.width as int;
        let h = level.height as int;
        lemma_candidates_cells(level, offset, tile, light, doors_activated, c - 1);
        assert(h > 0 && w > 0) by (nonlinear_arith)
            requires
                0 < c <= w * h,
                w >= 0,
                h >= 0,
        ;
        let i = (c - 1) / h;
        let j = (c - 1) % h;
        assert(c - 1 == h * i + j && 0 <= j < h && 0 <= i) by {
            vstd::arithmetic::div_mod::lemma_fundamental_div_mod(c - 1, h);
            vstd::arithmetic::div_mod::lemma_div_pos_is_pos(c - 1, h);
        }
        assert(i < w) by (nonlinear_arith)
            requires
                c - 1 == h * i + j,
                0 <= j < h,
                c <= w * h,
        ;
        lemma_cell_in_grid(w, h, i, j);
        lemma_fundamental_div_mod_converse(w * j + i, w, j, i);
        assert(i * h + j == c - 1) by (nonlinear_arith)
            requires
                c - 1 == h * i + j,
        ;
        let prev = candidates_upto(level, offset, tile, light, doors_activated, c - 1);
        let all = candidates_upto(level, offset, tile, light, doors_activated, c);
        assert forall|k: int| 0 <= k < all.len() implies {
            let id = #[trigger] all[k];
            let i = id % w;
            let j = id / w;
            &&& 0 <= i < level.width
            &&& 0 <= j < level.height
            &&& id == level.width * j + i
            &&& i * level.height + j < c
            &&& is_candidate(level, offset, tile, light, doors_activated, i, j)
        } by {
            if k < prev.len() {
                assert(all[k] == prev[k]);
            }
        }
    }
}

proof fn lemma_doors_prefix(level: &Level, offset: Point, tile: int, light: LightSource, c: int)
    ensures
        candidates_upto(level, offset, tile, light, true, c) == candidates_upto(
            level,
            offset,
            tile,
            light,
            false,
            c,
        ).filter(|id: int| !level.walls@[id].spec_is_door()),
    decreases c,
{
    let p = |id: int| !level.walls@[id].spec_is_door();
    reveal(Seq::filter);
    if c > 0 {
        lemma_doors_prefix(level, offset, tile, light, c - 1);
        let prev = candidates_upto(level, offset, tile, light, false, c - 1);
        let i = (c - 1) / (level.height as int);
        let j = (c - 1) % (level.height as int);
        let id = level.width * j + i;
        assert(prev.push(id).drop_last() =~= prev);
    }
}

/// Activating the doors removes exactly the door cells from the candidates:
/// every other cell stays, in the same order.
pub proof fn lemma_doors_activated(level: &Level, offset: Point, tile: int, light: LightSource)
    ensures
        candidates(level, offset, tile, light, true) == candidates(
            level,
            offset,
            tile,
            light,
            false,
        ).filter(|id: int| !level.walls@[id].spec_is_door()),
{
    lemma_doors_prefix(level, offset, tile, light, level.width * level.height);
}

proof fn lemma_candidates_complete(
    level: &Level,
    offset: Point,
    tile: int,
    light: LightSource,
    doors_activated: bool,
    c: int,
)
    requires
        0 <= c <= level.width * level.height,
    ensures
        forall|i: int, j: int|
            0 <= i < level.width && 0 <= j < level.height && i * level.height + j < c
                && #[trigger] is_candidate(level, offset, tile, light, doors_activated, i, j)
                ==> candidates_upto(level, offset, tile, light, doors_activated, c).contains(
                level.width * j + i,
            ),
    decreases c,
{
    if c > 0 {
        let w = level.width as int;
        let h = level.height as int;
        lemma_candidates_complete(level, offset, tile, light, doors_activated, c - 1);
        let prev = candidates_upto(level, offset, tile, light, doors_activated, c - 1);
        let all = candidates_upto(level, offset, tile, light, doors_activated, c);
        assert forall|i: int, j: int|
            0 <= i < w && 0 <= j < h && i * h + j < c && #[trigger] is_candidate(
                level,
                offset,
                tile,
                light,
                doors_activated,
                i,
                j,
            ) implies all.contains(w * j + i) by {
            if i * h + j == c - 1 {
                lemma_fundamental_div_mod_converse(c - 1, h, i, j);
                assert(all.last() == w * j + i);
                assert(all[all.len() - 1] == w * j + i);
            } else {
                assert(prev.contains(w * j + i));
                let k = choose|k: int| 0 <= k < prev.len() && prev[k] == w * j + i;
                assert(all[k] == prev[k]);
            }
        }
    }
}

/// On a grid of solid walls only, the candidates are exactly the cells whose
/// centre lies within the light's radius plus one tile edge of the light.
pub proof fn lemma_all_walls_selection(
    level: &Level,
    offset: Point,
    tile: int,
    light: LightSource,
    doors_activated: bool,
)
    requires
        level.well_formed(),
        forall|id: int| 0 <= id < level.walls@.len() ==> #[trigger] level.walls@[id] == Wall::S,
    ensures
        forall|i: int, j: int|
            0 <= i < level.width && 0 <= j < level.height ==> (#[trigger] candidates(
                level,
                offset,
                tile,
                light,
                doors_activated,
            ).contains(level.width * j + i) <==> dist_sq(
                cell_center(offset.x as int, tile, i),
                cell_center(offset.y as int, tile, j),
                light.position.x as int,
                light.position.y as int,
            ) <= (light.radius + tile) * (light.radius + tile)),
        forall|k: int|
            0 <= k < candidates(level, offset, tile, light, doors_activated).len() ==> {
                let id = #[trigger] candidates(level, offset, tile, light, doors_activated)[k];
                0 <= id < level.walls@.len()
            },
{
    let w = level.width as int;
    let h = level.height as int;
    let ids = candidates(level, offset, tile, light, doors_activated);
    lemma_candidates_cells(level, offset, tile, light, doors_activated, w * h);
    lemma_candidates_complete(level, offset, tile, light, doors_activated, w * h);
    assert forall|i: int, j: int| 0 <= i < w && 0 <= j < h implies (#[trigger] ids.contains(w * j + i)
        <==> dist_sq(
        cell_center(offset.x as int, tile, i),
        cell_center(offset.y as int, tile, j),
        light.position.x as int,
        light.position.y as int,
    ) <= (light.radius + tile) * (light.radius + tile)) by {
        lemma_cell_in_grid(w, h, i, j);
        assert(level.walls@[w * j + i] == Wall::S);
        assert(i * h + j < w * h) by (nonlinear_arith)
            requires
                0 <= i < w,
                0 <= j < h,
        ;
        if ids.contains(w * j + i) {
            let k = choose|k: int| 0 <= k < ids.len() && ids[k] == w * j + i;
            assert(w * j + i == j * w + i) by (nonlinear_arith);
            lemma_fundamental_div_mod_converse(w * j + i, w, j, i);
            assert(is_candidate(level, offset, tile, light, doors_activated, i, j));
        }
        if dist_sq(
            cell_center(offset.x as int, tile, i),
            cell_center(offset.y as int, tile, j),
            light.position.x as int,
            light.position.y as int,
        ) <= (light.radius + tile) * (light.radius + tile) {
            assert(is_candidate(level, offset, tile, light, doors_activated, i, j));
        }
    }
    assert forall|k: int| 0 <= k < ids.len() implies {
        let id = #[trigger] ids[k];
        0 <= id < level.walls@.len()
    } by {
        let id = ids[k];
        lemma_cell_in_grid(w, h, id % w, id / w);
    }
}

proof fn lemma_cell_in_grid(w: int, h: int, i: int, j: int)
    requires
        0 <= i < w,
        0 <= j < h,
    ensures
        0 <= w * j + i < w * h,
        0 <= w * j,
{
    assert(w * j + i < w * h) by (nonlinear_arith)
        requires
            0 <= i < w,
            0 <= j < h,
    ;
    assert(0 <= w * j) by (nonlinear_arith)
        requires
            0 <= i < w,
            0 <= j < h,
    ;
}

proof fn lemma_cell_bounds(w: int, h: int, t: int, i: int, j: int)
    requires
        0 <= i < w,
        0 <= j < h,
        0 <= t,
        w * t <= COORD_LIMIT,
        h * t <= COORD_LIMIT,
    ensures
        0 <= i * t <= COORD_LIMIT,
        0 <= j * t <= COORD_LIMIT,
{
    assert(0 <= i * t <= w * t) by (nonlinear_arith)
        requires
            0 <= i < w,
            0 <= t,
    ;
    assert(0 <= j * t <= h * t) by (nonlinear_arith)
        requires
            0 <= j < h,
            0 <= t,
    ;
}

proof fn lemma_square_fits(d: int)
    requires
        -0x1_0000_0000 <= d <= 0x1_0000_0000,
    ensures
        0 <= d * d <= 0x1_0000_0000_0000_0000,
{
    assert(0 <= d * d <= 0x1_0000_0000_0000_0000) by (nonlinear_arith)
        requires
            -0x1_0000_0000 <= d <= 0x1_0000_0000,
    ;
}

} // verus!
