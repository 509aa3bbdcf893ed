//! The player's box against the level grid: which cell a point falls in,
//! whether the box runs into walls or closed doors, and sliding it along a
//! movement in small steps.

use vstd::prelude::*;
use crate::geometry::{Point, Rect};
use crate::resources::{Level, Wall};
use crate::selection::COORD_LIMIT;

verus! {

/// Number of steps a movement is split into, on each axis.
pub const COLLISION_STEPS: i64 = 4;

/// `a / b` rounded toward zero, for `b > 0`.
pub open spec fn div_toward_zero(a: int, b: int) -> int {
    if a >= 0 {
        a / b
    } else {
        -((-a) / b)
    }
}

/// The id of the cell that holds `p`, counting columns and rows from `offset`
/// in steps of `tile` rounded toward zero, if that id names a cell of the
/// grid. A column past the right edge wraps into the next row, as the grid is
/// addressed by id alone.
pub open spec fn cell_id_at(level: &Level, offset: Point, tile: int, p: Point) -> Option<int> {
    let x = div_toward_zero(p.x - offset.x, tile);
    let y = div_toward_zero(p.y - offset.y, tile);
    let id = level.width * y + x;
    if 0 <= id < level.walls@.len() {
        Some(id)
    } else {
        None
    }
}

/// The cell of the grid under `p`, if any.
pub open spec fn wall_at(level: &Level, offset: Point, tile: int, p: Point) -> Option<Wall> {
    match cell_id_at(level, offset, tile, p) {
        Some(id) => Some(level.walls@[id]),
        None => None,
    }
}

/// The four corners of `r`: top-left, top-right, bottom-right, bottom-left.
pub open spec fn corners(r: Rect) -> Seq<Point> {
    seq![
        Point { x: r.x, y: r.y },
        Point { x: (r.x + r.w) as i64, y: r.y },
        Point { x: (r.x + r.w) as i64, y: (r.y + r.h) as i64 },
        Point { x: r.x, y: (r.y + r.h) as i64 },
    ]
}

/// Looking at the cells under a box's corners in order: whether the box is
/// blocked (a wall, or a door while doors are not activated), and whether it
/// touched an activated door before the first blocking corner.
pub open spec fn collision_of(cells: Seq<Option<Wall>>, doors_activated: bool) -> (bool, bool)
    decreases cells.len(),
{
    if cells.len() == 0 {
        (false, false)
    } else {
        let rest = collision_of(cells.drop_first(), doors_activated);
        match cells[0] {
            Some(w) => if w.spec_is_door() {
                if doors_activated {
                    (rest.0, true)
                } else {
                    (true, false)
                }
            } else if w.spec_is_wall() {
                (true, false)
            } else {
                rest
            },
            None => rest,
        }
    }
}

/// The cells under the corners of `r`.
pub open spec fn corner_cells(level: &Level, offset: Point, tile: int, r: Rect) -> Seq<Option<Wall>> {
    corners(r).map_values(|p: Point| wall_at(level, offset, tile, p))
}

/// A point within the range the grid lookups handle.
pub open spec fn point_in_range(p: Point) -> bool {
    -2 * COORD_LIMIT <= p.x <= 2 * COORD_LIMIT && -2 * COORD_LIMIT <= p.y <= 2 * COORD_LIMIT
}

/// A box whose sides all lie within the range of `point_in_range`.
pub open spec fn box_in_range(r: Rect) -> bool {
    &&& -2 * COORD_LIMIT <= r.x <= 2 * COORD_LIMIT
    &&& -2 * COORD_LIMIT <= r.x + r.w <= 2 * COORD_LIMIT
    &&& -2 * COORD_LIMIT <= r.y <= 2 * COORD_LIMIT
    &&& -2 * COORD_LIMIT <= r.y + r.h <= 2 * COORD_LIMIT
}

fn div_toward_zero_exec(a: i64, b: i64) -> (r: i64)
    requires
        b > 0,
        a > i64::MIN,
    ensures
        r == div_toward_zero(a as int, b as int),
{
    if a >= 0 {
        a / b
    } else {
        -((-a) / b)
    }
}

/// The id of the cell under `point`, if it names a cell of the grid.
pub fn get_tile_id(level: &Level, offset: Point, tile_size: i64, point: Point) -> (r: Option<usize>)
    requires
        tile_size > 0,
        point_in_range(point),
        -COORD_LIMIT <= offset.x <= COORD_LIMIT,
        -COORD_LIMIT <= offset.y <= COORD_LIMIT,
    ensures
        r matches Some(id) ==> cell_id_at(level, offset, tile_size as int, point) == Some(id as int),
        r is None ==> cell_id_at(level, offset, tile_size as int, point) is None,
{
    let x = div_toward_zero_exec(point.x - offset.x, tile_size);
    let y = div_toward_zero_exec(point.y - offset.y, tile_size);
    proof {
        lemma_div_toward_zero_bound(point.x - offset.x, tile_size as int);
        lemma_div_toward_zero_bound(point.y - offset.y, tile_size as int);
        assert(-0x1_0000_0000_0000_0000_0000_0000 <= level.width * y <= 0x1_0000_0000_0000_0000_0000_0000)
            by (nonlinear_arith)
            requires
                0 <= level.width <= usize::MAX,
                -0x1_0000_0000 <= y <= 0x1_0000_0000,
        ;
    }
    let id = (level.width as i128) * (y as i128) + (x as i128);
    if 0 <= id && id < level.walls.len() as i128 {
        Some(id as usize)
    } else {
        None
    }
}

proof fn lemma_div_toward_zero_bound(a: int, b: int)
    requires
        b > 0,
        -0x1_0000_0000 <= a <= 0x1_0000_0000,
    ensures
        -0x1_0000_0000 <= div_toward_zero(a, b) <= 0x1_0000_0000,
{
    if a >= 0 {
        assert(0 <= a / b <= a) by (nonlinear_arith)
            requires
                b > 0,
                a >= 0,
        ;
    } else {
        assert(0 <= (-a) / b <= -a) by (nonlinear_arith)
            requires
                b > 0,
                a < 0,
        ;
    }
}

/// The cell under `point`, if any.
pub fn get_tile_by_point(level: &Level, offset: Point, tile_size: i64, point: Point) -> (r: Option<Wall>)
    requires
        tile_size > 0,
        point_in_range(point),
        -COORD_LIMIT <= offset.x <= COORD_LIMIT,
        -COORD_LIMIT <= offset.y <= COORD_LIMIT,
    ensures
        r == wall_at(level, offset, tile_size as int, point),
{
    match get_tile_id(level, offset, tile_size, point) {
        Some(tile_id) => Some(level.walls[tile_id]),
        None => None,
    }
}

/// Whether a box is blocked by the cells under its corners (see
/// `collision_of`), and whether it touched an activated door first.
pub fn check_wall_collision(
    level: &Level,
    offset: Point,
    tile_size: i64,
    object: Rect,
    doors_activated: bool,
) -> (r: (bool, bool))
    requires
        tile_size > 0,
        box_in_range(object),
        -COORD_LIMIT <= offset.x <= COORD_LIMIT,
        -COORD_LIMIT <= offset.y <= COORD_LIMIT,
    ensures
        r == collision_of(corner_cells(level, offset, tile_size as int, object), doors_activated),
{
    let ghost cells = corner_cells(level, offset, tile_size as int, object);
    let o = object;
    let points: [Point; 4] = [
        Point::new(o.x, o.y),
        Point::new(o.x + o.w, o.y),
        Point::new(o.x + o.w, o.y + o.h),
        Point::new(o.x, o.y + o.h),
    ];
    assert(points@ =~= corners(object));
    let mut entered_door = false;
    let mut k: usize = 0;
    assert(cells.subrange(0, 4) =~= cells);
    while k < 4
        invariant
            tile_size > 0,
            -COORD_LIMIT <= offset.x <= COORD_LIMIT,
            -COORD_LIMIT <= offset.y <= COORD_LIMIT,
            box_in_range(object),
            points@ == corners(object),
            cells == corner_cells(level, offset, tile_size as int, object),
            k <= 4,
            collision_of(cells, doors_activated) == ({
                let rest = collision_of(cells.subrange(k as int, 4), doors_activated);
                (rest.0, rest.1 || entered_door)
            }),
        decreases 4 - k,
    {
        let ghost rest = cells.subrange(k as int, 4);
        assert(rest.drop_first() =~= cells.subrange(k + 1, 4));
        assert(rest[0] == cells[k as int]);
        if let Some(wall) = get_tile_by_point(level, offset, tile_size, points[k]) {
            if wall.is_door() {
                if doors_activated {
                    entered_door = true;
                } else {
                    return (true, entered_door);
                }
            } else if wall.is_wall() {
                return (true, entered_door);
            }
        }
        k += 1;
    }
    (false, entered_door)
}

/// `r` moved by `d` along the x axis (`horizontal`) or the y axis.
pub open spec fn shifted(r: Rect, d: int, horizontal: bool) -> Rect {
    if horizontal {
        Rect { x: (r.x + d) as i64, ..r }
    } else {
        Rect { y: (r.y + d) as i64, ..r }
    }
}

/// `current` moved along the axis to where `probe` is on it.
pub open spec fn follow(current: Rect, probe: Rect, horizontal: bool) -> Rect {
    if horizontal {
        Rect { x: probe.x, ..current }
    } else {
        Rect { y: probe.y, ..current }
    }
}

/// Sliding a box along one axis in `n` steps of `d`: a probe starts at
/// `probe` and advances by `d` each step; after each step the box moves to the
/// probe's position on the axis unless the probe is blocked there. The result
/// is the box's final place and whether any probe touched an activated door.
pub open spec fn slide(
    level: &Level,
    offset: Point,
    tile: int,
    doors_activated: bool,
    current: Rect,
    probe: Rect,
    d: int,
    horizontal: bool,
    n: nat,
) -> (Rect, bool)
    decreases n,
{
    if n == 0 {
        (current, false)
    } else {
        let p = shifted(probe, d, horizontal);
        let hit = collision_of(corner_cells(level, offset, tile, p), doors_activated);
        let c = if hit.0 {
            current
        } else {
            follow(current, p, horizontal)
        };
        let rest = slide(level, offset, tile, doors_activated, c, p, d, horizontal, (n - 1) as nat);
        (rest.0, hit.1 || rest.1)
    }
}

/// Where the box `player` ends after `movement`: first along x, then along y,
/// each in `COLLISION_STEPS` steps of the movement's share rounded toward
/// zero (see `slide`); an axis without movement is skipped. The flag tells
/// whether the box touched an activated door on the way.
pub open spec fn moved_with_collisions(
    level: &Level,
    offset: Point,
    tile: int,
    doors_activated: bool,
    player: Rect,
    movement: Point,
) -> (Rect, bool) {
    let dx = div_toward_zero(movement.x as int, COLLISION_STEPS as int);
    let dy = div_toward_zero(movement.y as int, COLLISION_STEPS as int);
    let along_x = if movement.x != 0 {
        slide(level, offset, tile, doors_activated, player, player, dx, true, 4)
    } else {
        (player, false)
    };
    let along_y = if movement.y != 0 {
        slide(level, offset, tile, doors_activated, along_x.0, along_x.0, dy, false, 4)
    } else {
        (along_x.0, false)
    };
    (along_y.0, along_x.1 || along_y.1)
}

/// A box and a movement small enough for every probe to stay in range.
pub open spec fn movement_fits(player: Rect, movement: Point) -> bool {
    &&& -COORD_LIMIT <= player.x <= COORD_LIMIT
    &&& -COORD_LIMIT <= player.x + player.w <= COORD_LIMIT
    &&& -COORD_LIMIT <= player.y <= COORD_LIMIT
    &&& -COORD_LIMIT <= player.y + player.h <= COORD_LIMIT
    &&& -COORD_LIMIT <= movement.x <= COORD_LIMIT
    &&& -COORD_LIMIT <= movement.y <= COORD_LIMIT
}

fn slide_exec(
    level: &Level,
    offset: Point,
    tile_size: i64,
    doors_activated: bool,
    start: Rect,
    d: i64,
    horizontal: bool,
) -> (r: (Rect, bool))
    requires
        tile_size > 0,
        -COORD_LIMIT <= offset.x <= COORD_LIMIT,
        -COORD_LIMIT <= offset.y <= COORD_LIMIT,
        box_in_range(start),
        horizontal ==> -COORD_LIMIT <= start.x <= COORD_LIMIT && -COORD_LIMIT <= start.x
            + start.w <= COORD_LIMIT,
        !horizontal ==> -COORD_LIMIT <= start.y <= COORD_LIMIT && -COORD_LIMIT <= start.y
            + start.h <= COORD_LIMIT,
        -COORD_LIMIT / 4 <= d <= COORD_LIMIT / 4,
    ensures
        r == slide(level, offset, tile_size as int, doors_activated, start, start, d as int, horizontal, 4),
        box_in_range(r.0),
        r.0.w == start.w && r.0.h == start.h,
        horizontal ==> r.0.y == start.y,
        !horizontal ==> r.0.x == start.x,
{
    let mut current = start;
    let mut probe = start;
    let mut entered_door = false;
    let mut k: i64 = 0;
    while k < COLLISION_STEPS
        invariant
            tile_size > 0,
            -COORD_LIMIT <= offset.x <= COORD_LIMIT,
            -COORD_LIMIT <= offset.y <= COORD_LIMIT,
            box_in_range(start),
            horizontal ==> -COORD_LIMIT <= start.x <= COORD_LIMIT && -COORD_LIMIT <= start.x
            + start.w <= COORD_LIMIT,
            !horizontal ==> -COORD_LIMIT <= start.y <= COORD_LIMIT && -COORD_LIMIT <= start.y
            + start.h <= COORD_LIMIT,
            -COORD_LIMIT / 4 <= d <= COORD_LIMIT / 4,
            0 <= k <= COLLISION_STEPS,
            box_in_range(current),
            current.w == start.w && current.h == start.h,
            horizontal ==> current.y == start.y,
            !horizontal ==> current.x == start.x,
            probe == (if horizontal {
                Rect { x: (start.x + k * d) as i64, ..start }
            } else {
                Rect { y: (start.y + k * d) as i64, ..start }
            }),
            -COORD_LIMIT <= k * d <= COORD_LIMIT,
            slide(level, offset, tile_size as int, doors_activated, start, start, d as int, horizontal, 4)
                == ({
                let rest = slide(
                    level,
                    offset,
                    tile_size as int,
                    doors_activated,
                    current,
                    probe,
                    d as int,
                    horizontal,
                    (4 - k) as nat,
                );
                (rest.0, entered_door || rest.1)
            }),
        decreases COLLISION_STEPS - k,
    {
        assert(-COORD_LIMIT <= (k + 1) * d <= COORD_LIMIT) by (nonlinear_arith)
            requires
                0 <= k < 4,
                -COORD_LIMIT / 4 <= d <= COORD_LIMIT / 4,
        ;
        assert((k + 1) * d == k * d + d) by (nonlinear_arith);
        if horizontal {
            assert(probe.x == start.x + k * d && probe.y == start.y);
            probe.x = probe.x + d;
            assert(probe.w == start.w && probe.h == start.h);
            assert(probe.x == start.x + (k + 1) * d);
            assert(box_in_range(probe));
        } else {
            assert(probe.y == start.y + k * d && probe.x == start.x);
            probe.y = probe.y + d;
            assert(probe.w == start.w && probe.h == start.h);
            assert(probe.y == start.y + (k + 1) * d);
            assert(box_in_range(probe));
        }
        assert(box_in_range(probe));
        let (blocked, entered) = check_wall_collision(level, offset, tile_size, probe, doors_activated);
        if entered {
            entered_door = true;
        }
        if !blocked {
            if horizontal {
                current.x = probe.x;
            } else {
                current.y = probe.y;
            }
        }
        k += 1;
    }
    (current, entered_door)
}

/// Moves the box `player` by `movement` against the level's walls and doors:
/// the result is `moved_with_collisions`.
pub fn move_player_with_collisions(
    level: &Level,
    offset: Point,
    tile_size: i64,
    doors_activated: bool,
    player: Rect,
    movement: Point,
) -> (r: (Rect, bool))
    requires
        tile_size > 0,
        -COORD_LIMIT <= offset.x <= COORD_LIMIT,
        -COORD_LIMIT <= offset.y <= COORD_LIMIT,
        movement_fits(player, movement),
    ensures
        r == moved_with_collisions(level, offset, tile_size as int, doors_activated, player, movement),
{
    let mut current = player;
    let mut entered_door = false;
    if movement.x != 0 {
        let dx = div_toward_zero_exec(movement.x, COLLISION_STEPS);
        let (after, entered) = slide_exec(level, offset, tile_size, doors_activated, current, dx, true);
        current = after;
        entered_door = entered;
    }
    if movement.y != 0 {
        let dy = div_toward_zero_exec(movement.y, COLLISION_STEPS);
        let (after, entered) = slide_exec(level, offset, tile_size, doors_activated, current, dy, false);
        current = after;
        entered_door = entered_door || entered;
    }
    (current, entered_door)
}

} // verus!
