//! Rays marched out from a light: where each ray stops, and the hits that a
//! set of rays leaves on the candidate tiles.

use vstd::prelude::*;
use crate::geometry::{Point, Rect};
use crate::lighting::{
    bump_segment, classify, first_rect, mask_of, lemma_first_rect_in_range, lemma_segment_in_range, rects_of, segment_of, TileLightTracing,
    SEGMENT_COUNT,
};

verus! {

/// Largest magnitude of a ray direction's components.
pub const DIRECTION_LIMIT: i64 = 0x8000;

/// Largest distance factor between two samples of a ray.
pub const STEP_LIMIT: i64 = 0x8000;

/// Largest light radius.
pub const RADIUS_LIMIT: i64 = 0x4000_0000;

/// A ray direction: not zero, and small enough for samples to stay exact.
pub open spec fn valid_direction(d: Point) -> bool {
    &&& d.x != 0 || d.y != 0
    &&& -DIRECTION_LIMIT <= d.x <= DIRECTION_LIMIT
    &&& -DIRECTION_LIMIT <= d.y <= DIRECTION_LIMIT
}

/// A step factor and a radius that rays can be marched with.
pub open spec fn valid_march(step: int, radius: int) -> bool {
    &&& 1 <= step <= STEP_LIMIT
    &&& 0 <= radius <= RADIUS_LIMIT
}

/// `(x, y)` is farther than `radius` from the origin.
pub open spec fn outside_radius(x: int, y: int, radius: int) -> bool {
    x * x + y * y > radius * radius
}

/// Where a ray from the origin along `d` stops, looking at its samples from
/// the `n`-th on; the `n`-th sample is `n * step * d`. The ray stops at the
/// first sample that leaves the radius (no hit) or that lies in one of
/// `rects`: then the result is the index of the first such rectangle and the
/// sample. (A valid ray leaves the radius before `n` exceeds it, so the bound
/// on `n` only serves to make the definition terminate.)
pub open spec fn march(rects: Seq<Rect>, d: Point, step: int, radius: int, n: int) -> Option<
    (int, int, int),
>
    decreases radius + 1 - n,
{
    let x = d.x * step * n;
    let y = d.y * step * n;
    if n > radius || outside_radius(x, y, radius) {
        None
    } else {
        match first_rect(rects, x, y) {
            Some(i) => Some((i, x, y)),
            None => march(rects, d, step, radius, n + 1),
        }
    }
}

/// Where a ray along `d` stops: the index of the rectangle it hits and the hit
/// point, or none when it leaves the radius first.
pub open spec fn ray_hit(rects: Seq<Rect>, d: Point, step: int, radius: int) -> Option<
    (int, int, int),
> {
    march(rects, d, step, radius, 1)
}

/// The ray's stop is a hit on tile `j`.
pub open spec fn hit_on(hit: Option<(int, int, int)>, j: int) -> bool {
    match hit {
        Some((i, _, _)) => i == j,
        None => false,
    }
}

/// The segment of tile `j` (with rectangle `r`) that the ray's stop counts on.
pub open spec fn hit_segment(hit: Option<(int, int, int)>, j: int, r: Rect) -> Option<int> {
    match hit {
        Some((i, x, y)) => if i == j {
            segment_of(r, x, y)
        } else {
            None
        },
        None => None,
    }
}

/// How many of the rays along `dirs` hit tile `j`.
pub open spec fn tile_hits(rects: Seq<Rect>, dirs: Seq<Point>, step: int, radius: int, j: int) -> nat
    decreases dirs.len(),
{
    if dirs.len() == 0 {
        0
    } else {
        tile_hits(rects, dirs.drop_last(), step, radius, j) + if hit_on(
            ray_hit(rects, dirs.last(), step, radius),
            j,
        ) {
            1nat
        } else {
            0nat
        }
    }
}

/// How many of the rays along `dirs` are counted on segment `k` of tile `j`.
pub open spec fn segment_hits(
    rects: Seq<Rect>,
    dirs: Seq<Point>,
    step: int,
    radius: int,
    j: int,
    k: int,
) -> nat
    decreases dirs.len(),
{
    if dirs.len() == 0 {
        0
    } else {
        segment_hits(rects, dirs.drop_last(), step, radius, j, k) + if hit_segment(
            ray_hit(rects, dirs.last(), step, radius),
            j,
            rects[j],
        ) == Some(k) {
            1nat
        } else {
            0nat
        }
    }
}

/// `after` is `before` once one ray has stopped at `hit`.
pub open spec fn ray_effect(
    before: Seq<TileLightTracing>,
    after: Seq<TileLightTracing>,
    hit: Option<(int, int, int)>,
) -> bool {
    &&& after.len() == before.len()
    &&& forall|j: int|
        0 <= j < before.len() ==> {
            &&& (#[trigger] after[j]).tile_id == before[j].tile_id
            &&& after[j].rect == before[j].rect
            &&& after[j].hits == before[j].hits + if hit_on(hit, j) {
                1int
            } else {
                0int
            }
            &&& after[j].segment_hits@ == bump_segment(
                before[j].segment_hits@,
                hit_segment(hit, j, before[j].rect),
            )
        }
}

/// `after` is `before` once the rays along `dirs` have been cast: each tile
/// keeps its identity and rectangle and gains the hits those rays leave.
pub open spec fn cast_effect(
    before: Seq<TileLightTracing>,
    after: Seq<TileLightTracing>,
    dirs: Seq<Point>,
    step: int,
    radius: int,
) -> bool {
    &&& after.len() == before.len()
    &&& forall|j: int|
        0 <= j < before.len() ==> {
            &&& (#[trigger] after[j]).tile_id == before[j].tile_id
            &&& after[j].rect == before[j].rect
            &&& after[j].hits == before[j].hits + tile_hits(
                rects_of(before),
                dirs,
                step,
                radius,
                j,
            )
            &&& forall|k: int|
                0 <= k < SEGMENT_COUNT ==> after[j].segment_hits@[k] == before[j].segment_hits@[k]
                    + segment_hits(rects_of(before), dirs, step, radius, j, k)
        }
}

/// Every tile of `tiles` can take `n` more hits and has a proper rectangle.
pub open spec fn room_for(tiles: Seq<TileLightTracing>, n: int) -> bool {
    forall|j: int|
        0 <= j < tiles.len() ==> {
            &&& (#[trigger] tiles[j]).rect.well_formed()
            &&& tiles[j].hits + n <= usize::MAX
            &&& forall|k: int|
                0 <= k < SEGMENT_COUNT ==> tiles[j].segment_hits@[k] + n <= usize::MAX
        }
}

proof fn lemma_square_bound(x: int, y: int, r: int)
    requires
        r >= 0,
        x * x + y * y <= r * r,
    ensures
        -r <= x <= r,
        -r <= y <= r,
{
    assert(y * y >= 0) by (nonlinear_arith);
    assert(x * x >= 0) by (nonlinear_arith);
    if x > r {
        assert(x * x > r * r) by (nonlinear_arith)
            requires
                x > r,
                r >= 0,
        ;
    }
    if x < -r {
        assert(x * x > r * r) by (nonlinear_arith)
            requires
                x < -r,
                r >= 0,
        ;
    }
    if y > r {
        assert(y * y > r * r) by (nonlinear_arith)
            requires
                y > r,
                r >= 0,
        ;
    }
    if y < -r {
        assert(y * y > r * r) by (nonlinear_arith)
            requires
                y < -r,
                r >= 0,
        ;
    }
}

proof fn lemma_far_component(a: int, step: int, n: int, radius: int)
    requires
        a != 0,
        step >= 1,
        0 <= radius < n,
    ensures
        (a * step * n) * (a * step * n) > radius * radius,
{
    let c = a * step * n;
    assert(c >= n || c <= -n) by (nonlinear_arith)
        requires
            a != 0,
            step >= 1,
            n >= 1,
            c == a * step * n,
    ;
    assert(c * c >= n * n) by (nonlinear_arith)
        requires
            c >= n || c <= -n,
            n >= 1,
    ;
    assert(n * n > radius * radius) by (nonlinear_arith)
        requires
            0 <= radius < n,
    ;
}

/// A valid ray has left the radius by the time `n` exceeds it.
pub proof fn lemma_sample_leaves(d: Point, step: int, radius: int, n: int)
    requires
        valid_direction(d),
        step >= 1,
        0 <= radius < n,
    ensures
        outside_radius(d.x * step * n, d.y * step * n, radius),
{
    let x = d.x * step * n;
    let y = d.y * step * n;
    assert(x * x >= 0 && y * y >= 0) by (nonlinear_arith);
    if d.x != 0 {
        lemma_far_component(d.x as int, step, n, radius);
    } else {
        lemma_far_component(d.y as int, step, n, radius);
    }
}

/// Casts one ray along `direction` and records its hit, if any.
fn cast_ray(tiles: &mut Vec<TileLightTracing>, direction: Point, step: i64, radius: i64)
    requires
        valid_direction(direction),
        valid_march(step as int, radius as int),
        room_for(old(tiles)@, 1),
    ensures
        ray_effect(
            old(tiles)@,
            final(tiles)@,
            ray_hit(rects_of(old(tiles)@), direction, step as int, radius as int),
        ),
{
    let ghost before = tiles@;
    let ghost rects = rects_of(before);
    let ghost hit = ray_hit(rects, direction, step as int, radius as int);
    assert(-0x4000_0000 <= direction.x * step <= 0x4000_0000) by (nonlinear_arith)
        requires
            -DIRECTION_LIMIT <= direction.x <= DIRECTION_LIMIT,
            1 <= step <= STEP_LIMIT,
    ;
    assert(-0x4000_0000 <= direction.y * step <= 0x4000_0000) by (nonlinear_arith)
        requires
            -DIRECTION_LIMIT <= direction.y <= DIRECTION_LIMIT,
            1 <= step <= STEP_LIMIT,
    ;
    let dx = direction.x * step;
    let dy = direction.y * step;
    assert(0 <= radius * radius <= 0x1000_0000_0000_0000) by (nonlinear_arith)
        requires
            0 <= radius <= RADIUS_LIMIT,
    ;
    let radius_sq = (radius as i128) * (radius as i128);
    let mut x: i64 = 0;
    let mut y: i64 = 0;
    let ghost mut n: int = 1;
    assert(x == direction.x * step * (n - 1));
    assert(y == direction.y * step * (n - 1));
    loop
        invariant
            tiles@ == before,
            before == old(tiles)@,
            rects == rects_of(before),
            hit == ray_hit(rects, direction, step as int, radius as int),
            room_for(before, 1),
            valid_direction(direction),
            valid_march(step as int, radius as int),
            radius_sq == radius * radius,
            dx == direction.x * step,
            dy == direction.y * step,
            -0x4000_0000 <= dx <= 0x4000_0000,
            -0x4000_0000 <= dy <= 0x4000_0000,
            1 <= n <= radius + 1,
            x == direction.x * step * (n - 1),
            y == direction.y * step * (n - 1),
            -radius <= x <= radius,
            -radius <= y <= radius,
            hit == march(rects, direction, step as int, radius as int, n),
        decreases radius + 1 - n,
    {
        x = x + dx;
        y = y + dy;
        assert(x == direction.x * step * n) by (nonlinear_arith)
            requires
                x == direction.x * step * (n - 1) + direction.x * step,
        ;
        assert(y == direction.y * step * n) by (nonlinear_arith)
            requires
                y == direction.y * step * (n - 1) + direction.y * step,
        ;
        assert(0 <= x * x <= 0x4000_0000_0000_0000) by (nonlinear_arith)
            requires
                -0x8000_0000 <= x <= 0x8000_0000,
        ;
        assert(0 <= y * y <= 0x4000_0000_0000_0000) by (nonlinear_arith)
            requires
                -0x8000_0000 <= y <= 0x8000_0000,
        ;
        let dist_sq = (x as i128) * (x as i128) + (y as i128) * (y as i128);
        if dist_sq > radius_sq {
            assert(hit is None);
            return;
        }
        proof {
            if n > radius {
                lemma_sample_leaves(direction, step as int, radius as int, n);
            }
            lemma_square_bound(x as int, y as int, radius as int);
        }
        let p = Point::new(x, y);
        let ghost first = first_rect(rects, x as int, y as int);
        proof {
            lemma_first_rect_in_range(rects, x as int, y as int, 0);
        }
        match TileLightTracing::find_intersection_mut(tiles, p) {
            Some(t) => {
                let ghost i = first->0;
                assert(before[i] == *t);
                assert(t.can_register() && t.rect.well_formed());
                t.register_hit(p);
                return;
            },
            None => {},
        }
        proof {
            n = n + 1;
        }
    }
}

proof fn lemma_hits_bounded(rects: Seq<Rect>, dirs: Seq<Point>, step: int, radius: int, j: int)
    ensures
        tile_hits(rects, dirs, step, radius, j) <= dirs.len(),
        forall|k: int| #[trigger] segment_hits(rects, dirs, step, radius, j, k) <= dirs.len(),
    decreases dirs.len(),
{
    if dirs.len() > 0 {
        lemma_hits_bounded(rects, dirs.drop_last(), step, radius, j);
    }
    assert forall|k: int| #[trigger] segment_hits(rects, dirs, step, radius, j, k) <= dirs.len() by {
        if dirs.len() > 0 {
            assert(segment_hits(rects, dirs.drop_last(), step, radius, j, k) <= dirs.len() - 1);
        }
    }
}

/// One more ray extends the effect of a prefix of the ray set by one.
proof fn lemma_cast_step(
    before: Seq<TileLightTracing>,
    mid: Seq<TileLightTracing>,
    after: Seq<TileLightTracing>,
    dirs: Seq<Point>,
    r: int,
    step: int,
    radius: int,
)
    requires
        0 <= r < dirs.len(),
        room_for(mid, 1),
        cast_effect(before, mid, dirs.subrange(0, r), step, radius),
        ray_effect(mid, after, ray_hit(rects_of(mid), dirs[r], step, radius)),
    ensures
        cast_effect(before, after, dirs.subrange(0, r + 1), step, radius),
{
    let rects = rects_of(before);
    assert(rects_of(mid) =~= rects);
    let pre = dirs.subrange(0, r);
    let next = dirs.subrange(0, r + 1);
    assert(next.drop_last() =~= pre);
    assert(next.last() == dirs[r]);
    let hit = ray_hit(rects, dirs[r], step, radius);
    assert(ray_hit(rects_of(mid), dirs[r], step, radius) == hit);
    assert forall|j: int| 0 <= j < before.len() implies {
        &&& (#[trigger] after[j]).tile_id == before[j].tile_id
        &&& after[j].rect == before[j].rect
        &&& after[j].hits == before[j].hits + tile_hits(rects, next, step, radius, j)
        &&& forall|k: int|
            0 <= k < SEGMENT_COUNT ==> after[j].segment_hits@[k] == before[j].segment_hits@[k]
                + segment_hits(rects, next, step, radius, j, k)
    } by {
        assert(mid[j].rect == before[j].rect);
        assert(rects[j] == before[j].rect);
        assert(mid[j].rect.well_formed());
        assert forall|k: int| 0 <= k < SEGMENT_COUNT implies after[j].segment_hits@[k]
            == before[j].segment_hits@[k] + segment_hits(rects, next, step, radius, j, k) by {
            assert(mid[j].segment_hits@.len() == SEGMENT_COUNT);
            let hs = hit_segment(hit, j, before[j].rect);
            if let Some((i, x, y)) = hit {
                if i == j {
                    lemma_segment_in_range(before[j].rect, x, y, 0);
                }
            }
            assert(hs matches Some(k0) ==> 0 <= k0 < SEGMENT_COUNT);
            if hs == Some(k) {
                assert(after[j].segment_hits@[k] == mid[j].segment_hits@[k] + 1);
            } else {
                assert(after[j].segment_hits@[k] == mid[j].segment_hits@[k]);
            }
        }
    }
}

/// Casts a ray along each of `directions`, in order, marching each by `step`
/// times its direction until it leaves `radius` or lands in a tile; each
/// landing counts as a hit on the first tile, in sequence order, that holds
/// the sample. Tiles are in coordinates centred on the light.
pub fn cast_rays(tiles: &mut Vec<TileLightTracing>, directions: &Vec<Point>, step: i64, radius: i64)
    requires
        valid_march(step as int, radius as int),
        forall|r: int| 0 <= r < directions@.len() ==> valid_direction(#[trigger] directions@[r]),
        room_for(old(tiles)@, directions@.len() as int),
    ensures
        cast_effect(old(tiles)@, final(tiles)@, directions@, step as int, radius as int),
{
    let ghost before = tiles@;
    let ghost n = directions@.len() as int;
    let mut r: usize = 0;
    assert(directions@.subrange(0, 0).len() == 0);
    while r < directions.len()
        invariant
            before == old(tiles)@,
            n == directions@.len(),
            r <= n,
            valid_march(step as int, radius as int),
            forall|q: int| 0 <= q < n ==> valid_direction(#[trigger] directions@[q]),
            room_for(before, n),
            cast_effect(before, tiles@, directions@.subrange(0, r as int), step as int, radius as int),
        decreases n - r,
    {
        let ghost mid = tiles@;
        proof {
            assert forall|j: int| 0 <= j < mid.len() implies {
                &&& (#[trigger] mid[j]).rect.well_formed()
                &&& mid[j].hits + 1 <= usize::MAX
                &&& forall|k: int|
                    0 <= k < SEGMENT_COUNT ==> mid[j].segment_hits@[k] + 1 <= usize::MAX
            } by {
                lemma_hits_bounded(rects_of(before), directions@.subrange(0, r as int), step as int, radius as int, j);
                assert(before[j].rect.well_formed());
            }
            assert(room_for(mid, 1));
        }
        cast_ray(tiles, directions[r], step, radius);
        proof {
            lemma_cast_step(before, mid, tiles@, directions@, r as int, step as int, radius as int);
        }
        r += 1;
    }
    assert(directions@.subrange(0, n) =~= directions@);
}

/// Casting one ray set over one set of tiles always leaves the same counts:
/// two casts from the same tiles agree on every tile's hits and segment
/// counts, hence on its segment mask.
pub proof fn lemma_cast_deterministic(
    tiles: Seq<TileLightTracing>,
    a: Seq<TileLightTracing>,
    b: Seq<TileLightTracing>,
    dirs: Seq<Point>,
    step: int,
    radius: int,
)
    requires
        cast_effect(tiles, a, dirs, step, radius),
        cast_effect(tiles, b, dirs, step, radius),
    ensures
        a.len() == b.len(),
        forall|j: int|
            0 <= j < a.len() ==> (#[trigger] a[j]).hits == b[j].hits && a[j].segment_hits@
                == b[j].segment_hits@ && mask_of(a[j].segment_hits@) == mask_of(b[j].segment_hits@),
{
    assert forall|j: int| 0 <= j < a.len() implies (#[trigger] a[j]).hits == b[j].hits
        && a[j].segment_hits@ == b[j].segment_hits@ && mask_of(a[j].segment_hits@) == mask_of(
        b[j].segment_hits@,
    ) by {
        assert(a[j].segment_hits@ =~= b[j].segment_hits@);
    }
}

/// Casting the same ray set a second time over the tiles it has already lit
/// changes no tile's segment mask and no tile's light shape: the rays land
/// where they landed before.
pub proof fn lemma_recast_keeps_shapes(
    tiles: Seq<TileLightTracing>,
    once: Seq<TileLightTracing>,
    twice: Seq<TileLightTracing>,
    dirs: Seq<Point>,
    step: int,
    radius: int,
)
    requires
        cast_effect(tiles, once, dirs, step, radius),
        cast_effect(once, twice, dirs, step, radius),
    ensures
        twice.len() == once.len(),
        forall|j: int|
            0 <= j < once.len() ==> mask_of((#[trigger] twice[j]).segment_hits@) == mask_of(
                once[j].segment_hits@,
            ) && classify(twice[j].hits as nat, mask_of(twice[j].segment_hits@)) == classify(
                once[j].hits as nat,
                mask_of(once[j].segment_hits@),
            ),
{
    assert(rects_of(once) =~= rects_of(tiles));
    assert forall|j: int| 0 <= j < once.len() implies mask_of((#[trigger] twice[j]).segment_hits@)
        == mask_of(once[j].segment_hits@) && classify(
        twice[j].hits as nat,
        mask_of(twice[j].segment_hits@),
    ) == classify(once[j].hits as nat, mask_of(once[j].segment_hits@)) by {
        assert(mask_of(twice[j].segment_hits@) =~= mask_of(once[j].segment_hits@));
    }
}

} // verus!
