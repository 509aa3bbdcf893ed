//! Per-tile light tracing state: the eight perimeter segments of a tile, the
//! hits recorded on them, and the light shape those hits select.

use vstd::prelude::*;
use crate::geometry::{box_contains, Point, Rect};

verus! {

/// Number of perimeter segments of a tile.
pub const SEGMENT_COUNT: usize = 8;

/// Column (0 to 2) of segment `k` in the tile's 3 by 3 grid. Segments run
/// clockwise from the top-left cell: top-left, top, top-right, right,
/// bottom-right, bottom, bottom-left, left.
pub open spec fn segment_col(k: int) -> int {
    if k == 0 || k == 6 || k == 7 {
        0
    } else if k == 1 || k == 5 {
        1
    } else {
        2
    }
}

/// Row (0 to 2) of segment `k` in the tile's 3 by 3 grid.
pub open spec fn segment_row(k: int) -> int {
    if k <= 2 {
        0
    } else if k == 3 || k == 7 {
        1
    } else {
        2
    }
}

/// Segment `k` of rectangle `r` holds `(px, py)`, its border included.
pub open spec fn segment_contains(r: Rect, k: int, px: int, py: int) -> bool {
    let cw = r.w / 3;
    let ch = r.h / 3;
    box_contains(r.x + cw * segment_col(k), r.y + ch * segment_row(k), cw, ch, px, py)
}

/// The first segment, from `k` on, that holds `(px, py)`.
pub open spec fn first_segment_from(r: Rect, px: int, py: int, k: int) -> Option<int>
    decreases 8 - k,
{
    if k >= 8 {
        None
    } else if segment_contains(r, k, px, py) {
        Some(k)
    } else {
        first_segment_from(r, px, py, k + 1)
    }
}

/// The segment of `r` that a hit at `(px, py)` is counted on: the first that
/// holds the point, or none when only the centre cell does.
pub open spec fn segment_of(r: Rect, px: int, py: int) -> Option<int> {
    first_segment_from(r, px, py, 0)
}

/// A segment found by the search is one of the eight, at or after its start.
pub proof fn lemma_segment_in_range(r: Rect, px: int, py: int, k: int)
    ensures
        match first_segment_from(r, px, py, k) {
            Some(s) => k <= s < 8,
            None => true,
        },
    decreases 8 - k,
{
    if k < 8 && !segment_contains(r, k, px, py) {
        lemma_segment_in_range(r, px, py, k + 1);
    }
}

/// `counts` with one more hit on segment `s`, if any.
pub open spec fn bump_segment(counts: Seq<usize>, s: Option<int>) -> Seq<usize> {
    match s {
        Some(k) => counts.update(k, (counts[k] + 1) as usize),
        None => counts,
    }
}

/// Which segments were hit at least once.
pub open spec fn mask_of(counts: Seq<usize>) -> Seq<bool> {
    Seq::new(counts.len(), |i: int| counts[i] > 0)
}

/// An edge of the tile is lit when the middle segment of its side is hit, or
/// both of its corners are.
pub open spec fn edge_lit(corner_a: bool, middle: bool, corner_b: bool) -> bool {
    middle || (corner_a && corner_b)
}

pub open spec fn up_lit(m: Seq<bool>) -> bool {
    edge_lit(m[0], m[1], m[2])
}

pub open spec fn right_lit(m: Seq<bool>) -> bool {
    edge_lit(m[2], m[3], m[4])
}

pub open spec fn down_lit(m: Seq<bool>) -> bool {
    edge_lit(m[6], m[5], m[4])
}

pub open spec fn left_lit(m: Seq<bool>) -> bool {
    edge_lit(m[0], m[7], m[6])
}

/// The light shape of a tile whose segments are hit as `m` says and which was
/// hit `hits` times in all. Whole edges decide first; only when they match no
/// shape do the four corner segments decide.
pub open spec fn classify(hits: nat, m: Seq<bool>) -> TileLightState {
    if hits == 0 {
        TileLightState::Unlit
    } else {
        match (up_lit(m), right_lit(m), down_lit(m), left_lit(m)) {
            (true, false, false, false) => TileLightState::Up,
            (false, true, false, false) => TileLightState::Right,
            (false, false, true, false) => TileLightState::Down,
            (false, false, false, true) => TileLightState::Left,
            (true, true, false, false) => TileLightState::UpRightBig,
            (false, true, true, false) => TileLightState::DownRightBig,
            (false, false, true, true) => TileLightState::DownLeftBig,
            (true, false, false, true) => TileLightState::UpLeftBig,
            (true, false, true, false) => TileLightState::Full,
            (false, true, false, true) => TileLightState::Full,
            _ => classify_corners(m[0], m[2], m[4], m[6]),
        }
    }
}

/// The shape chosen by the corner segments alone: top-left, top-right,
/// bottom-right, bottom-left. One corner gives its small corner shape; failing
/// that, two opposite corners both lit give the full shape.
pub open spec fn classify_corners(tl: bool, tr: bool, br: bool, bl: bool) -> TileLightState {
    match (tl, tr, br, bl) {
        (true, false, false, false) => TileLightState::UpLeftSmall,
        (false, true, false, false) => TileLightState::UpRightSmall,
        (false, false, true, false) => TileLightState::DownRightSmall,
        (false, false, false, true) => TileLightState::DownLeftSmall,
        _ => if (tl && br) || (tr && bl) {
            TileLightState::Full
        } else {
            TileLightState::Unlit
        },
    }
}

/// The rectangles of a sequence of tiles.
pub open spec fn rects_of(tiles: Seq<TileLightTracing>) -> Seq<Rect> {
    tiles.map_values(|t: TileLightTracing| t.rect)
}

/// The first rectangle, from index `i` on, that holds `(px, py)`.
pub open spec fn first_rect_from(rects: Seq<Rect>, px: int, py: int, i: int) -> Option<int>
    decreases rects.len() - i,
{
    if i < 0 || i >= rects.len() {
        None
    } else if rects[i].spec_contains(px, py) {
        Some(i)
    } else {
        first_rect_from(rects, px, py, i + 1)
    }
}

/// Index of the first rectangle that holds `(px, py)`.
pub open spec fn first_rect(rects: Seq<Rect>, px: int, py: int) -> Option<int> {
    first_rect_from(rects, px, py, 0)
}

/// A rectangle found by the search lies at or after its start and holds the
/// point.
pub proof fn lemma_first_rect_in_range(rects: Seq<Rect>, px: int, py: int, i: int)
    ensures
        match first_rect_from(rects, px, py, i) {
            Some(k) => 0 <= i <= k < rects.len() && rects[k].spec_contains(px, py),
            None => true,
        },
    decreases rects.len() - i,
{
    if 0 <= i < rects.len() && !rects[i].spec_contains(px, py) {
        lemma_first_rect_in_range(rects, px, py, i + 1);
    }
}

/// `t` moved so that `(ox, oy)` becomes the origin.
pub open spec fn moved_tile(t: TileLightTracing, ox: int, oy: int) -> TileLightTracing {
    TileLightTracing { rect: Rect { x: (t.rect.x - ox) as i64, y: (t.rect.y - oy) as i64, ..t.rect }, ..t }
}

/// Which segments of a tile were hit.
#[derive(Debug)]
pub struct SegmentPalette {
    pub palette: [bool; SEGMENT_COUNT],
}

impl SegmentPalette {
    pub fn new(segment_hits: &[usize; SEGMENT_COUNT]) -> (r: Self)
        ensures
            r.palette@ == mask_of(segment_hits@),
    {
        let palette: [bool; SEGMENT_COUNT] = [
            segment_hits[0] > 0,
            segment_hits[1] > 0,
            segment_hits[2] > 0,
            segment_hits[3] > 0,
            segment_hits[4] > 0,
            segment_hits[5] > 0,
            segment_hits[6] > 0,
            segment_hits[7] > 0,
        ];
        let r = Self { palette };
        assert(r.palette@ =~= mask_of(segment_hits@));
        r
    }

    pub fn is_up(&self) -> (r: bool)
        ensures
            r == up_lit(self.palette@),
    {
        let p = self.palette;
        false || (p[0] && p[1] && !p[2]) || (p[0] && !p[1] && p[2]) || (!p[0] && p[1] && !p[2])
            || (!p[0] && p[1] && p[2]) || (p[0] && p[1] && p[2])
    }

    pub fn is_right(&self) -> (r: bool)
        ensures
            r == right_lit(self.palette@),
    {
        let p = self.palette;
        false || (p[2] && p[3] && !p[4]) || (p[2] && !p[3] && p[4]) || (!p[2] && p[3] && !p[4])
            || (!p[2] && p[3] && p[4]) || (p[2] && p[3] && p[4])
    }

    pub fn is_down(&self) -> (r: bool)
        ensures
            r == down_lit(self.palette@),
    {
        let p = self.palette;
        false || (p[6] && p[5] && !p[4]) || (p[6] && !p[5] && p[4]) || (!p[6] && p[5] && !p[4])
            || (!p[6] && p[5] && p[4]) || (p[6] && p[5] && p[4])
    }

    pub fn is_left(&self) -> (r: bool)
        ensures
            r == left_lit(self.palette@),
    {
        let p = self.palette;
        false || (p[0] && p[7] && !p[6]) || (p[0] && !p[7] && p[6]) || (!p[0] && p[7] && !p[6])
            || (!p[0] && p[7] && p[6]) || (p[0] && p[7] && p[6])
    }

    /// Top-left corner segment.
    pub fn is_corner0(&self) -> (r: bool)
        ensures
            r == self.palette@[0],
    {
        self.palette[0]
    }

    /// Top-right corner segment.
    pub fn is_corner1(&self) -> (r: bool)
        ensures
            r == self.palette@[2],
    {
        self.palette[2]
    }

    /// Bottom-right corner segment.
    pub fn is_corner2(&self) -> (r: bool)
        ensures
            r == self.palette@[4],
    {
        self.palette[4]
    }

    /// Bottom-left corner segment.
    pub fn is_corner3(&self) -> (r: bool)
        ensures
            r == self.palette@[6],
    {
        self.palette[6]
    }
}

/// The light shape a tile shows.
#[derive(Clone, Copy, Debug, PartialEq, Eq, Structural)]
pub enum TileLightState {
    Unlit,
    Up,
    Right,
    Down,
    Left,
    UpLeftSmall,
    UpRightSmall,
    DownLeftSmall,
    DownRightSmall,
    UpLeftBig,
    UpRightBig,
    DownLeftBig,
    DownRightBig,
    Full,
}

/// A wall tile taking part in one frame's light pass.
#[derive(Clone, Copy, Debug)]
pub struct TileLightTracing {
    pub tile_id: usize,
    pub rect: Rect,
    pub hits: usize,
    pub segment_hits: [usize; SEGMENT_COUNT],
}

impl TileLightTracing {
    /// The tile's counters can take one more hit.
    pub open spec fn can_register(self) -> bool {
        &&& self.hits < usize::MAX
        &&& forall|k: int| 0 <= k < 8 ==> self.segment_hits@[k] < usize::MAX
    }

    /// The tile's corner stays representable when `(ox, oy)` becomes the origin.
    pub open spec fn can_move(self, ox: int, oy: int) -> bool {
        &&& i64::MIN <= self.rect.x - ox <= i64::MAX
        &&& i64::MIN <= self.rect.y - oy <= i64::MAX
    }

    /// A tile `width` by `height` centred on `position`, with no hits yet.
    pub fn new(tile_id: usize, position: Point, width: i64, height: i64) -> (r: Self)
        requires
            width >= 0,
            height >= 0,
            position.x - width / 2 >= i64::MIN,
            position.y - height / 2 >= i64::MIN,
        ensures
            r.tile_id == tile_id,
            r.rect == (Rect {
                x: (position.x - width / 2) as i64,
                y: (position.y - height / 2) as i64,
                w: width,
                h: height,
            }),
            r.hits == 0,
            r.segment_hits@ == seq![0usize; 8],
    {
        let rect = Rect::new(position.x - width / 2, position.y - height / 2, width, height);
        let r = Self { tile_id, rect, hits: 0, segment_hits: [0; SEGMENT_COUNT] };
        assert(r.segment_hits@ =~= seq![0usize; 8]);
        r
    }

    /// Counts a hit at `point`: once on the tile, and once on the first of its
    /// segments that holds the point, if any.
    pub fn register_hit(&mut self, point: Point)
        requires
            old(self).can_register(),
            old(self).rect.well_formed(),
        ensures
            final(self).tile_id == old(self).tile_id,
            final(self).rect == old(self).rect,
            final(self).hits == old(self).hits + 1,
            final(self).segment_hits@ == bump_segment(
                old(self).segment_hits@,
                segment_of(old(self).rect, point.x as int, point.y as int),
            ),
    {
        self.hits += 1;
        let w = self.rect.w / 3;
        let h = self.rect.h / 3;
        let ghost px = point.x as int;
        let ghost py = point.y as int;
        let mut segment_id: usize = 0;
        let mut found = false;
        while segment_id < SEGMENT_COUNT && !found
            invariant
                segment_id <= SEGMENT_COUNT,
                px == point.x,
                py == point.y,
                w == self.rect.w / 3,
                h == self.rect.h / 3,
                self.rect.well_formed(),
                self.tile_id == old(self).tile_id,
                self.rect == old(self).rect,
                self.hits == old(self).hits + 1,
                old(self).can_register(),
                found ==> self.segment_hits@ == bump_segment(
                    old(self).segment_hits@,
                    segment_of(self.rect, px, py),
                ),
                !found ==> self.segment_hits@ == old(self).segment_hits@,
                !found ==> segment_of(self.rect, px, py) == first_segment_from(
                    self.rect,
                    px,
                    py,
                    segment_id as int,
                ),
            decreases SEGMENT_COUNT - segment_id + (if found { 0int } else { 1int }),
        {
            let (col, row): (i128, i128) = if segment_id == 0 {
                (0, 0)
            } else if segment_id == 1 {
                (1, 0)
            } else if segment_id == 2 {
                (2, 0)
            } else if segment_id == 3 {
                (2, 1)
            } else if segment_id == 4 {
                (2, 2)
            } else if segment_id == 5 {
                (1, 2)
            } else if segment_id == 6 {
                (0, 2)
            } else {
                (0, 1)
            };
            assert(col == segment_col(segment_id as int) && row == segment_row(segment_id as int));
            let x = self.rect.x as i128 + (w as i128) * col;
            let y = self.rect.y as i128 + (h as i128) * row;
            assert(x == self.rect.x + w * segment_col(segment_id as int)) by (nonlinear_arith)
                requires
                    x == self.rect.x as i128 + (w as i128) * col,
                    col == segment_col(segment_id as int);
            assert(y == self.rect.y + h * segment_row(segment_id as int)) by (nonlinear_arith)
                requires
                    y == self.rect.y as i128 + (h as i128) * row,
                    row == segment_row(segment_id as int);
            let px_e = point.x as i128;
            let py_e = point.y as i128;
            let in_cols = x <= px_e && px_e <= x + (w as i128);
            let in_rows = y <= py_e && py_e <= y + (h as i128);
            assert((in_cols && in_rows) == segment_contains(self.rect, segment_id as int, px, py));
            assert(first_segment_from(self.rect, px, py, segment_id as int) == if in_cols
                && in_rows {
                Some(segment_id as int)
            } else {
                first_segment_from(self.rect, px, py, segment_id + 1)
            });
            if in_cols && in_rows {
                self.segment_hits[segment_id] = self.segment_hits[segment_id] + 1;
                found = true;
            } else {
                segment_id += 1;
            }
        }
    }

    /// The first tile, in sequence order, whose rectangle holds `point`.
    pub fn find_intersection_mut(tiles: &mut Vec<Self>, point: Point) -> (r: Option<&mut Self>)
        ensures
            match r {
                Some(t) => exists|i: int|
                    first_rect(rects_of(old(tiles)@), point.x as int, point.y as int) == Some(i)
                        && *t == old(tiles)@[i] && final(tiles)@ == old(tiles)@.update(i, *final(t)),
                None => first_rect(rects_of(old(tiles)@), point.x as int, point.y as int) is None
                    && final(tiles)@ == old(tiles)@,
            },
    {
        let ghost rects = rects_of(tiles@);
        let mut i: usize = 0;
        while i < tiles.len()
            invariant
                tiles@ == old(tiles)@,
                rects == rects_of(old(tiles)@),
                i <= tiles.len(),
                first_rect(rects, point.x as int, point.y as int) == first_rect_from(
                    rects,
                    point.x as int,
                    point.y as int,
                    i as int,
                ),
            decreases tiles.len() - i,
        {
            assert(rects[i as int] == tiles@[i as int].rect);
            if tiles[i].rect.contains(point) {
                return Some(&mut tiles[i]);
            }
            i += 1;
        }
        None
    }

    /// Moves every tile so that `origin` becomes the origin.
    pub fn set_origin(tiles: &mut Vec<Self>, origin: Point)
        requires
            forall|i: int|
                0 <= i < old(tiles)@.len() ==> #[trigger] old(tiles)@[i].can_move(
                    origin.x as int,
                    origin.y as int,
                ),
        ensures
            final(tiles)@.len() == old(tiles)@.len(),
            forall|i: int|
                0 <= i < old(tiles)@.len() ==> final(tiles)@[i] == moved_tile(
                    old(tiles)@[i],
                    origin.x as int,
                    origin.y as int,
                ),
    {
        let mut i: usize = 0;
        while i < tiles.len()
            invariant
                i <= tiles@.len(),
                tiles@.len() == old(tiles)@.len(),
                forall|j: int|
                    0 <= j < i ==> tiles@[j] == moved_tile(
                        old(tiles)@[j],
                        origin.x as int,
                        origin.y as int,
                    ),
                forall|j: int| i <= j < tiles@.len() ==> tiles@[j] == old(tiles)@[j],
                forall|j: int|
                    0 <= j < old(tiles)@.len() ==> #[trigger] old(tiles)@[j].can_move(
                        origin.x as int,
                        origin.y as int,
                    ),
            decreases tiles.len() - i,
        {
            assert(old(tiles)@[i as int].can_move(origin.x as int, origin.y as int));
            let mut tile = tiles[i];
            tile.rect.x = tile.rect.x - origin.x;
            tile.rect.y = tile.rect.y - origin.y;
            tiles[i] = tile;
            i += 1;
        }
    }

    /// The light shape that the hits recorded so far select.
    pub fn get_light_state(&self) -> (r: TileLightState)
        ensures
            self.hits == 0 ==> r == TileLightState::Unlit,
            r == classify(self.hits as nat, mask_of(self.segment_hits@)),
    {
        if self.hits == 0 {
            return TileLightState::Unlit;
        }
        let palette = SegmentPalette::new(&self.segment_hits);

        let up = palette.is_up();
        let right = palette.is_right();
        let down = palette.is_down();
        let left = palette.is_left();

        if up && !right && !down && !left {
            return TileLightState::Up;
        }
        if !up && right && !down && !left {
            return TileLightState::Right;
        }
        if !up && !right && down && !left {
            return TileLightState::Down;
        }
        if !up && !right && !down && left {
            return TileLightState::Left;
        }

        if up && right && !down && !left {
            return TileLightState::UpRightBig;
        }
        if !up && right && down && !left {
            return TileLightState::DownRightBig;
        }
        if !up && !right && down && left {
            return TileLightState::DownLeftBig;
        }
        if up && !right && !down && left {
            return TileLightState::UpLeftBig;
        }

        if up && !right && down && !left {
            return TileLightState::Full;
        }
        if !up && right && !down && left {
            return TileLightState::Full;
        }

        let c0 = palette.is_corner0();
        let c1 = palette.is_corner1();
        let c2 = palette.is_corner2();
        let c3 = palette.is_corner3();

        if c0 && !c1 && !c2 && !c3 {
            return TileLightState::UpLeftSmall;
        }
        if !c0 && c1 && !c2 && !c3 {
            return TileLightState::UpRightSmall;
        }
        if !c0 && !c1 && c2 && !c3 {
            return TileLightState::DownRightSmall;
        }
        if !c0 && !c1 && !c2 && c3 {
            return TileLightState::DownLeftSmall;
        }

        if c0 && c2 {
            return TileLightState::Full;
        }
        if c1 && c3 {
            return TileLightState::Full;
        }

        TileLightState::Unlit
    }
}

} // verus!
