//! Per-tile art variants, drawn once when a level is set up.

use vstd::prelude::*;
use crate::resources::Level;

verus! {

/// The art variants chosen for one tile.
#[derive(Clone, Copy, Debug, PartialEq, Eq, Structural)]
pub struct TileConfiguration {
    pub tile_id: usize,
    pub side: usize,
    pub corner: usize,
}

/// The art variants of every tile of a level, indexed by tile id.
#[derive(Debug)]
pub struct LevelConfiguration {
    pub tiles: Vec<TileConfiguration>,
}

/// Relies on rand::thread_rng and rand::Rng::gen_range: a uniform draw from
/// `[0, bound)`; gen_range panics when the range is empty.
#[verifier::external_body]
fn random_below(bound: usize) -> (r: usize)
    requires
        bound > 0,
    ensures
        r < bound,
{
    rand::Rng::gen_range(&mut rand::thread_rng(), 0, bound)
}

impl LevelConfiguration {
    /// Entry `i` configures tile `i`.
    pub open spec fn indexed(&self) -> bool {
        forall|i: int| 0 <= i < self.tiles@.len() ==> (#[trigger] self.tiles@[i]).tile_id == i
    }

    /// Every variant lies below its count.
    pub open spec fn within(&self, side_count: int, corner_count: int) -> bool {
        forall|i: int|
            0 <= i < self.tiles@.len() ==> (#[trigger] self.tiles@[i]).side < side_count
                && self.tiles@[i].corner < corner_count
    }

    /// The configuration that gives tile `i` the side and corner variants
    /// `variants[i]`.
    pub fn from_variants(variants: &Vec<(usize, usize)>) -> (r: Self)
        ensures
            r.tiles@.len() == variants@.len(),
            r.indexed(),
            forall|i: int|
                0 <= i < variants@.len() ==> (#[trigger] r.tiles@[i]).side == variants@[i].0
                    && r.tiles@[i].corner == variants@[i].1,
    {
        let mut tiles: Vec<TileConfiguration> = Vec::new();
        let mut tile_id: usize = 0;
        while tile_id < variants.len()
            invariant
                tile_id <= variants@.len(),
                tiles@.len() == tile_id,
                forall|i: int|
                    0 <= i < tile_id ==> (#[trigger] tiles@[i]).tile_id == i && tiles@[i].side
                        == variants@[i].0 && tiles@[i].corner == variants@[i].1,
            decreases variants.len() - tile_id,
        {
            let (side, corner) = variants[tile_id];
            tiles.push(TileConfiguration { tile_id, side, corner });
            tile_id += 1;
        }
        Self { tiles }
    }

    /// A configuration for every cell of `level`, each variant drawn uniformly
    /// at random below its count.
    pub fn new(level: &Level, side_count: usize, corner_count: usize) -> (r: Self)
        requires
            side_count > 0,
            corner_count > 0,
        ensures
            r.tiles@.len() == level.walls@.len(),
            r.indexed(),
            r.within(side_count as int, corner_count as int),
    {
        let mut variants: Vec<(usize, usize)> = Vec::new();
        let mut i: usize = 0;
        while i < level.walls.len()
            invariant
                side_count > 0,
                corner_count > 0,
                i <= level.walls@.len(),
                variants@.len() == i,
                forall|k: int|
                    0 <= k < i ==> (#[trigger] variants@[k]).0 < side_count && variants@[k].1
                        < corner_count,
            decreases level.walls.len() - i,
        {
            let side = random_below(side_count);
            let corner = random_below(corner_count);
            variants.push((side, corner));
            i += 1;
        }
        Self::from_variants(&variants)
    }

    pub fn get_side(&self, tile_id: usize) -> (r: usize)
        requires
            tile_id < self.tiles@.len(),
        ensures
            r == self.tiles@[tile_id as int].side,
    {
        self.tiles[tile_id].side
    }

    pub fn get_corner(&self, tile_id: usize) -> (r: usize)
        requires
            tile_id < self.tiles@.len(),
        ensures
            r == self.tiles@[tile_id as int].corner,
    {
        self.tiles[tile_id].corner
    }
}

} // verus!
