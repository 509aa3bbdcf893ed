//! Level data: the wall grid, entities placed in it, and the list of scenes a
//! playthrough goes through.

use vstd::prelude::*;
use crate::geometry::Point;

verus! {

/// The key an asset is stored under: its path inside the game's resource
/// directory, such as `/images/walls/a/tile-0.0.png`.
#[derive(Clone, Debug, PartialEq, Eq, Hash)]
pub enum ResourceKey {
    Path(String),
}

impl ResourceKey {
    pub fn from_path(p: &str) -> (r: Self)
        ensures
            r matches ResourceKey::Path(s) && s@ == p@,
    {
        ResourceKey::Path(p.to_owned())
    }
}

/// One cell of a level grid.
#[derive(Clone, Copy, Debug, PartialEq, Eq, Structural)]
pub enum Wall {
    /// Nothing: an empty, walkable cell.
    N,
    /// Solid wall.
    S,
    /// Horizontal 2x1 door, first and second cell.
    B0H,
    B1H,
    /// Vertical 2x1 door.
    B0V,
    B1V,
    /// Horizontal 3x1 door.
    D0H,
    D1H,
    D2H,
    /// Vertical 3x1 door.
    D0V,
    D1V,
    D2V,
}

impl Wall {
    pub open spec fn spec_is_empty(self) -> bool {
        self is N
    }

    pub open spec fn spec_is_wall(self) -> bool {
        self is S
    }

    /// Every cell that is neither empty nor solid is part of a door.
    pub open spec fn spec_is_door(self) -> bool {
        !(self is N) && !(self is S)
    }

    pub fn is_empty(&self) -> (r: bool)
        ensures
            r == self.spec_is_empty(),
    {
        match self {
            Self::N => true,
            Self::S => false,
            Self::B0H => false,
            Self::B1H => false,
            Self::B0V => false,
            Self::B1V => false,
            Self::D0H => false,
            Self::D1H => false,
            Self::D2H => false,
            Self::D0V => false,
            Self::D1V => false,
            Self::D2V => false,
        }
    }

    pub fn is_wall(&self) -> (r: bool)
        ensures
            r == self.spec_is_wall(),
    {
        match self {
            Self::N => false,
            Self::S => true,
            Self::B0H => false,
            Self::B1H => false,
            Self::B0V => false,
            Self::B1V => false,
            Self::D0H => false,
            Self::D1H => false,
            Self::D2H => false,
            Self::D0V => false,
            Self::D1V => false,
            Self::D2V => false,
        }
    }

    pub fn is_door(&self) -> (r: bool)
        ensures
            r == self.spec_is_door(),
    {
        match self {
            Self::N => false,
            Self::S => false,
            Self::B0H => true,
            Self::B1H => true,
            Self::B0V => true,
            Self::B1V => true,
            Self::D0H => true,
            Self::D1H => true,
            Self::D2H => true,
            Self::D0V => true,
            Self::D1V => true,
            Self::D2V => true,
        }
    }
}

/// A level: `width` by `height` cells stored row by row, and the key that
/// names its art set.
#[derive(Debug)]
pub struct Level {
    pub walls: Vec<Wall>,
    pub width: usize,
    pub height: usize,
    pub key: String,
}

impl Level {
    /// The grid holds exactly one cell per column and row.
    pub open spec fn well_formed(&self) -> bool {
        self.walls@.len() == self.width * self.height
    }

    /// The cell in column `x` of row `y`.
    pub open spec fn cell(&self, x: int, y: int) -> Wall {
        self.walls@[self.width * y + x]
    }

    pub fn get(&self, x: usize, y: usize) -> (r: Wall)
        requires
            self.width * y + x < self.walls@.len(),
        ensures
            r == self.cell(x as int, y as int),
    {
        let len = self.walls.len();
        assert(self.width * y + x < len);
        self.walls[self.width * y + x]
    }

    /// The top-left corner at which the level is drawn so that its centre is at
    /// `screen_center`, with tiles `tile_size.0` wide and `tile_size.1` high.
    pub fn get_offset(&self, screen_center: Point, tile_size: (i64, i64)) -> (r: Point)
        requires
            0 <= tile_size.0,
            0 <= tile_size.1,
            self.width * tile_size.0 <= i64::MAX,
            self.height * tile_size.1 <= i64::MAX,
            i64::MIN <= screen_center.x - (self.width * tile_size.0) / 2,
            i64::MIN <= screen_center.y - (self.height * tile_size.1) / 2,
        ensures
            r.x == screen_center.x - (self.width * tile_size.0) / 2,
            r.y == screen_center.y - (self.height * tile_size.1) / 2,
    {
        assert(self.width * tile_size.0 >= 0) by (nonlinear_arith)
            requires
                tile_size.0 >= 0,
        ;
        assert(self.height * tile_size.1 >= 0) by (nonlinear_arith)
            requires
                tile_size.1 >= 0,
        ;
        let level_width = ((self.width as i128) * (tile_size.0 as i128)) as i64;
        let level_height = ((self.height as i128) * (tile_size.1 as i128)) as i64;
        Point::new(screen_center.x - level_width / 2, screen_center.y - level_height / 2)
    }
}

/// The kinds of pick-up placed in a level.
#[derive(Clone, Copy, Debug, PartialEq, Eq, Structural)]
pub enum EntityType {
    Shard0,
    Shard1,
    Shard2,
    Shard3,
    Shard4,
}

/// What picking up an entity does.
#[derive(Clone, Copy, Debug, PartialEq, Eq, Structural)]
pub enum PickUpEffect {
    IncreasePlayerLightRadius,
    ActivateDoors,
}

/// The player's state that pick-ups change.
#[derive(Clone, Copy, Debug, PartialEq, Eq, Structural)]
pub struct PickUpState {
    pub light_radius: i64,
    pub shards_collected: usize,
    pub are_doors_activated: bool,
}

impl PickUpEffect {
    /// The state after picking up an entity with this effect: a light pick-up
    /// sets the radius to `full_radius`; a shard counts one more and activates
    /// the doors once `shards_needed` are collected (activated doors stay so).
    pub fn apply(&self, state: PickUpState, full_radius: i64, shards_needed: usize) -> (r: PickUpState)
        requires
            state.shards_collected < usize::MAX,
        ensures
            *self == PickUpEffect::IncreasePlayerLightRadius ==> r == (PickUpState {
                light_radius: full_radius,
                ..state
            }),
            *self == PickUpEffect::ActivateDoors ==> r == (PickUpState {
                light_radius: state.light_radius,
                shards_collected: (state.shards_collected + 1) as usize,
                are_doors_activated: state.are_doors_activated || state.shards_collected + 1
                    >= shards_needed,
            }),
    {
        let mut next = state;
        match self {
            PickUpEffect::IncreasePlayerLightRadius => {
                next.light_radius = full_radius;
            },
            PickUpEffect::ActivateDoors => {
                next.shards_collected = next.shards_collected + 1;
                if next.shards_collected >= shards_needed {
                    next.are_doors_activated = true;
                }
            },
        }
        next
    }
}

/// Whether a scene of a playthrough is a level or a still or animated screen.
#[derive(Clone, Copy, Debug, PartialEq, Eq, Structural)]
pub enum TransitionType {
    ToLevel,
    ToScreen,
}

/// One scene of a playthrough.
#[derive(Clone, Debug)]
pub struct Transition {
    pub name: String,
    pub transition_type: TransitionType,
}

/// The scenes of a playthrough, in order, and the one being shown.
#[derive(Debug)]
pub struct TransitionList {
    pub transitions: Vec<Transition>,
    pub current_n: usize,
}

/// How the scene stack changes when a scene ends.
#[derive(Clone, Copy, Debug, PartialEq, Eq, Structural)]
pub enum SceneStep {
    /// Leave the playthrough: back to the scene below it.
    Pop,
    /// Push the scene of the given transition on top of the first one.
    Push(usize),
    /// Replace the current scene with the scene of the given transition.
    Replace(usize),
}

impl TransitionList {
    /// Moves to the next scene. After the last one the list starts over and
    /// the playthrough is left; leaving the first scene pushes the next one on
    /// top of it; any later scene is replaced by the next.
    pub fn next_scene(&mut self) -> (r: SceneStep)
        requires
            old(self).current_n < old(self).transitions@.len(),
        ensures
            final(self).transitions@ == old(self).transitions@,
            old(self).current_n + 1 == old(self).transitions@.len() ==> r == SceneStep::Pop
                && final(self).current_n == 0,
            old(self).current_n + 1 < old(self).transitions@.len() ==> final(self).current_n
                == old(self).current_n + 1 && r == if old(self).current_n == 0 {
                SceneStep::Push((old(self).current_n + 1) as usize)
            } else {
                SceneStep::Replace((old(self).current_n + 1) as usize)
            },
    {
        let count = self.transitions.len();
        if self.current_n + 1 == count {
            self.reset_scenes();
            return SceneStep::Pop;
        }
        let is_main = self.current_n == 0;
        self.current_n = self.current_n + 1;
        if is_main {
            SceneStep::Push(self.current_n)
        } else {
            SceneStep::Replace(self.current_n)
        }
    }

    /// Starts the playthrough over.
    pub fn reset_scenes(&mut self)
        ensures
            final(self).transitions@ == old(self).transitions@,
            final(self).current_n == 0,
    {
        self.current_n = 0;
    }
}

} // verus!
