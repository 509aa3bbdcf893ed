//! What the renderer draws for a lit tile or a door cell: which art, which
//! variant, turned by how much, and where.

use vstd::prelude::*;
use crate::geometry::Point;
use crate::level_configuration::LevelConfiguration;
use crate::lighting::{classify, mask_of, TileLightState, TileLightTracing};
use crate::resources::Wall;

verus! {

/// The art sets a lit wall tile is drawn from.
#[derive(Clone, Copy, Debug, PartialEq, Eq, Structural)]
pub enum TileArt {
    /// Light along the tile's top edge.
    TileUp,
    /// Light along the tile's bottom edge.
    TileDown,
    /// Light in one corner.
    CornerSmall,
    /// Light along two adjacent edges.
    CornerBig,
}

/// The art of one cell of a door.
#[derive(Clone, Copy, Debug, PartialEq, Eq, Structural)]
pub enum DoorArt {
    Door2Part0,
    Door2Part1,
    Door3Part0,
    Door3Part1,
    Door3Part2,
}

/// One sprite: art set, variant within the set, clockwise rotation in degrees,
/// and the point the sprite's centre is drawn at.
#[derive(Clone, Copy, Debug, PartialEq, Eq, Structural)]
pub struct SpriteDraw {
    pub art: TileArt,
    pub variant: usize,
    pub rotation: u32,
    pub center: Point,
}

/// The sprites, in drawing order, that show light shape `state`: edge art
/// takes the side variant, corner art the corner variant.
pub open spec fn shape_sprites(state: TileLightState, side: usize, corner: usize) -> Seq<
    (TileArt, usize, u32),
> {
    match state {
        TileLightState::Unlit => seq![],
        TileLightState::Up => seq![(TileArt::TileUp, side, 0u32)],
        TileLightState::Right => seq![(TileArt::TileUp, side, 90u32)],
        TileLightState::Down => seq![(TileArt::TileDown, side, 0u32)],
        TileLightState::Left => seq![(TileArt::TileDown, side, 90u32)],
        TileLightState::UpLeftSmall => seq![(TileArt::CornerSmall, corner, 90u32)],
        TileLightState::UpRightSmall => seq![(TileArt::CornerSmall, corner, 180u32)],
        TileLightState::DownLeftSmall => seq![(TileArt::CornerSmall, corner, 0u32)],
        TileLightState::DownRightSmall => seq![(TileArt::CornerSmall, corner, 270u32)],
        TileLightState::UpLeftBig => seq![(TileArt::CornerBig, corner, 270u32)],
        TileLightState::UpRightBig => seq![(TileArt::CornerBig, corner, 0u32)],
        TileLightState::DownLeftBig => seq![(TileArt::CornerBig, corner, 180u32)],
        TileLightState::DownRightBig => seq![(TileArt::CornerBig, corner, 90u32)],
        TileLightState::Full => seq![(TileArt::TileUp, side, 0u32), (TileArt::TileDown, side, 0u32)],
    }
}

/// The art and clockwise rotation of a door cell; none for other cells.
pub open spec fn door_art(wall: Wall) -> Option<(DoorArt, u32)> {
    match wall {
        Wall::B0H => Some((DoorArt::Door2Part0, 0u32)),
        Wall::B1H => Some((DoorArt::Door2Part1, 0u32)),
        Wall::B0V => Some((DoorArt::Door2Part0, 90u32)),
        Wall::B1V => Some((DoorArt::Door2Part1, 90u32)),
        Wall::D0H => Some((DoorArt::Door3Part0, 0u32)),
        Wall::D1H => Some((DoorArt::Door3Part1, 0u32)),
        Wall::D2H => Some((DoorArt::Door3Part2, 0u32)),
        Wall::D0V => Some((DoorArt::Door3Part0, 90u32)),
        Wall::D1V => Some((DoorArt::Door3Part1, 90u32)),
        Wall::D2V => Some((DoorArt::Door3Part2, 90u32)),
        _ => None,
    }
}

impl Wall {
    /// The art and rotation a door cell is drawn with; none for a cell that is
    /// not part of a door.
    pub fn door_sprite(&self) -> (r: Option<(DoorArt, u32)>)
        ensures
            r == door_art(*self),
            r is Some <==> self.spec_is_door(),
    {
        match self {
            Wall::B0H => Some((DoorArt::Door2Part0, 0)),
            Wall::B1H => Some((DoorArt::Door2Part1, 0)),
            Wall::B0V => Some((DoorArt::Door2Part0, 90)),
            Wall::B1V => Some((DoorArt::Door2Part1, 90)),
            Wall::D0H => Some((DoorArt::Door3Part0, 0)),
            Wall::D1H => Some((DoorArt::Door3Part1, 0)),
            Wall::D2H => Some((DoorArt::Door3Part2, 0)),
            Wall::D0V => Some((DoorArt::Door3Part0, 90)),
            Wall::D1V => Some((DoorArt::Door3Part1, 90)),
            Wall::D2V => Some((DoorArt::Door3Part2, 90)),
            _ => None,
        }
    }
}

impl TileLightTracing {
    /// The centre of the tile's rectangle.
    pub open spec fn spec_center(self) -> (int, int) {
        (self.rect.x + self.rect.w / 2, self.rect.y + self.rect.h / 2)
    }

    /// The sprites that show this tile's light shape, with the tile's
    /// variants from `level_configuration`, each centred on the tile.
    pub fn draw_plan(&self, level_configuration: &LevelConfiguration) -> (r: Vec<SpriteDraw>)
        requires
            self.tile_id < level_configuration.tiles@.len(),
            self.rect.well_formed(),
            self.rect.x + self.rect.w / 2 <= i64::MAX,
            self.rect.y + self.rect.h / 2 <= i64::MAX,
        ensures
            ({
                let plan = shape_sprites(
                    classify(self.hits as nat, mask_of(self.segment_hits@)),
                    level_configuration.tiles@[self.tile_id as int].side,
                    level_configuration.tiles@[self.tile_id as int].corner,
                );
                &&& r@.len() == plan.len()
                &&& forall|k: int|
                    0 <= k < plan.len() ==> (#[trigger] r@[k]).art == plan[k].0 && r@[k].variant
                        == plan[k].1 && r@[k].rotation == plan[k].2 && r@[k].center.x
                        == self.spec_center().0 && r@[k].center.y == self.spec_center().1
            }),
    {
        let state = self.get_light_state();
        let side_n = level_configuration.get_side(self.tile_id);
        let corner_n = level_configuration.get_corner(self.tile_id);
        let center = Point::new(self.rect.x + self.rect.w / 2, self.rect.y + self.rect.h / 2);
        let mut plan: Vec<SpriteDraw> = Vec::new();
        match state {
            TileLightState::Unlit => {},
            TileLightState::Up => {
                plan.push(SpriteDraw { art: TileArt::TileUp, variant: side_n, rotation: 0, center });
            },
            TileLightState::Right => {
                plan.push(SpriteDraw { art: TileArt::TileUp, variant: side_n, rotation: 90, center });
            },
            TileLightState::Down => {
                plan.push(SpriteDraw { art: TileArt::TileDown, variant: side_n, rotation: 0, center });
            },
            TileLightState::Left => {
                plan.push(SpriteDraw { art: TileArt::TileDown, variant: side_n, rotation: 90, center });
            },
            TileLightState::UpLeftSmall => {
                plan.push(SpriteDraw { art: TileArt::CornerSmall, variant: corner_n, rotation: 90, center });
            },
            TileLightState::UpRightSmall => {
                plan.push(SpriteDraw { art: TileArt::CornerSmall, variant: corner_n, rotation: 180, center });
            },
            TileLightState::DownLeftSmall => {
                plan.push(SpriteDraw { art: TileArt::CornerSmall, variant: corner_n, rotation: 0, center });
            },
            TileLightState::DownRightSmall => {
                plan.push(SpriteDraw { art: TileArt::CornerSmall, variant: corner_n, rotation: 270, center });
            },
            TileLightState::UpLeftBig => {
                plan.push(SpriteDraw { art: TileArt::CornerBig, variant: corner_n, rotation: 270, center });
            },
            TileLightState::UpRightBig => {
                plan.push(SpriteDraw { art: TileArt::CornerBig, variant: corner_n, rotation: 0, center });
            },
            TileLightState::DownLeftBig => {
                plan.push(SpriteDraw { art: TileArt::CornerBig, variant: corner_n, rotation: 180, center });
            },
            TileLightState::DownRightBig => {
                plan.push(SpriteDraw { art: TileArt::CornerBig, variant: corner_n, rotation: 90, center });
            },
            TileLightState::Full => {
                plan.push(SpriteDraw { art: TileArt::TileUp, variant: side_n, rotation: 0, center });
                plan.push(SpriteDraw { art: TileArt::TileDown, variant: side_n, rotation: 0, center });
            },
        }
        plan
    }
}

} // verus!
