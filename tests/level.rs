use ludum_dare_45::geometry::Point;
use ludum_dare_45::level_configuration::LevelConfiguration;
use ludum_dare_45::lighting::TileLightTracing;
use ludum_dare_45::resources::{
    Level, PickUpEffect, PickUpState, ResourceKey, SceneStep, Transition, TransitionList,
    TransitionType, Wall,
};
use ludum_dare_45::sprites::{DoorArt, SpriteDraw, TileArt};

fn small_level() -> Level {
    Level {
        walls: vec![Wall::S, Wall::N, Wall::B0H, Wall::S, Wall::D2V, Wall::N],
        width: 3,
        height: 2,
        key: "a".to_string(),
    }
}

#[test]
fn wall_kinds() {
    assert!(Wall::N.is_empty() && !Wall::N.is_wall() && !Wall::N.is_door());
    assert!(!Wall::S.is_empty() && Wall::S.is_wall() && !Wall::S.is_door());
    for door in [Wall::B0H, Wall::B1H, Wall::B0V, Wall::B1V, Wall::D0H, Wall::D1H, Wall::D2H, Wall::D0V, Wall::D1V, Wall::D2V] {
        assert!(door.is_door() && !door.is_wall() && !door.is_empty());
    }
}

#[test]
fn level_cells_are_row_major() {
    let level = small_level();
    assert_eq!(level.get(0, 0), Wall::S);
    assert_eq!(level.get(2, 0), Wall::B0H);
    assert_eq!(level.get(1, 1), Wall::D2V);
    assert_eq!(level.get(2, 1), Wall::N);
}

#[test]
fn level_offset_centres_the_grid() {
    let level = small_level();
    assert_eq!(level.get_offset(Point::new(960, 540), (32, 32)), Point::new(912, 508));
    assert_eq!(level.get_offset(Point::new(0, 0), (5, 3)), Point::new(-7, -3));
}

#[test]
fn configuration_from_variants() {
    let config = LevelConfiguration::from_variants(&vec![(3, 1), (0, 0), (7, 2)]);
    assert_eq!(config.tiles.len(), 3);
    assert_eq!(config.tiles[2].tile_id, 2);
    assert_eq!(config.get_side(0), 3);
    assert_eq!(config.get_corner(0), 1);
    assert_eq!(config.get_side(2), 7);
    assert_eq!(config.get_corner(2), 2);
}

#[test]
fn configuration_draws_within_counts() {
    let level = small_level();
    let config = LevelConfiguration::new(&level, 8, 2);
    assert_eq!(config.tiles.len(), 6);
    for (i, t) in config.tiles.iter().enumerate() {
        assert_eq!(t.tile_id, i);
        assert!(t.side < 8 && t.corner < 2);
    }
    // With one variant each, every draw must be zero.
    let single = LevelConfiguration::new(&level, 1, 1);
    assert!(single.tiles.iter().all(|t| t.side == 0 && t.corner == 0));
}

#[test]
fn draw_plan_for_shapes() {
    let config = LevelConfiguration::from_variants(&vec![(4, 1)]);
    let mut tile = TileLightTracing::new(0, Point::new(16, 16), 32, 32);
    assert!(tile.draw_plan(&config).is_empty());
    tile.hits = 1;
    tile.segment_hits = [0, 0, 0, 1, 0, 0, 0, 0];
    assert_eq!(
        tile.draw_plan(&config),
        vec![SpriteDraw { art: TileArt::TileUp, variant: 4, rotation: 90, center: Point::new(16, 16) }]
    );
    tile.segment_hits = [1, 0, 0, 0, 0, 0, 0, 0];
    assert_eq!(
        tile.draw_plan(&config),
        vec![SpriteDraw { art: TileArt::CornerSmall, variant: 1, rotation: 90, center: Point::new(16, 16) }]
    );
    tile.segment_hits = [0, 1, 0, 0, 0, 1, 0, 0];
    assert_eq!(
        tile.draw_plan(&config),
        vec![
            SpriteDraw { art: TileArt::TileUp, variant: 4, rotation: 0, center: Point::new(16, 16) },
            SpriteDraw { art: TileArt::TileDown, variant: 4, rotation: 0, center: Point::new(16, 16) },
        ]
    );
    tile.segment_hits = [0, 0, 0, 0, 0, 1, 0, 1];
    assert_eq!(
        tile.draw_plan(&config),
        vec![SpriteDraw { art: TileArt::CornerBig, variant: 1, rotation: 180, center: Point::new(16, 16) }]
    );
}

#[test]
fn door_sprites() {
    assert_eq!(Wall::B0H.door_sprite(), Some((DoorArt::Door2Part0, 0)));
    assert_eq!(Wall::B1V.door_sprite(), Some((DoorArt::Door2Part1, 90)));
    assert_eq!(Wall::D2H.door_sprite(), Some((DoorArt::Door3Part2, 0)));
    assert_eq!(Wall::D0V.door_sprite(), Some((DoorArt::Door3Part0, 90)));
    assert_eq!(Wall::S.door_sprite(), None);
    assert_eq!(Wall::N.door_sprite(), None);
}

fn playthrough() -> TransitionList {
    let t = |name: &str, transition_type| Transition { name: name.to_string(), transition_type };
    TransitionList {
        transitions: vec![
            t("intro", TransitionType::ToScreen),
            t("one", TransitionType::ToLevel),
            t("two", TransitionType::ToLevel),
        ],
        current_n: 0,
    }
}

#[test]
fn scenes_advance_then_start_over() {
    let mut list = playthrough();
    assert_eq!(list.next_scene(), SceneStep::Push(1));
    assert_eq!(list.current_n, 1);
    assert_eq!(list.next_scene(), SceneStep::Replace(2));
    assert_eq!(list.next_scene(), SceneStep::Pop);
    assert_eq!(list.current_n, 0);
    list.current_n = 2;
    list.reset_scenes();
    assert_eq!(list.current_n, 0);
}

#[test]
fn pick_ups_change_the_player() {
    let start = PickUpState { light_radius: 40, shards_collected: 0, are_doors_activated: false };
    let lit = PickUpEffect::IncreasePlayerLightRadius.apply(start, 100, 2);
    assert_eq!(lit, PickUpState { light_radius: 100, ..start });
    let one = PickUpEffect::ActivateDoors.apply(start, 100, 2);
    assert_eq!(one, PickUpState { light_radius: 40, shards_collected: 1, are_doors_activated: false });
    let two = PickUpEffect::ActivateDoors.apply(one, 100, 2);
    assert_eq!(two, PickUpState { light_radius: 40, shards_collected: 2, are_doors_activated: true });
}

#[test]
fn resource_key_keeps_the_path() {
    assert_eq!(ResourceKey::from_path("/images/a.png"), ResourceKey::Path("/images/a.png".to_string()));
}
