use drill_above::assets::{Assets, Sprites, TileSprites};
use drill_above::geom::{IVec2, UVec2, Vec2};
use drill_above::room::{Room, RoomLayer};
use drill_above::rules::{DrillRules, JumpRules, Rules, TileRules};
use drill_above::tilemap::{index_to_pos, pos_to_index, TileMap};
use drill_above::tileset::{check_template, get_tile_uv, Connection, ConnectionFilter, Image, TileSet, TileSetConfig};

fn any_set(n: usize) -> TileSet {
    let size = UVec2 { x: n, y: 1 };
    TileSet {
        config: TileSetConfig {
            size,
            tiles: (0..n).map(|i| ([ConnectionFilter::Any; 8], get_tile_uv(i, size))).collect(),
        },
    }
}

fn rules() -> Rules {
    Rules {
        gravity: Vec2 { x: 0, y: -40 * 16000 },
        move_speed: 6 * 16000,
        acceleration: 50 * 16000,
        deceleration: 30 * 16000,
        jump_buffer_time: 100_000,
        coyote_time: 100_000,
        edge_correction_max: 4000,
        free_fall_speed: 20 * 16000,
        wall_slide_speed: 4 * 16000,
        jump: JumpRules {
            normal_push: 0,
            normal_strength: 12 * 16000,
            wall_strength: 12 * 16000,
            wall_angle: 0,
            wall_timeout: 100_000,
            fall_multiplier: 2 * 16000,
            low_multiplier: 2 * 16000,
        },
        drill: DrillRules {
            can_dash: true,
            release_time: 100_000,
            speed_min: 10 * 16000,
            speed_inc: 16000,
            dash_time: 200_000,
            dash_speed_min: 12 * 16000,
            dash_speed_inc: 16000,
            jump_speed_min: 12 * 16000,
            jump_speed_inc: 16000,
        },
        tiles: vec![
            ("air".to_string(), TileRules::default()),
            ("stone".to_string(), TileRules::default()),
            ("dirt".to_string(), TileRules { drillable: true, ..TileRules::default() }),
        ],
    }
}

fn assets() -> Assets {
    Assets {
        sprites: Sprites {
            tiles: TileSprites {
                mask: any_set(1),
                tiles: vec![
                    ("air".to_string(), any_set(2)),
                    ("stone".to_string(), any_set(3)),
                    ("dirt".to_string(), any_set(3)),
                ],
            },
        },
        rules: rules(),
    }
}

fn tile_at(map: &TileMap, x: isize, y: isize) -> Option<String> {
    map.get_tile_isize(IVec2 { x, y }).cloned()
}

#[test]
fn new_map_is_air() {
    let map = TileMap::new(UVec2 { x: 3, y: 2 });
    assert_eq!(map.tiles.len(), 6);
    assert!(map.tiles.iter().all(|t| t == "air"));
    assert!(map.geometry().is_none());
    assert_eq!(tile_at(&map, 2, 1), Some("air".to_string()));
    assert_eq!(tile_at(&map, 3, 0), None);
    assert_eq!(tile_at(&map, -1, 0), None);
}

#[test]
fn set_tile_places_and_shapes() {
    let assets = assets();
    let mut map = TileMap::new(UVec2 { x: 3, y: 3 });
    map.set_tile(UVec2 { x: 1, y: 2 }, "stone".to_string(), &assets);
    assert_eq!(tile_at(&map, 1, 2), Some("stone".to_string()));
    assert_eq!(map.tiles[7], "stone");
    assert!(map.get_tile_index(7) < 3);
    assert_eq!(map.get_tile_index(7), map.geometry().unwrap()[7]);
    // Every cell got an image index within its own tile set.
    let geometry = map.geometry().expect("geometry chosen");
    assert_eq!(geometry.len(), 9);
    for (i, g) in geometry.iter().enumerate() {
        let limit = if i == 7 { 3 } else { 2 };
        assert!(*g < limit);
    }
    // Outside the map nothing changes.
    map.set_tile(UVec2 { x: 5, y: 0 }, "stone".to_string(), &assets);
    assert_eq!(map.tiles.iter().filter(|t| *t == "stone").count(), 1);
}

#[test]
fn geometry_varies_only_within_the_set() {
    let assets = assets();
    let mut map = TileMap::new(UVec2 { x: 8, y: 8 });
    map.update_geometry(&assets);
    let geometry = map.geometry().unwrap();
    assert!(geometry.iter().all(|g| *g < 2));
}

#[test]
fn change_size_keeps_bottom_left() {
    let assets = assets();
    let mut map = TileMap::new(UVec2 { x: 3, y: 3 });
    map.set_tile(UVec2 { x: 0, y: 0 }, "stone".to_string(), &assets);
    map.set_tile(UVec2 { x: 2, y: 2 }, "dirt".to_string(), &assets);
    map.change_size(UVec2 { x: 2, y: 4 }, &assets);
    assert_eq!(map.size, UVec2 { x: 2, y: 4 });
    assert_eq!(map.tiles.len(), 8);
    assert_eq!(tile_at(&map, 0, 0), Some("stone".to_string()));
    assert!(map.tiles.iter().all(|t| t != "dirt"));
    assert_eq!(tile_at(&map, 1, 3), Some("air".to_string()));
}

#[test]
fn translate_there_and_back() {
    let assets = assets();
    let mut map = TileMap::new(UVec2 { x: 4, y: 3 });
    map.set_tile(UVec2 { x: 1, y: 1 }, "stone".to_string(), &assets);
    map.set_tile(UVec2 { x: 3, y: 0 }, "dirt".to_string(), &assets);
    map.translate(IVec2 { x: 1, y: 0 }, &assets);
    assert_eq!(tile_at(&map, 2, 1), Some("stone".to_string()));
    assert_eq!(tile_at(&map, 0, 1), Some("air".to_string()));
    // The dirt left the map.
    assert!(map.tiles.iter().all(|t| t != "dirt"));
    map.translate(IVec2 { x: -1, y: 0 }, &assets);
    assert_eq!(tile_at(&map, 1, 1), Some("stone".to_string()));
    assert_eq!(tile_at(&map, 3, 0), Some("air".to_string()));
}

#[test]
fn index_conversions() {
    assert_eq!(pos_to_index(UVec2 { x: 2, y: 3 }, 5), Some(17));
    assert_eq!(pos_to_index(UVec2 { x: 5, y: 0 }, 5), None);
    assert_eq!(index_to_pos(17, 5), UVec2 { x: 2, y: 3 });
}

#[test]
fn connections_of_a_tile() {
    let rules = rules();
    let mut tiles = vec!["air".to_string(); 9];
    tiles[4] = "stone".to_string();
    tiles[5] = "stone".to_string();
    tiles[1] = "dirt".to_string();
    let map = TileMap::from_parts(UVec2 { x: 3, y: 3 }, tiles, None);
    let c = map.get_tile_connections(4, None, &rules);
    // Neighbours counter-clockwise from the bottom-left one.
    assert_eq!(c[0], Connection::Empty);
    assert_eq!(c[1], Connection::Other);
    assert_eq!(c[3], Connection::Same);
    assert_eq!(c[7], Connection::Empty);
}

#[test]
fn filters_from_template_colors() {
    assert_eq!(ConnectionFilter::from_color([255, 0, 255, 255]), Some(ConnectionFilter::Filled));
    assert_eq!(ConnectionFilter::from_color([255, 255, 255, 255]), Some(ConnectionFilter::Empty));
    assert_eq!(ConnectionFilter::from_color([0, 255, 0, 255]), Some(ConnectionFilter::Any));
    assert_eq!(ConnectionFilter::from_color([0, 0, 255, 255]), Some(ConnectionFilter::Same));
    assert_eq!(ConnectionFilter::from_color([0, 0, 0, 255]), Some(ConnectionFilter::Other));
    assert_eq!(ConnectionFilter::from_color([10, 20, 30, 0]), None);
    assert!(ConnectionFilter::Filled.matches(Connection::Other));
    assert!(!ConnectionFilter::Filled.matches(Connection::Empty));
    assert!(!ConnectionFilter::Same.matches(Connection::Other));
    assert!(ConnectionFilter::Other.matches(Connection::Empty));
}

#[test]
fn connected_tiles_are_listed_exactly() {
    let mut set = any_set(3);
    set.config.tiles[1].0 = [ConnectionFilter::Empty; 8];
    let all_empty = [Connection::Empty; 8];
    let mut one_same = all_empty;
    one_same[2] = Connection::Same;
    assert_eq!(set.get_tile_connected(all_empty), vec![0, 1, 2]);
    assert_eq!(set.get_tile_connected(one_same), vec![0, 2]);
}

#[test]
fn tile_uv_coordinates() {
    let uv = get_tile_uv(5, UVec2 { x: 4, y: 2 });
    assert_eq!(uv[0], Vec2 { x: 4000, y: 8000 });
    assert_eq!(uv[2], Vec2 { x: 8000, y: 16000 });
}

#[test]
fn generate_config_from_template() {
    // One tile of 3x3 pixels with a 1-pixel border: the middle pixel marks the
    // tile, the ring around it gives the filters.
    let w = 3u32;
    let h = 3u32;
    let mut pixels = vec![[0u8, 255, 0, 255]; (w * h) as usize];
    pixels[4] = [0, 0, 0, 0];
    let image = Image { width: w, height: h, pixels };
    let config = TileSetConfig::generate_from(&image, UVec2 { x: 1, y: 1 });
    assert_eq!(config.size, UVec2 { x: 1, y: 1 });
    assert_eq!(config.tiles.len(), 1);
    assert_eq!(config.tiles[0].0, [ConnectionFilter::Any; 8]);
}

#[test]
fn renaming_a_tile_type() {
    let assets = assets();
    let mut map = TileMap::new(UVec2 { x: 2, y: 2 });
    map.set_tile(UVec2 { x: 1, y: 0 }, "stone".to_string(), &assets);
    map.rename_tile(&"stone".to_string(), &"rock".to_string());
    assert_eq!(tile_at(&map, 1, 0), Some("rock".to_string()));
    assert_eq!(tile_at(&map, 0, 0), Some("air".to_string()));
    // Tiles the assets do not know cannot be shaped.
    assert!(!map.can_shape(&assets));
    map.rename_tile(&"rock".to_string(), &"dirt".to_string());
    assert!(map.can_shape(&assets));
}

#[test]
fn room_size_changes_only_when_possible() {
    let assets = assets();
    let mut room = Room::new(UVec2 { x: 3, y: 3 });
    assert!(room.try_change_size(UVec2 { x: 5, y: 2 }, &assets));
    assert_eq!(room.size, UVec2 { x: 5, y: 2 });
    assert_eq!(room.layers.main.tiles.tiles.len(), 10);
}

#[test]
fn lower_neighbours_are_drawn_masked_under_a_tile() {
    let mut assets = assets();
    assets.rules.tiles[2].1.layer = 1;
    let mut map = TileMap::new(UVec2 { x: 3, y: 1 });
    map.set_tile(UVec2 { x: 0, y: 0 }, "stone".to_string(), &assets);
    map.set_tile(UVec2 { x: 1, y: 0 }, "dirt".to_string(), &assets);
    let plan = map.draw_plan(&assets);
    let seen: Vec<(usize, &str, Option<usize>)> = plan.iter().map(|d| (d.cell, d.tile.as_str(), d.mask)).collect();
    assert_eq!(seen, vec![(0, "stone", None), (1, "stone", Some(0)), (1, "dirt", None)]);
    assert_eq!(plan[1].image, 0);
    let g = map.geometry().expect("the images are chosen");
    assert_eq!(plan[0].image, g[0]);
    assert_eq!(plan[2].image, g[1]);
}

#[test]
fn corner_normals_follow_the_air_around() {
    let rules = rules();
    let mut tiles = vec!["air".to_string(); 9];
    tiles[4] = "stone".to_string();
    tiles[5] = "stone".to_string();
    tiles[1] = "dirt".to_string();
    let map = TileMap::from_parts(UVec2 { x: 3, y: 3 }, tiles, None);
    assert_eq!(
        map.get_tile_normals(4, &rules),
        [IVec2 { x: -1, y: 0 }, IVec2 { x: 1, y: -1 }, IVec2 { x: 0, y: 1 }, IVec2 { x: -1, y: 1 }]
    );
    // Solid all round but for the left: the corners beside it lean along the wall.
    let mut tiles = vec!["stone".to_string(); 9];
    tiles[3] = "air".to_string();
    let map = TileMap::from_parts(UVec2 { x: 3, y: 3 }, tiles, None);
    assert_eq!(
        map.get_tile_normals(4, &rules),
        [IVec2 { x: -1, y: 1 }, IVec2 { x: 0, y: 0 }, IVec2 { x: 0, y: 0 }, IVec2 { x: -1, y: -1 }]
    );
}

#[test]
fn light_stops_at_air_and_lower_layers() {
    let mut rules = rules();
    rules.tiles[2].1.layer = -1;
    let mut tiles = vec!["air".to_string(); 9];
    tiles[4] = "stone".to_string();
    tiles[5] = "stone".to_string();
    tiles[1] = "dirt".to_string();
    let layer = RoomLayer { tiles: TileMap::from_parts(UVec2 { x: 3, y: 3 }, tiles, None), props: vec![] };
    assert_eq!(
        layer.calculate_light_geometry(&rules),
        vec![(1, 1), (1, 3), (4, 0), (4, 2), (4, 3), (5, 0), (5, 2)]
    );
}

#[test]
fn templates_with_unknown_colors_are_refused() {
    let mut pixels = vec![[0u8, 255, 0, 255]; 9];
    pixels[4] = [0, 0, 0, 0];
    let good = Image { width: 3, height: 3, pixels: pixels.clone() };
    assert!(check_template(&good, UVec2 { x: 1, y: 1 }));
    assert!(TileSetConfig::try_generate_from(&good, UVec2 { x: 1, y: 1 }).is_some());
    // A grey corner is no filter color.
    pixels[0] = [128, 128, 128, 255];
    let bad = Image { width: 3, height: 3, pixels };
    assert!(!check_template(&bad, UVec2 { x: 1, y: 1 }));
    assert!(TileSetConfig::try_generate_from(&bad, UVec2 { x: 1, y: 1 }).is_none());
    // More tiles than pixels, or pixels missing, are refused too.
    assert!(!check_template(&good, UVec2 { x: 4, y: 1 }));
    let short = Image { width: 3, height: 3, pixels: vec![[0u8, 255, 0, 255]; 8] };
    assert!(!check_template(&short, UVec2 { x: 1, y: 1 }));
    assert!(ConnectionFilter::color_known([128, 128, 128, 0]));
    assert!(!ConnectionFilter::color_known([128, 128, 128, 1]));
}

#[test]
fn assets_list_each_tile_once() {
    let mut a = assets();
    assert!(a.check_well_formed());
    a.rules.tiles.push(("stone".to_string(), TileRules::default()));
    assert!(!a.check_well_formed());
}
