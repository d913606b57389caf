use std::collections::HashMap;

use rust_craft_2d::basic::{Cube, GameObjType, PlayerInfo};
use rust_craft_2d::cube::reg_cube;
use rust_craft_2d::save::{load_player_bar, load_player_map, save_player_bar, save_player_map, SavedGameMap, SavedGamePlayerBar};

fn flat_world() -> HashMap<i32, HashMap<i32, Cube>> {
    let mut info = PlayerInfo {
        player_map: HashMap::new(),
        is_controlling: true,
        is_paused: false,
        is_creative_mode: false,
        player_bar: [(None, 0); 5],
        player_bar_select_index: 0,
        game_save: "w".to_string(),
        player_map_seed: -1,
    };
    reg_cube(&mut info, 0, &Vec::new());
    info.player_map
}

#[test]
fn saved_map_lists_every_block_once() {
    let world = flat_world();
    let saved = save_player_map(&world);
    assert_eq!(saved.cube_pos.len(), 25 * 64);
    assert_eq!(saved.cube_type.len(), saved.cube_pos.len());
    let mut seen = std::collections::HashSet::new();
    for (p, t) in saved.cube_pos.iter().zip(saved.cube_type.iter()) {
        assert!(seen.insert(*p));
        let expected = match p[1] {
            0 => "GrassCube",
            -3..=-1 => "SoilCube",
            _ => "StoneCube",
        };
        assert_eq!(t, expected);
    }
}

#[test]
fn map_save_load_round_trip() {
    let mut world = flat_world();
    world.get_mut(&3).unwrap().insert(5, Cube::StoneBrick);
    world.get_mut(&3).unwrap().remove(&0);
    let loaded = load_player_map(&save_player_map(&world));
    assert_eq!(loaded, world);
}

#[test]
fn empty_columns_are_not_saved() {
    let mut world = HashMap::new();
    world.insert(1, HashMap::new());
    let mut column = HashMap::new();
    column.insert(2, Cube::Plank);
    world.insert(7, column);
    let saved = save_player_map(&world);
    assert_eq!(saved.cube_pos, vec![[7, 2]]);
    let loaded = load_player_map(&saved);
    assert_eq!(loaded.len(), 1);
    assert_eq!(loaded.get(&7).unwrap().get(&2), Some(&Cube::Plank));
}

#[test]
fn later_entries_win_on_load() {
    let saved = SavedGameMap {
        cube_pos: vec![[0, 0], [1, 2], [0, 0]],
        cube_type: vec!["Plank".to_string(), "SoilCube".to_string(), "StoneBrick".to_string()],
    };
    let loaded = load_player_map(&saved);
    assert_eq!(loaded.len(), 2);
    assert_eq!(loaded.get(&0).unwrap().get(&0), Some(&Cube::StoneBrick));
    assert_eq!(loaded.get(&1).unwrap().get(&2), Some(&Cube::SoilCube));
}

#[test]
fn bar_save_load_round_trip() {
    let bar = [
        (Some(GameObjType::Cube(Cube::Plank)), -1),
        (None, 0),
        (Some(GameObjType::Cube(Cube::GrassCube)), 63),
        (Some(GameObjType::Cube(Cube::StoneBrick)), 1),
        (None, 0),
    ];
    let saved = save_player_bar(&bar, 2);
    assert_eq!(saved.player_bar_items[0], "Plank");
    assert_eq!(saved.player_bar_items[1], "None");
    assert_eq!(saved.player_bar_items_count, [-1, 0, 63, 1, 0]);
    assert_eq!(saved.player_bar_select_index, 2);
    assert_eq!(load_player_bar(&saved), bar);
}

#[test]
fn bar_loads_from_written_ids() {
    let saved = SavedGamePlayerBar {
        player_bar_items: [
            "StoneCube".to_string(),
            "None".to_string(),
            "SoilCube".to_string(),
            "None".to_string(),
            "GrassCube".to_string(),
        ],
        player_bar_items_count: [5, 0, 64, 0, -1],
        player_bar_select_index: 4,
    };
    let bar = load_player_bar(&saved);
    assert_eq!(bar[0], (Some(GameObjType::Cube(Cube::StoneCube)), 5));
    assert_eq!(bar[1], (None, 0));
    assert_eq!(bar[4], (Some(GameObjType::Cube(Cube::GrassCube)), -1));
}
