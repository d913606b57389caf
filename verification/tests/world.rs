use std::collections::HashMap;

use rust_craft_2d::basic::{Cube, GameObjType, PlayerInfo};
use rust_craft_2d::cube::{init_perlin, kept_on_refresh, player_cube, reg_cube, spawn_cube, CubeCommand, MouseAction};
use rust_craft_2d::game_map::generate_column;
use rust_craft_2d::player::ground_below;

fn info_with(map: HashMap<i32, HashMap<i32, Cube>>, seed: i32, creative: bool) -> PlayerInfo {
    let n: isize = if creative { -1 } else { 2 };
    PlayerInfo {
        player_map: map,
        is_controlling: true,
        is_paused: false,
        is_creative_mode: creative,
        player_bar: [
            (Some(GameObjType::Cube(Cube::Plank)), n),
            (Some(GameObjType::Cube(Cube::GrassCube)), n),
            (None, 0),
            (Some(GameObjType::Player), 3),
            (Some(GameObjType::Cube(Cube::StoneBrick)), 1),
        ],
        player_bar_select_index: 0,
        game_save: "default".to_string(),
        player_map_seed: seed,
    }
}

fn cell(info: &PlayerInfo, x: i32, y: i32) -> Option<Cube> {
    info.player_map.get(&x).and_then(|c| c.get(&y)).copied()
}

#[test]
fn flat_column() {
    let col = generate_column(0);
    assert_eq!(col.len(), 64);
    for y in -63..-3 {
        assert_eq!(col.get(&y), Some(&Cube::StoneCube));
    }
    for y in -3..0 {
        assert_eq!(col.get(&y), Some(&Cube::SoilCube));
    }
    assert_eq!(col.get(&0), Some(&Cube::GrassCube));
    assert_eq!(col.get(&1), None);
    assert_eq!(col.get(&-64), None);
}

#[test]
fn raised_and_sunken_columns() {
    let col = generate_column(10);
    assert_eq!(col.len(), 74);
    assert_eq!(col.get(&6), Some(&Cube::StoneCube));
    assert_eq!(col.get(&7), Some(&Cube::SoilCube));
    assert_eq!(col.get(&10), Some(&Cube::GrassCube));
    let deep = generate_column(-70);
    assert_eq!(deep.len(), 4);
    assert_eq!(deep.get(&-73), Some(&Cube::SoilCube));
    assert_eq!(deep.get(&-70), Some(&Cube::GrassCube));
    assert_eq!(deep.get(&-63), None);
}

#[test]
fn flat_terrain_registration() {
    let mut info = info_with(HashMap::new(), -1, false);
    reg_cube(&mut info, 5, &Vec::new());
    assert_eq!(info.player_map.len(), 25);
    for x in -7..=17 {
        assert_eq!(cell(&info, x, 0), Some(Cube::GrassCube));
        assert_eq!(cell(&info, x, -3), Some(Cube::SoilCube));
        assert_eq!(cell(&info, x, -63), Some(Cube::StoneCube));
    }
    assert!(!info.player_map.contains_key(&-8));
    assert!(!info.player_map.contains_key(&18));
}

#[test]
fn noise_terrain_registration_keeps_known_columns() {
    let mut known = HashMap::new();
    let mut column = HashMap::new();
    column.insert(3, Cube::Plank);
    known.insert(0, column);
    let mut info = info_with(known, 7, false);
    let heights: Vec<i32> = (0..25).map(|k| k - 12).collect();
    reg_cube(&mut info, 0, &heights);
    assert_eq!(info.player_map.len(), 25);
    assert_eq!(info.player_map.get(&0).unwrap().len(), 1);
    assert_eq!(cell(&info, 0, 3), Some(Cube::Plank));
    assert_eq!(cell(&info, 5, 5), Some(Cube::GrassCube));
    assert_eq!(cell(&info, 5, 6), None);
    assert_eq!(cell(&info, -12, -12), Some(Cube::GrassCube));
    assert_eq!(cell(&info, -12, -15), Some(Cube::SoilCube));
    assert_eq!(cell(&info, -12, -16), Some(Cube::StoneCube));
    let before = info.player_map.clone();
    reg_cube(&mut info, 0, &vec![40; 25]);
    assert_eq!(info.player_map, before);
}

#[test]
fn perlin_seeds() {
    assert_eq!(init_perlin(-5), 0);
    assert_eq!(init_perlin(0), 0);
    assert_eq!(init_perlin(1234), 1234);
    assert_eq!(init_perlin(i32::MAX), i32::MAX as u32);
}

#[test]
fn drawn_blocks_in_view() {
    let mut map = HashMap::new();
    let mut a = HashMap::new();
    a.insert(0, Cube::GrassCube);
    a.insert(-9, Cube::StoneCube);
    a.insert(-10, Cube::StoneCube);
    a.insert(8, Cube::SoilCube);
    a.insert(7, Cube::Plank);
    map.insert(0, a);
    let mut b = HashMap::new();
    b.insert(1, Cube::StoneBrick);
    map.insert(-8, b);
    let mut c = HashMap::new();
    c.insert(0, Cube::StoneBrick);
    map.insert(9, c);
    let drawn = spawn_cube(&map, 0, 0, None);
    assert_eq!(
        drawn,
        vec![
            (-8, 1, Cube::StoneBrick),
            (0, -9, Cube::StoneCube),
            (0, 0, Cube::GrassCube),
            (0, 7, Cube::Plank),
        ]
    );
}

#[test]
fn still_drawn_block_is_not_drawn_again() {
    let mut map = HashMap::new();
    let mut a = HashMap::new();
    a.insert(-1, Cube::GrassCube);
    a.insert(-2, Cube::SoilCube);
    map.insert(0, a);
    assert_eq!(spawn_cube(&map, 0, 0, Some((0, -1))), vec![(0, -2, Cube::SoilCube)]);
    assert_eq!(spawn_cube(&map, 0, 0, Some((5, 5))), vec![(0, -2, Cube::SoilCube), (0, -1, Cube::GrassCube)]);
}

#[test]
fn only_the_block_under_the_feet_is_kept() {
    assert!(kept_on_refresh(3, 1, 3, 0));
    assert!(!kept_on_refresh(3, 1, 3, 1));
    assert!(!kept_on_refresh(3, 1, 2, 0));
    assert!(kept_on_refresh(-4, -6, -4, -7));
}

#[test]
fn breaking_a_drawn_block() {
    let mut info = info_with(HashMap::new(), -1, false);
    reg_cube(&mut info, 0, &Vec::new());
    assert_eq!(player_cube(&mut info, MouseAction::Break, 2, 0, true), CubeCommand::Despawn(2, 0));
    assert_eq!(cell(&info, 2, 0), None);
    assert_eq!(cell(&info, 2, -1), Some(Cube::SoilCube));
    assert_eq!(player_cube(&mut info, MouseAction::Break, 2, 0, true), CubeCommand::Nothing);
    assert_eq!(player_cube(&mut info, MouseAction::Break, 2, -1, false), CubeCommand::Nothing);
    assert_eq!(cell(&info, 2, -1), Some(Cube::SoilCube));
}

#[test]
fn placing_uses_the_held_block() {
    let mut info = info_with(HashMap::new(), -1, false);
    assert_eq!(player_cube(&mut info, MouseAction::Place, 4, 4, false), CubeCommand::Spawn(4, 4, Cube::Plank));
    assert_eq!(cell(&info, 4, 4), Some(Cube::Plank));
    assert_eq!(info.player_bar[0], (Some(GameObjType::Cube(Cube::Plank)), 1));
    assert_eq!(player_cube(&mut info, MouseAction::Place, 4, 4, true), CubeCommand::Nothing);
    assert_eq!(player_cube(&mut info, MouseAction::Place, 4, 5, false), CubeCommand::Spawn(4, 5, Cube::Plank));
    assert_eq!(info.player_bar[0], (None, 0));
    assert_eq!(player_cube(&mut info, MouseAction::Place, 4, 6, false), CubeCommand::Nothing);
    assert_eq!(cell(&info, 4, 6), None);
}

#[test]
fn placing_then_breaking_restores_the_world() {
    let mut info = info_with(HashMap::new(), -1, false);
    reg_cube(&mut info, 0, &Vec::new());
    let before = info.player_map.clone();
    assert_eq!(player_cube(&mut info, MouseAction::Place, 1, 1, false), CubeCommand::Spawn(1, 1, Cube::Plank));
    assert_eq!(player_cube(&mut info, MouseAction::Break, 1, 1, true), CubeCommand::Despawn(1, 1));
    assert_eq!(info.player_map, before);
}

#[test]
fn sandbox_slots_never_run_out() {
    let mut info = info_with(HashMap::new(), -1, true);
    for y in 0..10 {
        assert_eq!(player_cube(&mut info, MouseAction::Place, 0, y, false), CubeCommand::Spawn(0, y, Cube::Plank));
    }
    assert_eq!(info.player_bar[0], (Some(GameObjType::Cube(Cube::Plank)), -1));
}

#[test]
fn slots_without_a_block_place_nothing() {
    let mut info = info_with(HashMap::new(), -1, false);
    info.player_bar_select_index = 2;
    assert_eq!(player_cube(&mut info, MouseAction::Place, 0, 0, false), CubeCommand::Nothing);
    info.player_bar_select_index = 3;
    assert_eq!(player_cube(&mut info, MouseAction::Place, 0, 0, false), CubeCommand::Nothing);
    assert!(info.player_map.is_empty());
    info.player_bar_select_index = 4;
    assert_eq!(player_cube(&mut info, MouseAction::Place, 0, 0, false), CubeCommand::Spawn(0, 0, Cube::StoneBrick));
    assert_eq!(info.player_bar[4], (None, 0));
}

#[test]
fn nothing_happens_without_control() {
    let mut info = info_with(HashMap::new(), -1, false);
    info.is_controlling = false;
    assert_eq!(player_cube(&mut info, MouseAction::Place, 0, 0, false), CubeCommand::Nothing);
    assert!(info.player_map.is_empty());
    assert_eq!(player_cube(&mut info, MouseAction::Idle, 0, 0, false), CubeCommand::Nothing);
}

#[test]
fn jumping_needs_ground_of_the_world() {
    let mut info = info_with(HashMap::new(), -1, false);
    reg_cube(&mut info, 0, &Vec::new());
    assert!(ground_below(&info, 3, 1));
    assert!(!ground_below(&info, 3, 2));
    assert!(!ground_below(&info, 40, 1));
    assert_eq!(player_cube(&mut info, MouseAction::Break, 3, 0, true), CubeCommand::Despawn(3, 0));
    assert!(!ground_below(&info, 3, 1));
    assert!(ground_below(&info, 3, 0));
}
