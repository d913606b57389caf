use std::collections::HashMap;

use rust_craft_2d::basic::{Cube, GameObjType, PlayerInfo};
use rust_craft_2d::gameui::{bar_icons, bar_slot_offset, change_select, scroll_fits, ScrollDir};
use rust_craft_2d::window::show_mouse;

fn info_at(index: usize) -> PlayerInfo {
    PlayerInfo {
        player_map: HashMap::new(),
        is_controlling: true,
        is_paused: false,
        is_creative_mode: false,
        player_bar: [(None, 0); 5],
        player_bar_select_index: index,
        game_save: "save".to_string(),
        player_map_seed: -1,
    }
}

#[test]
fn wheel_moves_and_wraps() {
    let mut info = info_at(0);
    change_select(&mut info, &vec![ScrollDir::Down], None);
    assert_eq!(info.player_bar_select_index, 1);
    change_select(&mut info, &vec![ScrollDir::Up, ScrollDir::Up], None);
    assert_eq!(info.player_bar_select_index, 4);
    change_select(&mut info, &vec![ScrollDir::Down], None);
    assert_eq!(info.player_bar_select_index, 0);
    change_select(&mut info, &vec![ScrollDir::Still, ScrollDir::Down, ScrollDir::Down, ScrollDir::Still], None);
    assert_eq!(info.player_bar_select_index, 2);
}

#[test]
fn number_keys_win_over_the_wheel() {
    let mut info = info_at(1);
    change_select(&mut info, &vec![ScrollDir::Down, ScrollDir::Down], Some(4));
    assert_eq!(info.player_bar_select_index, 4);
    change_select(&mut info, &Vec::new(), Some(0));
    assert_eq!(info.player_bar_select_index, 0);
}

#[test]
fn selection_stays_in_the_bar() {
    let mut info = info_at(3);
    let steps: Vec<ScrollDir> = (0..37).map(|k| if k % 3 == 0 { ScrollDir::Up } else { ScrollDir::Down }).collect();
    change_select(&mut info, &steps, None);
    assert!(info.player_bar_select_index < 5);
}

#[test]
fn slot_positions() {
    assert_eq!(bar_slot_offset(0), -100);
    assert_eq!(bar_slot_offset(1), -50);
    assert_eq!(bar_slot_offset(2), 0);
    assert_eq!(bar_slot_offset(4), 100);
    assert_eq!(bar_slot_offset(usize::MAX), -150);
}

#[test]
fn wheel_overflow_is_detected() {
    assert!(scroll_fits(0, &vec![ScrollDir::Down; 100]));
    assert!(scroll_fits(usize::MAX, &vec![ScrollDir::Up, ScrollDir::Still]));
    assert!(!scroll_fits(usize::MAX, &vec![ScrollDir::Down]));
    assert!(!scroll_fits(usize::MAX - 1, &vec![ScrollDir::Down, ScrollDir::Down]));
    assert!(scroll_fits(usize::MAX - 1, &vec![ScrollDir::Down, ScrollDir::Up, ScrollDir::Down]));
}

#[test]
fn icons_of_block_slots() {
    let bar = [
        (Some(GameObjType::Cube(Cube::Plank)), -1),
        (None, 0),
        (Some(GameObjType::Player), 1),
        (Some(GameObjType::Cube(Cube::SoilCube)), 12),
        (Some(GameObjType::Cube(Cube::StoneCube)), 64),
    ];
    assert_eq!(
        bar_icons(&bar),
        vec![(0, Cube::Plank, -1), (3, Cube::SoilCube, 12), (4, Cube::StoneCube, 64)]
    );
    assert_eq!(bar_icons(&[(None, 0); 5]), vec![]);
}

#[test]
fn escape_toggles_control() {
    let mut info = info_at(0);
    assert!(!show_mouse(&mut info));
    assert!(!info.is_controlling);
    assert!(show_mouse(&mut info));
    assert!(info.is_controlling);
    assert_eq!(info.player_bar_select_index, 0);
}
