use rust_craft_2d::basic::{get_cube_model, get_game_id, is_game_id, new_game_obj, Cube, GameObjType};
use rust_craft_2d::launch::{game_mode_from_name, starting_bar};

const ALL: [Cube; 5] = [Cube::GrassCube, Cube::SoilCube, Cube::StoneCube, Cube::Plank, Cube::StoneBrick];

#[test]
fn ids_read_back_as_blocks() {
    assert_eq!(new_game_obj("GrassCube"), Some(GameObjType::Cube(Cube::GrassCube)));
    assert_eq!(new_game_obj("SoilCube"), Some(GameObjType::Cube(Cube::SoilCube)));
    assert_eq!(new_game_obj("StoneCube"), Some(GameObjType::Cube(Cube::StoneCube)));
    assert_eq!(new_game_obj("Plank"), Some(GameObjType::Cube(Cube::Plank)));
    assert_eq!(new_game_obj("StoneBrick"), Some(GameObjType::Cube(Cube::StoneBrick)));
    assert_eq!(new_game_obj("None"), None);
}

#[test]
fn block_ids_are_written() {
    assert_eq!(get_game_id(GameObjType::Cube(Cube::GrassCube)), "GrassCube");
    assert_eq!(get_game_id(GameObjType::Cube(Cube::SoilCube)), "SoilCube");
    assert_eq!(get_game_id(GameObjType::Cube(Cube::StoneCube)), "StoneCube");
    assert_eq!(get_game_id(GameObjType::Cube(Cube::Plank)), "Plank");
    assert_eq!(get_game_id(GameObjType::Cube(Cube::StoneBrick)), "StoneBrick");
}

#[test]
fn block_id_round_trip() {
    for c in ALL {
        let id = get_game_id(GameObjType::Cube(c));
        assert!(is_game_id(&id));
        assert_eq!(new_game_obj(&id), Some(GameObjType::Cube(c)));
    }
}

#[test]
fn unknown_ids_are_recognised() {
    assert!(is_game_id("None"));
    assert!(is_game_id("Plank"));
    assert!(!is_game_id("Dirt"));
    assert!(!is_game_id(""));
    assert!(!is_game_id("grasscube"));
    assert!(!is_game_id("Player"));
}

#[test]
fn block_textures() {
    assert_eq!(get_cube_model(&Cube::GrassCube), "cube/grass.png");
    assert_eq!(get_cube_model(&Cube::SoilCube), "cube/soil.png");
    assert_eq!(get_cube_model(&Cube::StoneCube), "cube/stone.png");
    assert_eq!(get_cube_model(&Cube::Plank), "cube/plank.png");
    assert_eq!(get_cube_model(&Cube::StoneBrick), "cube/stone_brick.png");
}

#[test]
fn game_modes() {
    assert_eq!(game_mode_from_name("sandbox"), Some(true));
    assert_eq!(game_mode_from_name("survival"), Some(false));
    assert_eq!(game_mode_from_name("creative"), None);
    assert_eq!(game_mode_from_name(""), None);
}

#[test]
fn starting_bars() {
    let sandbox = starting_bar(true);
    let survival = starting_bar(false);
    let kinds = [Cube::Plank, Cube::GrassCube, Cube::SoilCube, Cube::StoneCube, Cube::StoneBrick];
    for i in 0..5 {
        assert_eq!(sandbox[i], (Some(GameObjType::Cube(kinds[i])), -1));
        assert_eq!(survival[i], (Some(GameObjType::Cube(kinds[i])), 64));
    }
}
