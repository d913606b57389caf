//! Block kinds, game objects and their textual ids.

use std::collections::HashMap;
use vstd::prelude::*;

verus! {

broadcast use vstd::string::group_string_axioms;

/// The kinds of block that make up the world.
#[derive(Clone, Copy, Debug, PartialEq, Eq, Structural)]
pub enum Cube {
    GrassCube,
    SoilCube,
    StoneCube,
    Plank,
    StoneBrick,
}

/// Everything that can stand in the world or in a hot-bar slot.
#[derive(Clone, Copy, Debug, PartialEq, Eq, Structural)]
pub enum GameObjType {
    Player,
    Creature,
    Cube(Cube),
}

/// Number of slots in the hot bar.
pub const BAR_SIZE: usize = 5;

/// Item count of a hot-bar slot that never runs out (sandbox mode).
pub const UNLIMITED: isize = -1;

/// The state of the player that the game's systems share.
pub struct PlayerInfo {
    /// Blocks by column `x`, then height `y`.
    pub player_map: HashMap<i32, HashMap<i32, Cube>>,
    /// Whether the player is steering (the mouse is captured).
    pub is_controlling: bool,
    /// Whether the game is paused.
    pub is_paused: bool,
    /// Whether the game runs in sandbox mode.
    pub is_creative_mode: bool,
    /// The hot bar: an item and its count per slot; a count of `UNLIMITED` never runs out.
    pub player_bar: [(Option<GameObjType>, isize); 5],
    /// The slot whose item the player holds.
    pub player_bar_select_index: usize,
    /// Name of the save the game is written to.
    pub game_save: String,
    /// Terrain seed; a negative seed gives flat terrain.
    pub player_map_seed: i32,
}

/// The id under which a block kind is written to a save.
pub open spec fn cube_id(c: Cube) -> Seq<char> {
    match c {
        Cube::GrassCube => "GrassCube"@,
        Cube::SoilCube => "SoilCube"@,
        Cube::StoneCube => "StoneCube"@,
        Cube::Plank => "Plank"@,
        Cube::StoneBrick => "StoneBrick"@,
    }
}

/// The id written for an empty hot-bar slot.
pub open spec fn empty_slot_id() -> Seq<char> {
    "None"@
}

/// The block kind that an id names, if any.
pub open spec fn cube_of_id(id: Seq<char>) -> Option<Cube> {
    if id == "GrassCube"@ {
        Some(Cube::GrassCube)
    } else if id == "SoilCube"@ {
        Some(Cube::SoilCube)
    } else if id == "StoneCube"@ {
        Some(Cube::StoneCube)
    } else if id == "Plank"@ {
        Some(Cube::Plank)
    } else if id == "StoneBrick"@ {
        Some(Cube::StoneBrick)
    } else {
        None
    }
}

/// The ids that a save may hold for a slot or a block: a block id or the empty-slot id.
pub open spec fn game_id_known(id: Seq<char>) -> bool {
    cube_of_id(id) is Some || id == empty_slot_id()
}

/// What an id stands for: a block, or nothing for the empty-slot id.
pub open spec fn game_obj_of_id(id: Seq<char>) -> Option<GameObjType> {
    match cube_of_id(id) {
        Some(c) => Some(GameObjType::Cube(c)),
        None => None,
    }
}

/// The texture of a block kind.
pub open spec fn cube_model_path(c: Cube) -> Seq<char> {
    match c {
        Cube::GrassCube => "cube/grass.png"@,
        Cube::SoilCube => "cube/soil.png"@,
        Cube::StoneCube => "cube/stone.png"@,
        Cube::Plank => "cube/plank.png"@,
        Cube::StoneBrick => "cube/stone_brick.png"@,
    }
}

fn same_text(a: &str, b: &str) -> (r: bool)
    ensures
        r == (a@ == b@),
{
    let x = a.to_string();
    let y = b.to_string();
    x == y
}

/// Whether `id` is one that `new_game_obj` accepts.
pub fn is_game_id(id: &str) -> (r: bool)
    ensures
        r == game_id_known(id@),
{
    same_text(id, "GrassCube") || same_text(id, "SoilCube") || same_text(id, "StoneCube")
        || same_text(id, "Plank") || same_text(id, "StoneBrick") || same_text(id, "None")
}

/// Reads a game object back from its saved id; `"None"` is an empty slot.
pub fn new_game_obj(game_obj_id: &str) -> (r: Option<GameObjType>)
    requires
        game_id_known(game_obj_id@),
    ensures
        r == game_obj_of_id(game_obj_id@),
{
    if same_text(game_obj_id, "GrassCube") {
        Some(GameObjType::Cube(Cube::GrassCube))
    } else if same_text(game_obj_id, "SoilCube") {
        Some(GameObjType::Cube(Cube::SoilCube))
    } else if same_text(game_obj_id, "StoneCube") {
        Some(GameObjType::Cube(Cube::StoneCube))
    } else if same_text(game_obj_id, "Plank") {
        Some(GameObjType::Cube(Cube::Plank))
    } else if same_text(game_obj_id, "StoneBrick") {
        Some(GameObjType::Cube(Cube::StoneBrick))
    } else {
        None
    }
}

/// The id under which a block is saved; only blocks have one.
pub fn get_game_id(game_obj: GameObjType) -> (r: String)
    requires
        game_obj is Cube,
    ensures
        r@ == cube_id(game_obj->Cube_0),
{
    match game_obj {
        GameObjType::Cube(cube_type) => match cube_type {
            Cube::GrassCube => "GrassCube".to_string(),
            Cube::SoilCube => "SoilCube".to_string(),
            Cube::StoneCube => "StoneCube".to_string(),
            Cube::Plank => "Plank".to_string(),
            Cube::StoneBrick => "StoneBrick".to_string(),
        },
        _ => { proof { assert(false); } String::new() },
    }
}

/// The texture file of a block kind.
pub fn get_cube_model(game_obj_type: &Cube) -> (r: &'static str)
    ensures
        r@ == cube_model_path(*game_obj_type),
{
    match game_obj_type {
        Cube::GrassCube => "cube/grass.png",
        Cube::SoilCube => "cube/soil.png",
        Cube::StoneCube => "cube/stone.png",
        Cube::Plank => "cube/plank.png",
        Cube::StoneBrick => "cube/stone_brick.png",
    }
}

/// A block's saved id reads back as that very block, and is an id a save may hold.
pub proof fn lemma_game_id_round_trip(c: Cube)
    ensures
        game_id_known(cube_id(c)),
        cube_of_id(cube_id(c)) == Some(c),
        game_obj_of_id(cube_id(c)) == Some(GameObjType::Cube(c)),
{
    reveal_strlit("GrassCube");
    reveal_strlit("SoilCube");
    reveal_strlit("StoneCube");
    reveal_strlit("Plank");
    reveal_strlit("StoneBrick");
    reveal_strlit("None");
    assert("GrassCube"@.len() == 9);
    assert("SoilCube"@.len() == 8);
    assert("GrassCube"@ != "SoilCube"@);
    assert("GrassCube"@[0] != "StoneCube"@[0]);
    assert("SoilCube"@[1] != "StoneCube"@[1]);
    assert("GrassCube"@[0] != "StoneBrick"@[0]);
    assert("StoneCube"@[5] != "StoneBrick"@[5]);
}

/// The empty-slot id names no block, and reads back as an empty slot.
pub proof fn lemma_empty_slot_id()
    ensures
        game_id_known(empty_slot_id()),
        cube_of_id(empty_slot_id()) is None,
        game_obj_of_id(empty_slot_id()) is None,
{
    reveal_strlit("GrassCube");
    reveal_strlit("SoilCube");
    reveal_strlit("StoneCube");
    reveal_strlit("Plank");
    reveal_strlit("StoneBrick");
    reveal_strlit("None");
    assert("None"@.len() == 4);
    assert("GrassCube"@.len() == 9);
    assert("SoilCube"@.len() == 8);
    assert("StoneCube"@.len() == 9);
    assert("Plank"@.len() == 5);
    assert("StoneBrick"@.len() == 10);
}

} // verus!
