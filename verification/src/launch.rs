//! Starting a game: the game mode named on the command line and the hot bar
//! a new game starts with.

use vstd::prelude::*;
use crate::basic::{Cube, GameObjType, UNLIMITED};

verus! {

broadcast use vstd::string::group_string_axioms;

/// Items per slot of a survival game's starting hot bar.
pub const SURVIVAL_STACK: isize = 64;

/// Whether a game-mode name selects sandbox mode (`Some(true)`), survival mode
/// (`Some(false)`), or no mode at all.
pub open spec fn spec_game_mode(name: Seq<char>) -> Option<bool> {
    if name == "sandbox"@ {
        Some(true)
    } else if name == "survival"@ {
        Some(false)
    } else {
        None
    }
}

/// Reads a game-mode name: `"sandbox"` or `"survival"`.
pub fn game_mode_from_name(name: &str) -> (creative: Option<bool>)
    ensures
        creative == spec_game_mode(name@),
{
    let s = name.to_string();
    if s == "sandbox".to_string() {
        Some(true)
    } else if s == "survival".to_string() {
        Some(false)
    } else {
        None
    }
}

/// The hot bar a new game starts with: plank, grass, soil, stone and stone
/// brick, unlimited in sandbox mode and `SURVIVAL_STACK` of each otherwise.
pub open spec fn spec_starting_bar(creative: bool) -> Seq<(Option<GameObjType>, isize)> {
    let n: isize = if creative { UNLIMITED } else { SURVIVAL_STACK };
    seq![
        (Some(GameObjType::Cube(Cube::Plank)), n),
        (Some(GameObjType::Cube(Cube::GrassCube)), n),
        (Some(GameObjType::Cube(Cube::SoilCube)), n),
        (Some(GameObjType::Cube(Cube::StoneCube)), n),
        (Some(GameObjType::Cube(Cube::StoneBrick)), n),
    ]
}

/// The hot bar of a new game in the given mode.
pub fn starting_bar(creative: bool) -> (bar: [(Option<GameObjType>, isize); 5])
    ensures
        bar@ == spec_starting_bar(creative),
        forall|i: int| 0 <= i < 5 ==> #[trigger] bar@[i].1 == (if creative { -1isize } else { 64isize }),
        bar@[0].0 == Some(GameObjType::Cube(Cube::Plank)),
        bar@[1].0 == Some(GameObjType::Cube(Cube::GrassCube)),
        bar@[2].0 == Some(GameObjType::Cube(Cube::SoilCube)),
        bar@[3].0 == Some(GameObjType::Cube(Cube::StoneCube)),
        bar@[4].0 == Some(GameObjType::Cube(Cube::StoneBrick)),
{
    let n: isize = if creative { UNLIMITED } else { SURVIVAL_STACK };
    let bar = [
        (Some(GameObjType::Cube(Cube::Plank)), n),
        (Some(GameObjType::Cube(Cube::GrassCube)), n),
        (Some(GameObjType::Cube(Cube::SoilCube)), n),
        (Some(GameObjType::Cube(Cube::StoneCube)), n),
        (Some(GameObjType::Cube(Cube::StoneBrick)), n),
    ];
    assert(bar@ =~= spec_starting_bar(creative));
    bar
}

} // verus!
