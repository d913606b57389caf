//! Game rules of a small 2-D sandbox world: block kinds and their save ids,
//! terrain columns, the block map, the hot bar and the save format.
//! Rendering, input and file handling live in the application crate.

pub mod basic;
pub mod game_map;
pub mod cube;
pub mod player;
pub mod gameui;
pub mod window;
pub mod save;
pub mod launch;
