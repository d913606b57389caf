//! The cell under the player's feet, and the jump rule.

use vstd::prelude::*;
use crate::basic::PlayerInfo;
use crate::game_map::world_cells;

verus! {

broadcast use vstd::std_specs::hash::group_hash_axioms;

/// The cell right under the player's feet, the player standing in column
/// `cell_x` with its height, in cells, rounded up to `ceil_y`.
pub open spec fn spec_feet_cell(cell_x: i32, ceil_y: i32) -> (i32, i32) {
    (cell_x, (ceil_y - 1) as i32)
}

/// Whether the player may jump: a block of the world stands right under its feet.
pub fn ground_below(info: &PlayerInfo, cell_x: i32, ceil_y: i32) -> (r: bool)
    requires
        ceil_y > i32::MIN,
    ensures
        r == world_cells(info.player_map@).contains_key(spec_feet_cell(cell_x, ceil_y)),
        r == world_cells(info.player_map@).contains_key((cell_x, (ceil_y - 1) as i32)),
{
    match info.player_map.get(&cell_x) {
        Some(column) => column.contains_key(&(ceil_y - 1)),
        None => false,
    }
}

/// The player may jump exactly when the world holds a block one row below its
/// height rounded up, in its own column, at every height.
pub proof fn lemma_jump_needs_block_below(info: PlayerInfo, cell_x: i32, ceil_y: i32, r: bool)
    requires
        ceil_y > i32::MIN,
        r == world_cells(info.player_map@).contains_key(spec_feet_cell(cell_x, ceil_y)),
    ensures
        r <==> (info.player_map@.contains_key(cell_x) && info.player_map@[cell_x]@.contains_key(
            (ceil_y - 1) as i32,
        )),
        spec_feet_cell(cell_x, ceil_y).0 == cell_x,
        spec_feet_cell(cell_x, ceil_y).1 == ceil_y - 1,
{
}

} // verus!
