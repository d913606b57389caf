//! Capturing and releasing the mouse.

use vstd::prelude::*;
use crate::basic::PlayerInfo;

verus! {

/// The player's state with control flipped.
pub open spec fn mouse_toggled(info: PlayerInfo) -> PlayerInfo {
    PlayerInfo { is_controlling: !info.is_controlling, ..info }
}

/// Pressing the key twice gives the player's state back.
pub proof fn lemma_show_mouse_twice(info: PlayerInfo)
    ensures
        mouse_toggled(mouse_toggled(info)) == info,
{
}

/// The player presses the key that captures or releases the mouse: control
/// flips, and the new state is returned (the cursor shows while it is `false`).
pub fn show_mouse(info: &mut PlayerInfo) -> (controlling: bool)
    ensures
        controlling == !old(info).is_controlling,
        *final(info) == mouse_toggled(*old(info)),
{
    info.is_controlling = !info.is_controlling;
    info.is_controlling
}

} // verus!
