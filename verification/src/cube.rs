//! Terrain registration around the player, the blocks in view, and the
//! player's breaking and placing of blocks.

use std::collections::HashMap;
use vstd::prelude::*;
use crate::basic::{Cube, GameObjType, PlayerInfo, UNLIMITED};
use crate::game_map::{column_block, column_spec, generate_column, world_cells, SOIL_DEPTH};
use crate::player::spec_feet_cell;

verus! {

broadcast use vstd::std_specs::hash::group_hash_axioms;

/// How many columns on each side of the player are kept registered.
pub const LOAD_MAP_SIZE: i32 = 12;

/// How many columns (and rows) on each side of the player are drawn.
pub const SPAWN_MAP_SIZE: i32 = 8;

/// The seed handed to the noise generator: negative seeds (flat terrain) give 0.
pub open spec fn spec_perlin_seed(map_seed: i32) -> u32 {
    if map_seed < 0 { 0 } else { map_seed as u32 }
}

/// The seed with which the terrain noise is set up.
pub fn init_perlin(map_seed: i32) -> (seed: u32)
    ensures
        seed == spec_perlin_seed(map_seed),
        map_seed >= 0 ==> seed == map_seed,
{
    if map_seed < 0 {
        0
    } else {
        map_seed as u32
    }
}

/// Height of the grass of the column at offset `k` (0 for the leftmost of the
/// registered columns) when it is generated: 0 on flat terrain, else the noise height.
pub open spec fn column_surface(map_seed: i32, heights: Seq<i32>, k: int) -> int {
    if map_seed < 0 { 0 } else { heights[k] as int }
}

/// The columns registered around `center_x`.
pub open spec fn in_load_range(center_x: i32, x: i32) -> bool {
    center_x - LOAD_MAP_SIZE <= x <= center_x + LOAD_MAP_SIZE
}

/// Everything of the player's state but the block map is the same in `a` and `b`.
pub open spec fn same_but_map(a: PlayerInfo, b: PlayerInfo) -> bool {
    &&& a.is_controlling == b.is_controlling
    &&& a.is_paused == b.is_paused
    &&& a.is_creative_mode == b.is_creative_mode
    &&& a.player_bar == b.player_bar
    &&& a.player_bar_select_index == b.player_bar_select_index
    &&& a.game_save == b.game_save
    &&& a.player_map_seed == b.player_map_seed
}

/// `after` is the map `before` with the terrain around column `center_x`
/// registered: every column in range that `before` lacks is generated, and
/// every column of `before` is kept as it is.
pub open spec fn registered(
    before: Map<i32, HashMap<i32, Cube>>,
    after: Map<i32, HashMap<i32, Cube>>,
    center_x: i32,
    map_seed: i32,
    heights: Seq<i32>,
) -> bool {
    &&& after.dom() == before.dom().union(Set::new(|x: i32| in_load_range(center_x, x)))
    &&& forall|x: i32| #[trigger] before.contains_key(x) ==> after[x] == before[x]
    &&& forall|x: i32| in_load_range(center_x, x) && !before.contains_key(x)
        ==> (#[trigger] after[x])@ == column_spec(
            column_surface(map_seed, heights, x - center_x + LOAD_MAP_SIZE),
        )
}

/// `after` is `before` with the terrain around column `center_x` registered,
/// `heights` holding the noise heights offered.
pub open spec fn reg_cube_done(before: PlayerInfo, after: PlayerInfo, center_x: i32, heights: Seq<i32>) -> bool {
    &&& same_but_map(after, before)
    &&& registered(before.player_map@, after.player_map@, center_x, before.player_map_seed, heights)
}

/// Registering the terrain around the same column a second time changes
/// nothing, whatever noise heights the second call is offered.
pub proof fn lemma_reg_cube_idempotent(
    s0: PlayerInfo,
    s1: PlayerInfo,
    s2: PlayerInfo,
    center_x: i32,
    heights1: Seq<i32>,
    heights2: Seq<i32>,
)
    requires
        reg_cube_done(s0, s1, center_x, heights1),
        reg_cube_done(s1, s2, center_x, heights2),
    ensures
        s2.player_map@ == s1.player_map@,
        same_but_map(s2, s1),
{
    assert(s2.player_map@.dom() =~= s1.player_map@.dom());
    assert(s2.player_map@ =~= s1.player_map@);
}

/// With a seed that is not negative, every newly registered column has its
/// grass at the noise height offered for it: `heights[k]` for column
/// `center_x - 12 + k`, with soil in the three cells below and nothing above;
/// with a negative seed the grass is at height 0. Columns already known are kept.
pub proof fn lemma_reg_cube_uses_heights(
    before: PlayerInfo,
    after: PlayerInfo,
    center_x: i32,
    heights: Seq<i32>,
    x: i32,
)
    requires
        reg_cube_done(before, after, center_x, heights),
        center_x - 12 <= x <= center_x + 12,
    ensures
        before.player_map@.contains_key(x) ==> after.player_map@[x] == before.player_map@[x],
        !before.player_map@.contains_key(x) ==> ({
            let h: int = if before.player_map_seed >= 0 { heights[x - center_x + 12] as int } else { 0 };
            &&& after.player_map@.contains_key(x)
            &&& after.player_map@[x]@.contains_key(h as i32)
            &&& after.player_map@[x]@[h as i32] == Cube::GrassCube
            &&& h < i32::MAX ==> !after.player_map@[x]@.contains_key((h + 1) as i32)
            &&& forall|y: i32| h - 3 <= y < h ==> after.player_map@[x]@.contains_key(y)
                && #[trigger] after.player_map@[x]@[y] == Cube::SoilCube
        }),
{
    if !before.player_map@.contains_key(x) {
        let h: int = if before.player_map_seed >= 0 { heights[x - center_x + 12] as int } else { 0 };
        let col = after.player_map@[x]@;
        assert(after.player_map@.dom().contains(x));
        assert(col == column_spec(h));
        assert(column_block(h, h) == Some(Cube::GrassCube));
        assert(col.contains_key(h as i32));
        assert(col[h as i32] == Cube::GrassCube);
        if h < i32::MAX {
            assert(column_block(h, h + 1) is None);
        }
        assert forall|y: i32| h - 3 <= y < h implies col.contains_key(y)
            && #[trigger] col[y] == Cube::SoilCube by {
            assert(column_block(h, y as int) == Some(Cube::SoilCube));
        }
    }
}

/// A negative seed gives flat terrain: every newly registered column has its
/// grass at height 0, whatever noise heights were offered.
pub proof fn lemma_negative_seed_is_flat(
    before: Map<i32, HashMap<i32, Cube>>,
    after: Map<i32, HashMap<i32, Cube>>,
    center_x: i32,
    map_seed: i32,
    heights: Seq<i32>,
    x: i32,
)
    requires
        registered(before, after, center_x, map_seed, heights),
        map_seed < 0,
        in_load_range(center_x, x),
        !before.contains_key(x),
    ensures
        after[x]@ == column_spec(0),
{
}

/// Registers terrain around the player standing in column `center_x`: every
/// column within `LOAD_MAP_SIZE` of it that the map lacks is generated; columns
/// already there are kept as they are. `heights[k]` is the noise height of
/// column `center_x - LOAD_MAP_SIZE + k`, read only when the seed is not negative.
pub fn reg_cube(info: &mut PlayerInfo, center_x: i32, heights: &Vec<i32>)
    requires
        i32::MIN + LOAD_MAP_SIZE <= center_x <= i32::MAX - LOAD_MAP_SIZE,
        old(info).player_map_seed >= 0 ==> heights.len() == 2 * LOAD_MAP_SIZE + 1,
        old(info).player_map_seed >= 0 ==> forall|k: int|
            0 <= k < 2 * LOAD_MAP_SIZE + 1
                && !old(info).player_map@.contains_key((center_x - LOAD_MAP_SIZE + k) as i32)
                ==> #[trigger] heights[k] >= i32::MIN + SOIL_DEPTH,
    ensures
        reg_cube_done(*old(info), *final(info), center_x, heights@),
{
    let ghost old_map = info.player_map@;
    let mut i: i32 = -LOAD_MAP_SIZE;
    while i <= LOAD_MAP_SIZE
        invariant
            -LOAD_MAP_SIZE <= i <= LOAD_MAP_SIZE + 1,
            i32::MIN + LOAD_MAP_SIZE <= center_x <= i32::MAX - LOAD_MAP_SIZE,
            old_map == old(info).player_map@,
            same_but_map(*info, *old(info)),
            info.player_map_seed >= 0 ==> heights.len() == 2 * LOAD_MAP_SIZE + 1,
            info.player_map_seed >= 0 ==> forall|k: int|
                0 <= k < 2 * LOAD_MAP_SIZE + 1
                    && !old_map.contains_key((center_x - LOAD_MAP_SIZE + k) as i32)
                    ==> #[trigger] heights[k] >= i32::MIN + SOIL_DEPTH,
            info.player_map@.dom() == old_map.dom().union(
                Set::new(|x: i32| center_x - LOAD_MAP_SIZE <= x < center_x + i),
            ),
            forall|x: i32| #[trigger] old_map.contains_key(x) ==> info.player_map@[x] == old_map[x],
            forall|x: i32| center_x - LOAD_MAP_SIZE <= x < center_x + i && !old_map.contains_key(x)
                ==> (#[trigger] info.player_map@[x])@ == column_spec(
                    column_surface(info.player_map_seed, heights@, x - center_x + LOAD_MAP_SIZE),
                ),
        decreases LOAD_MAP_SIZE + 1 - i,
    {
        let x: i32 = center_x + i;
        if !info.player_map.contains_key(&x) {
            let surface: i32 = if info.player_map_seed < 0 {
                0
            } else {
                let k: usize = (i + LOAD_MAP_SIZE) as usize;
                assert((center_x - LOAD_MAP_SIZE + k) as i32 == x);
                heights[k]
            };
            let col = generate_column(surface);
            info.player_map.insert(x, col);
        }
        i = i + 1;
        assert(info.player_map@.dom() =~= old_map.dom().union(
            Set::new(|x: i32| center_x - LOAD_MAP_SIZE <= x < center_x + i),
        ));
    }
    assert(Set::new(|x: i32| center_x - LOAD_MAP_SIZE <= x < center_x + i) =~= Set::new(
        |x: i32| in_load_range(center_x, x),
    ));
}

/// Whether cell `(x, y)` is drawn when the player stands in cell `(cx, cy)`:
/// `SPAWN_MAP_SIZE` columns to each side, from `SPAWN_MAP_SIZE + 1` rows below
/// to `SPAWN_MAP_SIZE - 1` rows above.
pub open spec fn in_view(cx: i32, cy: i32, x: i32, y: i32) -> bool {
    &&& cx - SPAWN_MAP_SIZE <= x <= cx + SPAWN_MAP_SIZE
    &&& cy - SPAWN_MAP_SIZE - 1 <= y < cy + SPAWN_MAP_SIZE
}

/// Column-major order of cells: by `x`, then by `y`.
pub open spec fn cell_before(a: (i32, i32), b: (i32, i32)) -> bool {
    a.0 < b.0 || (a.0 == b.0 && a.1 < b.1)
}

/// The block that `blocks` lists at position `k`, as a cell.
pub open spec fn listed_cell(blocks: Seq<(i32, i32, Cube)>, k: int) -> (i32, i32) {
    (blocks[k].0, blocks[k].1)
}

/// `blocks` lists, in column-major order and each once, exactly the blocks of
/// `cells` in the view around `(cx, cy)`.
pub open spec fn lists_view(
    blocks: Seq<(i32, i32, Cube)>,
    cells: Map<(i32, i32), Cube>,
    cx: i32,
    cy: i32,
) -> bool {
    &&& forall|k: int| 0 <= k < blocks.len() ==> {
        &&& in_view(cx, cy, #[trigger] blocks[k].0, blocks[k].1)
        &&& cells.contains_key(listed_cell(blocks, k))
        &&& cells[listed_cell(blocks, k)] == blocks[k].2
    }
    &&& forall|k1: int, k2: int| 0 <= k1 < k2 < blocks.len()
        ==> cell_before(#[trigger] listed_cell(blocks, k1), #[trigger] listed_cell(blocks, k2))
    &&& forall|x: i32, y: i32| in_view(cx, cy, x, y) && #[trigger] cells.contains_key((x, y))
        ==> exists|k: int| 0 <= k < blocks.len() && #[trigger] listed_cell(blocks, k) == (x, y)
}

/// `cells` without the cell `skip` names, if it names one.
pub open spec fn cells_without(cells: Map<(i32, i32), Cube>, skip: Option<(i32, i32)>) -> Map<(i32, i32), Cube> {
    match skip {
        Some(p) => cells.remove(p),
        None => cells,
    }
}

/// Whether the drawn block in cell `(x, y)` stays when the drawn blocks are
/// refreshed: only the block under the player's feet does, the player standing
/// in column `cell_x` with its height rounded up to `ceil_y`.
pub fn kept_on_refresh(cell_x: i32, ceil_y: i32, x: i32, y: i32) -> (kept: bool)
    requires
        ceil_y > i32::MIN,
    ensures
        kept == ((x, y) == spec_feet_cell(cell_x, ceil_y)),
        kept == (x == cell_x && y == ceil_y - 1),
{
    x == cell_x && y == ceil_y - 1
}

/// The blocks to draw around the player standing in cell `(cx, cy)`, with
/// their cells, column by column from the left and bottom-up in each column;
/// the cell `skip` names, whose block is still drawn, is left out.
pub fn spawn_cube(
    player_map: &HashMap<i32, HashMap<i32, Cube>>,
    cx: i32,
    cy: i32,
    skip: Option<(i32, i32)>,
) -> (blocks: Vec<(i32, i32, Cube)>)
    requires
        i32::MIN + SPAWN_MAP_SIZE <= cx <= i32::MAX - SPAWN_MAP_SIZE - 1,
        i32::MIN + SPAWN_MAP_SIZE + 1 <= cy <= i32::MAX - SPAWN_MAP_SIZE,
    ensures
        lists_view(blocks@, cells_without(world_cells(player_map@), skip), cx, cy),
{
    let ghost cells = cells_without(world_cells(player_map@), skip);
    let mut blocks: Vec<(i32, i32, Cube)> = Vec::new();
    let mut x: i32 = cx - SPAWN_MAP_SIZE;
    let y_lo: i32 = cy - SPAWN_MAP_SIZE - 1;
    let y_hi: i32 = cy + SPAWN_MAP_SIZE;
    while x < cx + SPAWN_MAP_SIZE + 1
        invariant
            i32::MIN + SPAWN_MAP_SIZE <= cx <= i32::MAX - SPAWN_MAP_SIZE - 1,
            i32::MIN + SPAWN_MAP_SIZE + 1 <= cy <= i32::MAX - SPAWN_MAP_SIZE,
            y_lo == cy - SPAWN_MAP_SIZE - 1,
            y_hi == cy + SPAWN_MAP_SIZE,
            cx - SPAWN_MAP_SIZE <= x <= cx + SPAWN_MAP_SIZE + 1,
            cells == cells_without(world_cells(player_map@), skip),
            forall|k: int| 0 <= k < blocks@.len() ==> {
                &&& in_view(cx, cy, #[trigger] blocks@[k].0, blocks@[k].1)
                &&& blocks@[k].0 < x
                &&& cells.contains_key(listed_cell(blocks@, k))
                &&& cells[listed_cell(blocks@, k)] == blocks@[k].2
            },
            forall|k1: int, k2: int| 0 <= k1 < k2 < blocks@.len()
                ==> cell_before(#[trigger] listed_cell(blocks@, k1), #[trigger] listed_cell(blocks@, k2)),
            forall|x1: i32, y1: i32| in_view(cx, cy, x1, y1) && x1 < x && #[trigger] cells.contains_key((x1, y1))
                ==> exists|k: int| 0 <= k < blocks@.len() && #[trigger] listed_cell(blocks@, k) == (x1, y1),
        decreases cx + SPAWN_MAP_SIZE + 1 - x,
    {
        let mut y: i32 = y_lo;
        while y < y_hi
            invariant
                i32::MIN + SPAWN_MAP_SIZE <= cx <= i32::MAX - SPAWN_MAP_SIZE - 1,
                i32::MIN + SPAWN_MAP_SIZE + 1 <= cy <= i32::MAX - SPAWN_MAP_SIZE,
                y_lo == cy - SPAWN_MAP_SIZE - 1,
                y_hi == cy + SPAWN_MAP_SIZE,
                cx - SPAWN_MAP_SIZE <= x <= cx + SPAWN_MAP_SIZE,
                y_lo <= y <= y_hi,
                cells == cells_without(world_cells(player_map@), skip),
                forall|k: int| 0 <= k < blocks@.len() ==> {
                    &&& in_view(cx, cy, #[trigger] blocks@[k].0, blocks@[k].1)
                    &&& cell_before(listed_cell(blocks@, k), (x, y))
                    &&& cells.contains_key(listed_cell(blocks@, k))
                    &&& cells[listed_cell(blocks@, k)] == blocks@[k].2
                },
                forall|k1: int, k2: int| 0 <= k1 < k2 < blocks@.len()
                    ==> cell_before(#[trigger] listed_cell(blocks@, k1), #[trigger] listed_cell(blocks@, k2)),
                forall|x1: i32, y1: i32| in_view(cx, cy, x1, y1) && cell_before((x1, y1), (x, y))
                    && #[trigger] cells.contains_key((x1, y1))
                    ==> exists|k: int| 0 <= k < blocks@.len() && #[trigger] listed_cell(blocks@, k) == (x1, y1),
            decreases y_hi - y,
        {
            let ghost before = blocks@;
            match player_map.get(&x) {
                Some(column) => match column.get(&y) {
                    Some(cube) => {
                        let skipped = match skip {
                            Some(p) => p.0 == x && p.1 == y,
                            None => false,
                        };
                        if !skipped {
                            blocks.push((x, y, *cube));
                            assert(listed_cell(blocks@, before.len() as int) == (x, y));
                        }
                    },
                    None => {},
                },
                None => {},
            }
            assert forall|k: int| 0 <= k < before.len() implies
                #[trigger] listed_cell(blocks@, k) == listed_cell(before, k) by {}
            assert forall|x1: i32, y1: i32| in_view(cx, cy, x1, y1) && cell_before((x1, y1), (x, (y + 1) as i32))
                && #[trigger] cells.contains_key((x1, y1))
                implies exists|k: int| 0 <= k < blocks@.len() && #[trigger] listed_cell(blocks@, k) == (x1, y1) by {
                if cell_before((x1, y1), (x, y)) {
                    let k = choose|k: int| 0 <= k < before.len() && #[trigger] listed_cell(before, k) == (x1, y1);
                    assert(listed_cell(blocks@, k) == (x1, y1));
                } else {
                    assert(x1 == x && y1 == y);
                    assert(listed_cell(blocks@, before.len() as int) == (x1, y1));
                }
            }
            y = y + 1;
        }
        x = x + 1;
    }
    blocks
}

/// What the mouse asks of the world in a frame: the left button breaks,
/// the right one places (the left one wins when both are down).
#[derive(Clone, Copy, Debug, PartialEq, Eq, Structural)]
pub enum MouseAction {
    Idle,
    Break,
    Place,
}

/// What the drawn world must do after the player's action.
#[derive(Clone, Copy, Debug, PartialEq, Eq, Structural)]
pub enum CubeCommand {
    /// Nothing changed.
    Nothing,
    /// The block drawn in this cell is gone.
    Despawn(i32, i32),
    /// A block of this kind now stands in this cell.
    Spawn(i32, i32, Cube),
}

/// The block kind in the selected hot-bar slot, if the slot holds a block.
pub open spec fn held_cube(info: PlayerInfo) -> Option<Cube> {
    if info.player_bar_select_index < 5 {
        match info.player_bar[info.player_bar_select_index as int].0 {
            Some(GameObjType::Cube(c)) => Some(c),
            _ => None,
        }
    } else {
        None
    }
}

/// A hot-bar slot after one of its blocks was placed: a limited count drops by one,
/// and a slot whose count reaches zero is emptied.
pub open spec fn slot_after_placing(slot: (Option<GameObjType>, isize)) -> (Option<GameObjType>, isize) {
    let n: isize = if slot.1 != UNLIMITED { (slot.1 - 1) as isize } else { slot.1 };
    (if n == 0 { None } else { slot.0 }, n)
}

/// The outcome of the player's mouse action on cell `(x, y)`; `entity_at_cell`
/// tells whether a drawn block stands in that cell.
pub open spec fn cube_command(info: PlayerInfo, action: MouseAction, x: i32, y: i32, entity_at_cell: bool) -> CubeCommand {
    let cells = world_cells(info.player_map@);
    if !info.is_controlling {
        CubeCommand::Nothing
    } else {
        match action {
            MouseAction::Idle => CubeCommand::Nothing,
            MouseAction::Break => if cells.contains_key((x, y)) && entity_at_cell {
                CubeCommand::Despawn(x, y)
            } else {
                CubeCommand::Nothing
            },
            MouseAction::Place => if cells.contains_key((x, y)) {
                CubeCommand::Nothing
            } else {
                match held_cube(info) {
                    Some(c) => CubeCommand::Spawn(x, y, c),
                    None => CubeCommand::Nothing,
                }
            },
        }
    }
}

/// `after` and `cmd` are what the player's mouse action on cell `(x, y)` makes
/// of `before`: the command `cube_command` names, a broken block taken out of its
/// column, or the placed block put into its column and one item of the selected
/// slot used; with nothing changed when nothing happens.
pub open spec fn player_cube_done(
    before: PlayerInfo,
    after: PlayerInfo,
    action: MouseAction,
    x: i32,
    y: i32,
    entity_at_cell: bool,
    cmd: CubeCommand,
) -> bool {
    &&& cmd == cube_command(before, action, x, y, entity_at_cell)
    &&& cmd is Nothing ==> after == before
    &&& (cmd is Despawn ==> {
        &&& same_but_map(after, before)
        &&& after.player_map@.dom() == before.player_map@.dom()
        &&& after.player_map@[x]@ == before.player_map@[x]@.remove(y)
        &&& forall|x1: i32| x1 != x ==> #[trigger] after.player_map@[x1] == before.player_map@[x1]
        &&& world_cells(after.player_map@) == world_cells(before.player_map@).remove((x, y))
    })
    &&& (cmd matches CubeCommand::Spawn(_, _, c) ==> {
        let i = before.player_bar_select_index as int;
        &&& after.player_map@.dom() == before.player_map@.dom().insert(x)
        &&& after.player_map@[x]@ == (if before.player_map@.contains_key(x) {
            before.player_map@[x]@
        } else {
            Map::empty()
        }).insert(y, c)
        &&& forall|x1: i32| x1 != x ==> #[trigger] after.player_map@[x1] == before.player_map@[x1]
        &&& world_cells(after.player_map@) == world_cells(before.player_map@).insert((x, y), c)
        &&& after.player_bar@ == before.player_bar@.update(i, slot_after_placing(before.player_bar@[i]))
        &&& after.is_controlling == before.is_controlling
        &&& after.is_paused == before.is_paused
        &&& after.is_creative_mode == before.is_creative_mode
        &&& after.player_bar_select_index == before.player_bar_select_index
        &&& after.game_save == before.game_save
        &&& after.player_map_seed == before.player_map_seed
    })
}

/// While the player is not controlling (the mouse is released), no mouse
/// action changes anything.
pub proof fn lemma_no_action_without_control(
    before: PlayerInfo,
    after: PlayerInfo,
    action: MouseAction,
    x: i32,
    y: i32,
    entity_at_cell: bool,
    cmd: CubeCommand,
)
    requires
        player_cube_done(before, after, action, x, y, entity_at_cell, cmd),
        !before.is_controlling,
    ensures
        cmd == CubeCommand::Nothing,
        after == before,
{
}

/// While the player controls: breaking a drawn block of the world takes out
/// exactly that block; breaking where no block is, or where none is drawn,
/// changes nothing; and an idle mouse changes nothing.
pub proof fn lemma_break(
    before: PlayerInfo,
    after: PlayerInfo,
    action: MouseAction,
    x: i32,
    y: i32,
    entity_at_cell: bool,
    cmd: CubeCommand,
)
    requires
        player_cube_done(before, after, action, x, y, entity_at_cell, cmd),
        before.is_controlling,
        action != MouseAction::Place,
    ensures
        action == MouseAction::Idle ==> cmd == CubeCommand::Nothing && after == before,
        action == MouseAction::Break && entity_at_cell && before.player_map@.contains_key(x)
            && before.player_map@[x]@.contains_key(y) ==> {
            &&& cmd == CubeCommand::Despawn(x, y)
            &&& !world_cells(after.player_map@).contains_key((x, y))
            &&& forall|p: (i32, i32)| p != (x, y) ==> (#[trigger] world_cells(after.player_map@).contains_key(p)
                <==> world_cells(before.player_map@).contains_key(p))
            &&& forall|p: (i32, i32)| p != (x, y) && #[trigger] world_cells(before.player_map@).contains_key(p)
                ==> world_cells(after.player_map@)[p] == world_cells(before.player_map@)[p]
            &&& after.player_bar == before.player_bar
            &&& after.player_bar_select_index == before.player_bar_select_index
        },
        action == MouseAction::Break && !(entity_at_cell && before.player_map@.contains_key(x)
            && before.player_map@[x]@.contains_key(y)) ==> cmd == CubeCommand::Nothing && after == before,
{
}

/// While the player controls: placing into an empty cell while the selected
/// slot holds a block puts that block there, leaves every other cell as it was,
/// and takes one item from a limited slot (emptying it at zero) but none from an
/// unlimited one; placing into a taken cell, or with no block selected, changes nothing.
pub proof fn lemma_place(
    before: PlayerInfo,
    after: PlayerInfo,
    x: i32,
    y: i32,
    entity_at_cell: bool,
    cmd: CubeCommand,
)
    requires
        player_cube_done(before, after, MouseAction::Place, x, y, entity_at_cell, cmd),
        before.is_controlling,
    ensures
        before.player_map@.contains_key(x) && before.player_map@[x]@.contains_key(y)
            ==> cmd == CubeCommand::Nothing && after == before,
        ({
            let i = before.player_bar_select_index as int;
            let empty = !(before.player_map@.contains_key(x) && before.player_map@[x]@.contains_key(y));
            let held = before.player_bar@[i].0 is Some && before.player_bar@[i].0->Some_0 is Cube;
            let c = before.player_bar@[i].0->Some_0->Cube_0;
            &&& (empty && i < 5 && held) ==> {
                &&& cmd == CubeCommand::Spawn(x, y, c)
                &&& after.player_map@.contains_key(x)
                &&& after.player_map@[x]@.contains_key(y)
                &&& after.player_map@[x]@[y] == c
                &&& forall|p: (i32, i32)| p != (x, y) ==> (#[trigger] world_cells(after.player_map@).contains_key(p)
                    <==> world_cells(before.player_map@).contains_key(p))
                &&& forall|p: (i32, i32)| p != (x, y) && #[trigger] world_cells(before.player_map@).contains_key(p)
                    ==> world_cells(after.player_map@)[p] == world_cells(before.player_map@)[p]
                &&& before.player_bar@[i].1 == -1 ==> after.player_bar@ == before.player_bar@
                &&& (before.player_bar@[i].1 != -1 && before.player_bar@[i].1 > isize::MIN)
                    ==> after.player_bar@[i].1 == before.player_bar@[i].1 - 1
                &&& before.player_bar@[i].1 == 1 ==> after.player_bar@[i].0 is None
                &&& before.player_bar@[i].1 > 1 ==> after.player_bar@[i].0 == before.player_bar@[i].0
                &&& forall|j: int| 0 <= j < 5 && j != i ==> #[trigger] after.player_bar@[j] == before.player_bar@[j]
                &&& after.player_bar_select_index == before.player_bar_select_index
            }
            &&& (empty && i < 5 && !held) ==> cmd == CubeCommand::Nothing && after == before
        }),
{
    let i = before.player_bar_select_index as int;
    let empty = !(before.player_map@.contains_key(x) && before.player_map@[x]@.contains_key(y));
    assert(empty <==> !world_cells(before.player_map@).contains_key((x, y)));
    if i < 5 && empty {
        if let Some(GameObjType::Cube(c)) = before.player_bar@[i].0 {
            assert(held_cube(before) == Some(c));
            assert(cmd == CubeCommand::Spawn(x, y, c));
            assert(world_cells(after.player_map@) == world_cells(before.player_map@).insert((x, y), c));
            assert(after.player_bar@[i] == slot_after_placing(before.player_bar@[i]));
            assert(world_cells(after.player_map@).contains_key((x, y)));
        } else {
            assert(held_cube(before) is None);
        }
    }
}

/// The player breaks or places the block in cell `(x, y)` under the cursor.
/// Breaking removes a block that is both in the map and drawn; placing puts the
/// held block into an empty cell and uses one item of the selected slot.
pub fn player_cube(info: &mut PlayerInfo, action: MouseAction, x: i32, y: i32, entity_at_cell: bool) -> (cmd: CubeCommand)
    requires
        action == MouseAction::Place && old(info).is_controlling
            && !world_cells(old(info).player_map@).contains_key((x, y))
            ==> old(info).player_bar_select_index < 5,
        action == MouseAction::Place && old(info).is_controlling
            && !world_cells(old(info).player_map@).contains_key((x, y))
            && held_cube(*old(info)) is Some
            ==> old(info).player_bar[old(info).player_bar_select_index as int].1 > isize::MIN,
    ensures
        player_cube_done(*old(info), *final(info), action, x, y, entity_at_cell, cmd),
{
    let ghost old_map = info.player_map@;
    if !info.is_controlling {
        return CubeCommand::Nothing;
    }
    match action {
        MouseAction::Idle => CubeCommand::Nothing,
        MouseAction::Break => {
            let present = match info.player_map.get(&x) {
                Some(column) => column.contains_key(&y),
                None => false,
            };
            if present && entity_at_cell {
                match info.player_map.remove(&x) {
                    Some(mut column) => {
                        column.remove(&y);
                        info.player_map.insert(x, column);
                    },
                    None => {},
                }
                assert(info.player_map@ =~= old_map.insert(x, info.player_map@[x]));
                assert(world_cells(info.player_map@) =~= world_cells(old_map).remove((x, y)));
                CubeCommand::Despawn(x, y)
            } else {
                CubeCommand::Nothing
            }
        },
        MouseAction::Place => {
            let mut column: HashMap<i32, Cube> = match info.player_map.get(&x) {
                Some(s) => {
                    if s.contains_key(&y) {
                        return CubeCommand::Nothing;
                    }
                    s.clone()
                },
                None => HashMap::new(),
            };
            let i: usize = info.player_bar_select_index;
            let cube_type: Cube = match info.player_bar[i].0 {
                Some(GameObjType::Cube(c)) => c,
                _ => {
                    return CubeCommand::Nothing;
                },
            };
            column.insert(y, cube_type);
            info.player_map.insert(x, column);
            assert(world_cells(info.player_map@) =~= world_cells(old_map).insert((x, y), cube_type));
            let (item, n) = info.player_bar[i];
            let n2: isize = if n != UNLIMITED { n - 1 } else { n };
            let item2: Option<GameObjType> = if n2 == 0 { None } else { item };
            info.player_bar[i] = (item2, n2);
            CubeCommand::Spawn(x, y, cube_type)
        },
    }
}

/// The drawn rows and columns follow the player: with the player in cell
/// `(cx, cy)`, exactly the blocks of the world from column `cx - 8` to `cx + 8`
/// and from row `cy - 9` to `cy + 7` are listed, leaving out the cell `skip`,
/// each once and column by column from the bottom up.
pub proof fn lemma_view_follows_player(
    blocks: Seq<(i32, i32, Cube)>,
    cells: Map<(i32, i32), Cube>,
    skip: Option<(i32, i32)>,
    cx: i32,
    cy: i32,
)
    requires
        lists_view(blocks, cells_without(cells, skip), cx, cy),
    ensures
        forall|k: int| 0 <= k < blocks.len() ==> {
            &&& cx - 8 <= #[trigger] blocks[k].0 <= cx + 8
            &&& cy - 9 <= blocks[k].1 <= cy + 7
            &&& cells.contains_key((blocks[k].0, blocks[k].1))
            &&& cells[(blocks[k].0, blocks[k].1)] == blocks[k].2
            &&& skip != Some((blocks[k].0, blocks[k].1))
        },
        forall|x: i32, y: i32| cx - 8 <= x <= cx + 8 && cy - 9 <= y <= cy + 7
            && #[trigger] cells.contains_key((x, y)) && skip != Some((x, y))
            ==> exists|k: int| 0 <= k < blocks.len() && blocks[k].0 == x && blocks[k].1 == y,
        forall|k1: int, k2: int| 0 <= k1 < k2 < blocks.len() ==> (#[trigger] blocks[k1].0 < #[trigger] blocks[k2].0
            || (blocks[k1].0 == blocks[k2].0 && blocks[k1].1 < blocks[k2].1)),
{
    let c2 = cells_without(cells, skip);
    assert forall|k: int| 0 <= k < blocks.len() implies {
        &&& cx - 8 <= #[trigger] blocks[k].0 <= cx + 8
        &&& cy - 9 <= blocks[k].1 <= cy + 7
        &&& cells.contains_key((blocks[k].0, blocks[k].1))
        &&& cells[(blocks[k].0, blocks[k].1)] == blocks[k].2
        &&& skip != Some((blocks[k].0, blocks[k].1))
    } by {
        assert(in_view(cx, cy, blocks[k].0, blocks[k].1));
        assert(c2.contains_key(listed_cell(blocks, k)));
    }
    assert forall|x: i32, y: i32| cx - 8 <= x <= cx + 8 && cy - 9 <= y <= cy + 7
        && #[trigger] cells.contains_key((x, y)) && skip != Some((x, y))
        implies exists|k: int| 0 <= k < blocks.len() && blocks[k].0 == x && blocks[k].1 == y by {
        assert(c2.contains_key((x, y)));
        let k = choose|k: int| 0 <= k < blocks.len() && #[trigger] listed_cell(blocks, k) == (x, y);
        assert(blocks[k].0 == x && blocks[k].1 == y);
    }
    assert forall|k1: int, k2: int| 0 <= k1 < k2 < blocks.len() implies (#[trigger] blocks[k1].0 < #[trigger] blocks[k2].0
        || (blocks[k1].0 == blocks[k2].0 && blocks[k1].1 < blocks[k2].1)) by {
        assert(cell_before(listed_cell(blocks, k1), listed_cell(blocks, k2)));
    }
}

/// Placing a block into an empty cell, then breaking it while its drawn block
/// is there, breaks exactly that block and leaves the world's blocks as they were.
pub proof fn lemma_place_then_break(
    s0: PlayerInfo,
    s1: PlayerInfo,
    s2: PlayerInfo,
    x: i32,
    y: i32,
    placed_entity: bool,
    cmd1: CubeCommand,
    cmd2: CubeCommand,
)
    requires
        player_cube_done(s0, s1, MouseAction::Place, x, y, placed_entity, cmd1),
        cmd1 is Spawn,
        player_cube_done(s1, s2, MouseAction::Break, x, y, true, cmd2),
    ensures
        cmd2 == CubeCommand::Despawn(x, y),
        world_cells(s2.player_map@) == world_cells(s0.player_map@),
{
    let c = cmd1->Spawn_2;
    assert(!world_cells(s0.player_map@).contains_key((x, y)));
    assert(world_cells(s1.player_map@).contains_key((x, y)));
    assert(world_cells(s0.player_map@).insert((x, y), c).remove((x, y)) =~= world_cells(s0.player_map@));
}

/// Placing uses one item of a limited slot and none of an unlimited one; a
/// slot whose last item was placed holds nothing.
pub proof fn lemma_placing_uses_one_item(slot: (Option<GameObjType>, isize))
    requires
        slot.1 > isize::MIN,
    ensures
        slot.1 == UNLIMITED ==> slot_after_placing(slot) == slot,
        slot.1 != UNLIMITED ==> slot_after_placing(slot).1 == slot.1 - 1,
        slot.1 == 1 ==> slot_after_placing(slot).0 is None,
        slot.1 > 1 ==> slot_after_placing(slot).0 == slot.0,
{
}

} // verus!
