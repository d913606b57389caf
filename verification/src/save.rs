//! The save format: the block map as a list of cells with their block ids,
//! and the hot bar as slot ids and counts.

use std::collections::HashMap;
use vstd::prelude::*;
use crate::basic::{
    cube_id, cube_of_id, empty_slot_id, game_id_known, game_obj_of_id, get_game_id, lemma_empty_slot_id,
    lemma_game_id_round_trip, new_game_obj, Cube, GameObjType, BAR_SIZE,
};
use crate::game_map::world_cells;
use vstd::std_specs::hash::spec_keys_iter;
use vstd::std_specs::iter::IteratorSpec;

verus! {

broadcast use vstd::std_specs::hash::group_hash_axioms;

/// The keys of a map, each once, in the order the map hands them out.
fn map_keys<V>(m: &HashMap<i32, V>) -> (ks: Vec<i32>)
    ensures
        ks@.no_duplicates(),
        ks@.to_set() == m@.dom(),
{
    let mut ks: Vec<i32> = Vec::new();
    for x in it: m.keys()
        invariant
            ks@ == it.seq().take(it.index()).unref(),
            it.seq() == spec_keys_iter(m).remaining(),
    {
        ks.push(*x);
        assert(ks@ =~= it.seq().take(it.index() + 1).unref());
    }
    assert(ks@ =~= spec_keys_iter(m).remaining().unref());
    ks
}

/// The block map as a save holds it: `cube_type[k]` is the id of the block in
/// cell `cube_pos[k]`.
#[derive(Debug)]
pub struct SavedGameMap {
    pub cube_pos: Vec<[i32; 2]>,
    pub cube_type: Vec<String>,
}

/// A saved position as a cell.
pub open spec fn pos_cell(p: [i32; 2]) -> (i32, i32) {
    (p[0], p[1])
}

/// The texts of a list of strings.
pub open spec fn id_views(v: Seq<String>) -> Seq<Seq<char>> {
    v.map_values(|s: String| s@)
}

/// Some entry of `pos` names cell `c`.
pub open spec fn lists_cell(pos: Seq<[i32; 2]>, c: (i32, i32)) -> bool {
    exists|k: int| 0 <= k < pos.len() && #[trigger] pos_cell(pos[k]) == c
}

/// The saved lists `pos` and `ids` describe the blocks `cells`: each block once,
/// in some order, with its id.
pub open spec fn saved_map_describes(pos: Seq<[i32; 2]>, ids: Seq<Seq<char>>, cells: Map<(i32, i32), Cube>) -> bool {
    &&& pos.len() == ids.len()
    &&& forall|k: int| 0 <= k < pos.len() ==> {
        &&& cells.contains_key(#[trigger] pos_cell(pos[k]))
        &&& ids[k] == cube_id(cells[pos_cell(pos[k])])
    }
    &&& forall|k1: int, k2: int| 0 <= k1 < k2 < pos.len()
        ==> #[trigger] pos_cell(pos[k1]) != #[trigger] pos_cell(pos[k2])
    &&& forall|p: (i32, i32)| #[trigger] cells.contains_key(p) ==> lists_cell(pos, p)
}

/// Writes the block map down for a save: every block once, with its cell and
/// id. The order of the entries is the order in which the maps hand out their
/// keys, which nothing fixes.
pub fn save_player_map(player_map: &HashMap<i32, HashMap<i32, Cube>>) -> (saved: SavedGameMap)
    ensures
        saved_map_describes(saved.cube_pos@, id_views(saved.cube_type@), world_cells(player_map@)),
{
    let ghost cells = world_cells(player_map@);
    let xs = map_keys(player_map);
    let mut cube_pos: Vec<[i32; 2]> = Vec::new();
    let mut cube_type: Vec<String> = Vec::new();
    let ghost mut own: Seq<int> = Seq::empty();
    let mut i: usize = 0;
    while i < xs.len()
        invariant
            xs@.no_duplicates(),
            xs@.to_set() == player_map@.dom(),
            i <= xs.len(),
            cells == world_cells(player_map@),
            cube_pos@.len() == cube_type@.len(),
            own.len() == cube_pos@.len(),
            forall|k: int| 0 <= k < cube_pos@.len() ==> {
                &&& cells.contains_key(#[trigger] pos_cell(cube_pos@[k]))
                &&& cube_type@[k]@ == cube_id(cells[pos_cell(cube_pos@[k])])
            },
            forall|k: int| 0 <= k < cube_pos@.len() ==> 0 <= #[trigger] own[k] < i && cube_pos@[k][0] == xs@[own[k]],
            forall|k1: int, k2: int| 0 <= k1 < k2 < cube_pos@.len()
                ==> #[trigger] pos_cell(cube_pos@[k1]) != #[trigger] pos_cell(cube_pos@[k2]),
            forall|a: int, y: i32| 0 <= a < i && #[trigger] cells.contains_key((xs@[a], y))
                ==> exists|k: int| 0 <= k < cube_pos@.len() && #[trigger] pos_cell(cube_pos@[k]) == (xs@[a], y),
        decreases xs.len() - i,
    {
        let x: i32 = xs[i];
        assert(xs@.to_set().contains(xs@[i as int]));
        let column: &HashMap<i32, Cube> = match player_map.get(&x) {
            Some(c) => c,
            None => {
                proof { assert(false); }
                return SavedGameMap { cube_pos, cube_type };
            },
        };
        let ys = map_keys(column);
        let ghost start = cube_pos@.len();
        let ghost pos_before = cube_pos@;
        let ghost mut yown: Seq<int> = Seq::empty();
        let mut j: usize = 0;
        let ghost mut jg: int = 0;
        while j < ys.len()
            invariant
                jg == j as int,
                xs@.no_duplicates(),
                xs@.to_set() == player_map@.dom(),
                i < xs.len(),
                x == xs@[i as int],
                player_map@.contains_key(x),
                *column == player_map@[x],
                ys@.no_duplicates(),
                ys@.to_set() == column@.dom(),
                j <= ys.len(),
                cells == world_cells(player_map@),
                cube_pos@.len() == cube_type@.len(),
                own.len() == cube_pos@.len(),
                start <= cube_pos@.len(),
                cube_pos@.take(start as int) == pos_before,
                yown.len() == cube_pos@.len() - start,
                forall|k: int| 0 <= k < cube_pos@.len() ==> {
                    &&& cells.contains_key(#[trigger] pos_cell(cube_pos@[k]))
                    &&& cube_type@[k]@ == cube_id(cells[pos_cell(cube_pos@[k])])
                },
                forall|k: int| 0 <= k < start ==> 0 <= #[trigger] own[k] < i && cube_pos@[k][0] == xs@[own[k]],
                forall|k: int| start <= k < cube_pos@.len() ==> #[trigger] own[k] == i && cube_pos@[k][0] == x
                    && 0 <= yown[k - start] < jg && cube_pos@[k][1] == ys@[yown[k - start]],
                forall|k1: int, k2: int| 0 <= k1 < k2 < cube_pos@.len()
                    ==> #[trigger] pos_cell(cube_pos@[k1]) != #[trigger] pos_cell(cube_pos@[k2]),
                forall|a: int, y: i32| 0 <= a < i && #[trigger] cells.contains_key((xs@[a], y))
                    ==> exists|k: int| 0 <= k < cube_pos@.len() && #[trigger] pos_cell(cube_pos@[k]) == (xs@[a], y),
                forall|b: int| 0 <= b < j ==> lists_cell(cube_pos@, (x, #[trigger] ys@[b])),
            decreases ys.len() - j,
        {
            let y: i32 = ys[j];
            assert(ys@.to_set().contains(ys@[j as int]));
            let cube: Cube = match column.get(&y) {
                Some(c) => *c,
                None => {
                    proof { assert(false); }
                    return SavedGameMap { cube_pos, cube_type };
                },
            };
            let ghost old_pos = cube_pos@;
            let id = get_game_id(GameObjType::Cube(cube));
            cube_pos.push([x, y]);
            cube_type.push(id);
            proof {
                let n = old_pos.len() as int;
                assert(pos_cell(cube_pos@[n]) == (x, y));
                assert(forall|k: int| 0 <= k < n ==> #[trigger] cube_pos@[k] == old_pos[k]);
                assert(cube_pos@.take(start as int) =~= pos_before);
                assert forall|k: int| 0 <= k < n implies #[trigger] pos_cell(cube_pos@[k]) != (x, y) by {
                    assert(cube_pos@[k] == old_pos[k]);
                    if k < start {
                        assert(xs@[own[k]] != xs@[i as int]);
                    } else {
                        assert(ys@[yown[k - start]] != ys@[j as int]);
                    }
                }
                let old_yown = yown;
                let old_own = own;
                own = own.push(i as int);
                yown = yown.push(j as int);
                assert forall|k: int| start <= k < cube_pos@.len() implies #[trigger] own[k] == i
                    && cube_pos@[k][0] == x && 0 <= yown[k - start] < j + 1
                    && cube_pos@[k][1] == ys@[yown[k - start]] by {
                    if k < n {
                        assert(cube_pos@[k] == old_pos[k]);
                        assert(own[k] == old_own[k]);
                        assert(yown[k - start] == old_yown[k - start]);
                    }
                }
                assert forall|k: int| 0 <= k < start implies 0 <= #[trigger] own[k] < i
                    && cube_pos@[k][0] == xs@[own[k]] by {
                    assert(cube_pos@[k] == old_pos[k]);
                    assert(own[k] == old_own[k]);
                }
                assert forall|a: int, y1: i32| 0 <= a < i && #[trigger] cells.contains_key((xs@[a], y1))
                    implies exists|k: int| 0 <= k < cube_pos@.len() && #[trigger] pos_cell(cube_pos@[k]) == (xs@[a], y1) by {
                    let k = choose|k: int| 0 <= k < old_pos.len() && #[trigger] pos_cell(old_pos[k]) == (xs@[a], y1);
                    assert(cube_pos@[k] == old_pos[k]);
                }
                assert forall|b: int| 0 <= b < j + 1 implies lists_cell(cube_pos@, (x, #[trigger] ys@[b])) by {
                    if b < j {
                        let k = choose|k: int| 0 <= k < old_pos.len() && #[trigger] pos_cell(old_pos[k]) == (x, ys@[b]);
                        assert(cube_pos@[k] == old_pos[k]);
                    } else {
                        assert(pos_cell(cube_pos@[n]) == (x, ys@[b]));
                    }
                }
            }
            proof { jg = jg + 1; }
            j = j + 1;
        }
        proof {
            assert forall|a: int, y: i32| 0 <= a < i + 1 && #[trigger] cells.contains_key((xs@[a], y))
                implies exists|k: int| 0 <= k < cube_pos@.len() && #[trigger] pos_cell(cube_pos@[k]) == (xs@[a], y) by {
                if a == i {
                    assert(column@.dom().contains(y));
                    assert(ys@.to_set().contains(y));
                    let b = choose|b: int| 0 <= b < ys@.len() && ys@[b] == y;
                    assert(lists_cell(cube_pos@, (x, ys@[b])));
                }
            }
        }
        i = i + 1;
    }
    proof {
        assert forall|p: (i32, i32)| #[trigger] cells.contains_key(p) implies lists_cell(cube_pos@, p) by {
            assert(player_map@.dom().contains(p.0));
            assert(xs@.to_set().contains(p.0));
            let a = choose|a: int| 0 <= a < xs@.len() && xs@[a] == p.0;
            assert(cells.contains_key((xs@[a], p.1)));
        }
    }
    SavedGameMap { cube_pos, cube_type }
}

/// Every id of a saved map that goes with a position names a block, and there
/// is an id for each position.
pub open spec fn saved_map_loadable(pos: Seq<[i32; 2]>, ids: Seq<Seq<char>>) -> bool {
    &&& ids.len() >= pos.len()
    &&& forall|k: int| 0 <= k < pos.len() ==> cube_of_id(#[trigger] ids[k]) is Some
}

/// The blocks read back from the first `n` entries of a saved map, each entry
/// putting its block into its cell (a later entry for a cell wins).
pub open spec fn loaded_cells(pos: Seq<[i32; 2]>, ids: Seq<Seq<char>>, n: nat) -> Map<(i32, i32), Cube>
    decreases n,
{
    if n == 0 {
        Map::empty()
    } else {
        loaded_cells(pos, ids, (n - 1) as nat).insert(pos_cell(pos[n - 1]), cube_of_id(ids[n - 1])->Some_0)
    }
}

/// The columns named by the first `n` positions of a saved map.
pub open spec fn saved_columns(pos: Seq<[i32; 2]>, n: nat) -> Set<i32>
    decreases n,
{
    if n == 0 {
        Set::empty()
    } else {
        saved_columns(pos, (n - 1) as nat).insert(pos[n - 1][0])
    }
}

/// Reads the block map back from a save: every entry puts its block into its
/// cell, and there is a column for each column that an entry names.
pub fn load_player_map(saved: &SavedGameMap) -> (player_map: HashMap<i32, HashMap<i32, Cube>>)
    requires
        saved_map_loadable(saved.cube_pos@, id_views(saved.cube_type@)),
    ensures
        world_cells(player_map@) == loaded_cells(
            saved.cube_pos@,
            id_views(saved.cube_type@),
            saved.cube_pos@.len(),
        ),
        player_map@.dom() == saved_columns(saved.cube_pos@, saved.cube_pos@.len()),
{
    let ghost pos = saved.cube_pos@;
    let ghost ids = id_views(saved.cube_type@);
    let mut player_map: HashMap<i32, HashMap<i32, Cube>> = HashMap::new();
    let n = saved.cube_pos.len();
    let mut k: usize = 0;
    assert(world_cells(player_map@) =~= loaded_cells(pos, ids, 0));
    assert(player_map@.dom() =~= saved_columns(pos, 0));
    while k < n
        invariant
            n == pos.len(),
            pos == saved.cube_pos@,
            ids == id_views(saved.cube_type@),
            saved_map_loadable(pos, ids),
            k <= n,
            world_cells(player_map@) == loaded_cells(pos, ids, k as nat),
            player_map@.dom() == saved_columns(pos, k as nat),
        decreases n - k,
    {
        let p: [i32; 2] = saved.cube_pos[k];
        let x: i32 = p[0];
        let y: i32 = p[1];
        assert(cube_of_id(ids[k as int]) is Some);
        assert(saved.cube_type@[k as int]@ == ids[k as int]);
        let cube: Cube = match new_game_obj(saved.cube_type[k].as_str()) {
            Some(GameObjType::Cube(c)) => c,
            _ => {
                proof { assert(false); }
                return player_map;
            },
        };
        let ghost before = player_map@;
        let mut column: HashMap<i32, Cube> = match player_map.remove(&x) {
            Some(c) => c,
            None => HashMap::new(),
        };
        column.insert(y, cube);
        player_map.insert(x, column);
        assert(world_cells(player_map@) =~= world_cells(before).insert((x, y), cube));
        k = k + 1;
        assert(pos_cell(pos[k - 1]) == (x, y));
        assert(world_cells(player_map@) =~= loaded_cells(pos, ids, k as nat));
        assert(player_map@.dom() =~= saved_columns(pos, k as nat));
    }
    player_map
}

/// With the entries' cells all different, the first `n` entries read back as
/// exactly their blocks.
proof fn lemma_loaded_cells_distinct(pos: Seq<[i32; 2]>, ids: Seq<Seq<char>>, n: nat)
    requires
        n <= pos.len(),
        forall|k1: int, k2: int| 0 <= k1 < k2 < pos.len()
            ==> #[trigger] pos_cell(pos[k1]) != #[trigger] pos_cell(pos[k2]),
    ensures
        forall|p: (i32, i32)| #[trigger] loaded_cells(pos, ids, n).contains_key(p)
            ==> exists|k: int| 0 <= k < n && #[trigger] pos_cell(pos[k]) == p,
        forall|k: int| 0 <= k < n ==> {
            &&& #[trigger] loaded_cells(pos, ids, n).contains_key(pos_cell(pos[k]))
            &&& loaded_cells(pos, ids, n)[pos_cell(pos[k])] == cube_of_id(ids[k])->Some_0
        },
    decreases n,
{
    if n > 0 {
        let m = (n - 1) as nat;
        lemma_loaded_cells_distinct(pos, ids, m);
        let prev = loaded_cells(pos, ids, m);
        assert(loaded_cells(pos, ids, n) == prev.insert(pos_cell(pos[m as int]), cube_of_id(ids[m as int])->Some_0));
        assert forall|p: (i32, i32)| #[trigger] loaded_cells(pos, ids, n).contains_key(p)
            implies exists|k: int| 0 <= k < n && #[trigger] pos_cell(pos[k]) == p by {
            if p == pos_cell(pos[m as int]) {
                assert(pos_cell(pos[m as int]) == p);
            } else {
                assert(prev.contains_key(p));
                let k = choose|k: int| 0 <= k < m && #[trigger] pos_cell(pos[k]) == p;
                assert(pos_cell(pos[k]) == p);
            }
        }
        assert forall|k: int| 0 <= k < n implies {
            &&& #[trigger] loaded_cells(pos, ids, n).contains_key(pos_cell(pos[k]))
            &&& loaded_cells(pos, ids, n)[pos_cell(pos[k])] == cube_of_id(ids[k])->Some_0
        } by {
            if k < m {
                assert(pos_cell(pos[k]) != pos_cell(pos[m as int]));
                assert(prev.contains_key(pos_cell(pos[k])));
            }
        }
    }
}

/// Saving the block map and reading it back gives the same blocks in the same cells.
pub proof fn lemma_map_save_load(pos: Seq<[i32; 2]>, ids: Seq<Seq<char>>, cells: Map<(i32, i32), Cube>)
    requires
        saved_map_describes(pos, ids, cells),
    ensures
        saved_map_loadable(pos, ids),
        loaded_cells(pos, ids, pos.len()) == cells,
{
    assert forall|k: int| 0 <= k < pos.len() implies cube_of_id(#[trigger] ids[k]) == Some(cells[pos_cell(pos[k])]) by {
        lemma_game_id_round_trip(cells[pos_cell(pos[k])]);
    }
    lemma_loaded_cells_distinct(pos, ids, pos.len());
    let loaded = loaded_cells(pos, ids, pos.len());
    assert forall|p: (i32, i32)| loaded.contains_key(p) <==> cells.contains_key(p) by {
        if cells.contains_key(p) {
            assert(lists_cell(pos, p));
            let k = choose|k: int| 0 <= k < pos.len() && #[trigger] pos_cell(pos[k]) == p;
            assert(loaded.contains_key(pos_cell(pos[k])));
        }
    }
    assert forall|p: (i32, i32)| #[trigger] loaded.contains_key(p) implies loaded[p] == cells[p] by {
        let k = choose|k: int| 0 <= k < pos.len() && #[trigger] pos_cell(pos[k]) == p;
        assert(loaded.contains_key(pos_cell(pos[k])));
        assert(cube_of_id(ids[k]) == Some(cells[pos_cell(pos[k])]));
    }
    assert(loaded =~= cells);
}

/// The hot bar as a save holds it: per slot the id of its item and its count,
/// and the selected slot.
#[derive(Debug)]
pub struct SavedGamePlayerBar {
    pub player_bar_items: [String; 5],
    pub player_bar_items_count: [i32; 5],
    pub player_bar_select_index: usize,
}

/// The slot items that a save can write down: none, or a block.
pub open spec fn slot_saveable(item: Option<GameObjType>) -> bool {
    item matches None || item matches Some(GameObjType::Cube(_))
}

/// The id under which a slot's item is saved.
pub open spec fn slot_id(item: Option<GameObjType>) -> Seq<char> {
    match item {
        Some(GameObjType::Cube(c)) => cube_id(c),
        _ => empty_slot_id(),
    }
}

fn slot_id_string(item: Option<GameObjType>) -> (id: String)
    requires
        slot_saveable(item),
    ensures
        id@ == slot_id(item),
{
    match item {
        Some(obj) => get_game_id(obj),
        None => "None".to_string(),
    }
}

/// Writes the hot bar down for a save: each slot's item id (`"None"` for an
/// empty slot) and its count, and the selected slot.
pub fn save_player_bar(bar: &[(Option<GameObjType>, isize); 5], select_index: usize) -> (saved: SavedGamePlayerBar)
    requires
        forall|i: int| 0 <= i < BAR_SIZE ==> slot_saveable(#[trigger] bar@[i].0),
    ensures
        forall|i: int| 0 <= i < BAR_SIZE ==> {
            &&& (#[trigger] saved.player_bar_items@[i])@ == slot_id(bar@[i].0)
            &&& saved.player_bar_items_count@[i] == bar@[i].1 as i32
        },
        saved.player_bar_select_index == select_index,
{
    let items: [String; 5] = [
        slot_id_string(bar[0].0),
        slot_id_string(bar[1].0),
        slot_id_string(bar[2].0),
        slot_id_string(bar[3].0),
        slot_id_string(bar[4].0),
    ];
    let counts: [i32; 5] = [
        bar[0].1 as i32,
        bar[1].1 as i32,
        bar[2].1 as i32,
        bar[3].1 as i32,
        bar[4].1 as i32,
    ];
    SavedGamePlayerBar { player_bar_items: items, player_bar_items_count: counts, player_bar_select_index: select_index }
}

/// Reads the hot bar back from a save: each slot gets the item its id names
/// (none for `"None"`) and its count.
pub fn load_player_bar(saved: &SavedGamePlayerBar) -> (bar: [(Option<GameObjType>, isize); 5])
    requires
        forall|i: int| 0 <= i < BAR_SIZE ==> game_id_known((#[trigger] saved.player_bar_items@[i])@),
    ensures
        forall|i: int| 0 <= i < BAR_SIZE ==> #[trigger] bar@[i] == (
            game_obj_of_id(saved.player_bar_items@[i]@),
            saved.player_bar_items_count@[i] as isize,
        ),
{
    let items = &saved.player_bar_items;
    let counts = &saved.player_bar_items_count;
    assert(game_id_known(items@[0]@) && game_id_known(items@[1]@) && game_id_known(items@[2]@));
    assert(game_id_known(items@[3]@) && game_id_known(items@[4]@));
    [
        (new_game_obj(items[0].as_str()), counts[0] as isize),
        (new_game_obj(items[1].as_str()), counts[1] as isize),
        (new_game_obj(items[2].as_str()), counts[2] as isize),
        (new_game_obj(items[3].as_str()), counts[3] as isize),
        (new_game_obj(items[4].as_str()), counts[4] as isize),
    ]
}

/// Saving a hot-bar slot and reading it back gives the same slot, when its
/// item can be saved and its count fits the saved width.
pub proof fn lemma_bar_slot_save_load(slot: (Option<GameObjType>, isize))
    requires
        slot_saveable(slot.0),
        i32::MIN <= slot.1 <= i32::MAX,
    ensures
        game_id_known(slot_id(slot.0)),
        (game_obj_of_id(slot_id(slot.0)), (slot.1 as i32) as isize) == slot,
{
    lemma_empty_slot_id();
    match slot.0 {
        Some(GameObjType::Cube(c)) => lemma_game_id_round_trip(c),
        _ => {},
    }
}

} // verus!
