//! The block map of the world: for each column `x` a map from height `y`
//! to the block standing there, and the terrain column that generation lays down.

use std::collections::HashMap;
use vstd::prelude::*;
use crate::basic::Cube;

verus! {

broadcast use vstd::std_specs::hash::group_hash_axioms;

/// Lowest height at which terrain generation places stone.
pub const TERRAIN_BOTTOM: i32 = -63;

/// Depth of the soil layer under the grass of a generated column.
pub const SOIL_DEPTH: i32 = 3;

/// Every block of a map of columns, keyed by its `(x, y)` cell.
pub open spec fn world_cells(m: Map<i32, HashMap<i32, Cube>>) -> Map<(i32, i32), Cube> {
    Map::new(
        |p: (i32, i32)| m.contains_key(p.0) && m[p.0]@.contains_key(p.1),
        |p: (i32, i32)| m[p.0]@[p.1],
    )
}

/// The block that a generated column with its grass at `surface` holds at height `y`:
/// stone from the bottom up to the soil, three blocks of soil, then grass.
pub open spec fn column_block(surface: int, y: int) -> Option<Cube> {
    if y == surface {
        Some(Cube::GrassCube)
    } else if surface - SOIL_DEPTH <= y < surface {
        Some(Cube::SoilCube)
    } else if TERRAIN_BOTTOM <= y < surface - SOIL_DEPTH {
        Some(Cube::StoneCube)
    } else {
        None
    }
}

/// The generated column with its grass at `surface`, as a map from height to block.
pub open spec fn column_spec(surface: int) -> Map<i32, Cube> {
    Map::new(|y: i32| column_block(surface, y as int) is Some, |y: i32| column_block(surface, y as int)->Some_0)
}

/// A generated column is grass at its surface, three soil blocks under it,
/// stone from height -63 up to the soil, and nothing else.
pub proof fn lemma_column_shape(surface: i32, y: i32)
    requires
        surface >= i32::MIN + 3,
    ensures
        y == surface ==> column_spec(surface as int).contains_key(y) && column_spec(surface as int)[y] == Cube::GrassCube,
        surface - 3 <= y < surface ==> column_spec(surface as int).contains_key(y)
            && column_spec(surface as int)[y] == Cube::SoilCube,
        -63 <= y < surface - 3 ==> column_spec(surface as int).contains_key(y)
            && column_spec(surface as int)[y] == Cube::StoneCube,
        (y > surface || (y < -63 && y < surface - 3)) ==> !column_spec(surface as int).contains_key(y),
{
}

/// Lays down one terrain column with its grass block at height `surface`.
pub fn generate_column(surface: i32) -> (col: HashMap<i32, Cube>)
    requires
        surface >= i32::MIN + SOIL_DEPTH,
    ensures
        col@ == column_spec(surface as int),
{
    let mut col: HashMap<i32, Cube> = HashMap::new();
    let soil_top: i32 = surface - SOIL_DEPTH;
    let mut j: i32 = TERRAIN_BOTTOM;
    while j < soil_top
        invariant
            soil_top == surface - SOIL_DEPTH,
            TERRAIN_BOTTOM <= j,
            j <= soil_top || j == TERRAIN_BOTTOM,
            col@ == Map::new(|y: i32| TERRAIN_BOTTOM <= y < j, |y: i32| Cube::StoneCube),
        decreases soil_top - j,
    {
        col.insert(j, Cube::StoneCube);
        j = j + 1;
        assert(col@ =~= Map::new(|y: i32| TERRAIN_BOTTOM <= y < j, |y: i32| Cube::StoneCube));
    }
    let mut k: i32 = soil_top;
    while k < surface
        invariant
            soil_top == surface - SOIL_DEPTH,
            soil_top <= k <= surface,
            col@ == Map::new(
                |y: i32| (TERRAIN_BOTTOM <= y < soil_top) || (soil_top <= y < k),
                |y: i32| if y < soil_top { Cube::StoneCube } else { Cube::SoilCube },
            ),
        decreases surface - k,
    {
        col.insert(k, Cube::SoilCube);
        k = k + 1;
        assert(col@ =~= Map::new(
            |y: i32| (TERRAIN_BOTTOM <= y < soil_top) || (soil_top <= y < k),
            |y: i32| if y < soil_top { Cube::StoneCube } else { Cube::SoilCube },
        ));
    }
    col.insert(surface, Cube::GrassCube);
    assert(col@ =~= column_spec(surface as int));
    col
}

/// The block map that a player carries with it.
pub struct PlayerMapInfo {
    /// Columns that the player has explored.
    pub map_x_vector: Vec<i32>,
    /// Blocks by column `x`, then height `y`.
    pub map_hashmap: HashMap<i32, HashMap<i32, Cube>>,
}

} // verus!
