//! Arithmetic between the cells of a volume and the indices of its flat buffer.

use vstd::prelude::*;
use vstd::arithmetic::div_mod::lemma_fundamental_div_mod;
use vstd::arithmetic::div_mod::lemma_fundamental_div_mod_converse;

verus! {

/// The coordinates of one cell of a volume: `x` and `z` run along the
/// footprint, `y` runs upwards.
#[derive(Clone, Copy, Debug, PartialEq, Eq, Structural)]
pub struct Cell {
    pub x: usize,
    pub y: usize,
    pub z: usize,
}

/// The flat index of the cell `(x, y, z)`: `x` runs fastest, then `y`, then `z`.
pub open spec fn index_of(x: int, y: int, z: int, chunk_size: int, max_ceilling: int) -> int {
    x + y * chunk_size + z * chunk_size * max_ceilling
}

/// The coordinates of the cell that the flat index `i` stands for.
pub open spec fn coords_of(i: int, chunk_size: int, max_ceilling: int) -> (int, int, int) {
    (i % chunk_size, (i / chunk_size) % max_ceilling, (i / chunk_size) / max_ceilling)
}

/// The cell that the flat index `i` stands for.
pub open spec fn cell_of(i: int, chunk_size: int, max_ceilling: int) -> Cell {
    let (x, y, z) = coords_of(i, chunk_size, max_ceilling);
    Cell { x: x as usize, y: y as usize, z: z as usize }
}

/// The number of cells of a volume.
pub open spec fn volume_len(chunk_size: int, max_ceilling: int) -> int {
    chunk_size * chunk_size * max_ceilling
}

/// Whether `(x, y, z)` names a cell of the volume.
pub open spec fn in_volume(x: int, y: int, z: int, chunk_size: int, max_ceilling: int) -> bool {
    &&& 0 <= x < chunk_size
    &&& 0 <= y < max_ceilling
    &&& 0 <= z < chunk_size
}

/// Every cell of a volume has an index below the volume's length.
pub proof fn lemma_index_in_range(x: int, y: int, z: int, chunk_size: int, max_ceilling: int)
    requires
        in_volume(x, y, z, chunk_size, max_ceilling),
    ensures
        0 <= index_of(x, y, z, chunk_size, max_ceilling) < volume_len(chunk_size, max_ceilling),
{
    let layer = y + z * max_ceilling;
    assert(0 <= layer <= chunk_size * max_ceilling - 1) by (nonlinear_arith)
        requires
            0 <= y < max_ceilling,
            0 <= z < chunk_size,
            layer == y + z * max_ceilling,
    ;
    assert(index_of(x, y, z, chunk_size, max_ceilling) == x + layer * chunk_size)
        by (nonlinear_arith)
        requires
            layer == y + z * max_ceilling,
    ;
    assert(0 <= x + layer * chunk_size < chunk_size * chunk_size * max_ceilling)
        by (nonlinear_arith)
        requires
            0 <= x < chunk_size,
            0 <= layer <= chunk_size * max_ceilling - 1,
    ;
}

/// Going from a cell to its index and back gives the cell again.
pub proof fn lemma_coords_of_index(x: int, y: int, z: int, chunk_size: int, max_ceilling: int)
    requires
        in_volume(x, y, z, chunk_size, max_ceilling),
    ensures
        coords_of(index_of(x, y, z, chunk_size, max_ceilling), chunk_size, max_ceilling) == (
            x,
            y,
            z,
        ),
{
    let i = index_of(x, y, z, chunk_size, max_ceilling);
    let layer = y + z * max_ceilling;
    assert(i == layer * chunk_size + x) by (nonlinear_arith)
        requires
            i == x + y * chunk_size + z * chunk_size * max_ceilling,
            layer == y + z * max_ceilling,
    ;
    lemma_fundamental_div_mod_converse(i, chunk_size, layer, x);
    lemma_fundamental_div_mod_converse(layer, max_ceilling, z, y);
}

/// Going from an index to its cell and back gives the index again, and the
/// cell lies in the volume exactly when the index is below the volume's length.
pub proof fn lemma_index_of_coords(i: int, chunk_size: int, max_ceilling: int)
    requires
        0 <= i,
        0 < chunk_size,
        0 < max_ceilling,
    ensures
        ({
            let (x, y, z) = coords_of(i, chunk_size, max_ceilling);
            &&& index_of(x, y, z, chunk_size, max_ceilling) == i
            &&& 0 <= x < chunk_size
            &&& 0 <= y < max_ceilling
            &&& 0 <= z
            &&& z < chunk_size <==> i < volume_len(chunk_size, max_ceilling)
        }),
{
    let (x, y, z) = coords_of(i, chunk_size, max_ceilling);
    let layer = i / chunk_size;
    lemma_fundamental_div_mod(i, chunk_size);
    lemma_fundamental_div_mod(layer, max_ceilling);
    assert(0 <= layer) by (nonlinear_arith)
        requires
            i == chunk_size * layer + x,
            0 <= i,
            0 <= x < chunk_size,
    ;
    assert(0 <= z) by (nonlinear_arith)
        requires
            layer == max_ceilling * z + y,
            0 <= layer,
            0 <= y < max_ceilling,
    ;
    assert(index_of(x, y, z, chunk_size, max_ceilling) == i) by (nonlinear_arith)
        requires
            i == chunk_size * layer + x,
            layer == max_ceilling * z + y,
    ;
    if z < chunk_size {
        lemma_index_in_range(x, y, z, chunk_size, max_ceilling);
    } else {
        assert(i >= chunk_size * chunk_size * max_ceilling) by (nonlinear_arith)
            requires
                i == chunk_size * layer + x,
                layer == max_ceilling * z + y,
                0 <= x,
                0 <= y,
                z >= chunk_size,
                0 < chunk_size,
                0 < max_ceilling,
        ;
    }
}

/// Two cells of a volume with the same index are the same cell.
pub proof fn lemma_index_injective(
    x1: int,
    y1: int,
    z1: int,
    x2: int,
    y2: int,
    z2: int,
    chunk_size: int,
    max_ceilling: int,
)
    requires
        in_volume(x1, y1, z1, chunk_size, max_ceilling),
        in_volume(x2, y2, z2, chunk_size, max_ceilling),
        index_of(x1, y1, z1, chunk_size, max_ceilling) == index_of(
            x2,
            y2,
            z2,
            chunk_size,
            max_ceilling,
        ),
    ensures
        x1 == x2,
        y1 == y2,
        z1 == z2,
{
    lemma_coords_of_index(x1, y1, z1, chunk_size, max_ceilling);
    lemma_coords_of_index(x2, y2, z2, chunk_size, max_ceilling);
}

/// The flat index of the cell `(x, y, z)`.
pub fn build_index(x: usize, y: usize, z: usize, chunk_size: usize, max_ceilling: usize) -> (index:
    usize)
    requires
        index_of(x as int, y as int, z as int, chunk_size as int, max_ceilling as int)
            <= usize::MAX,
    ensures
        index == index_of(x as int, y as int, z as int, chunk_size as int, max_ceilling as int),
{
    assert(0 <= y * chunk_size && 0 <= z * chunk_size * max_ceilling) by (nonlinear_arith);
    let plane: usize = if max_ceilling == 0 {
        assert(z * chunk_size * max_ceilling == 0) by (nonlinear_arith)
            requires
                max_ceilling == 0,
        ;
        0
    } else {
        assert(z * chunk_size <= z * chunk_size * max_ceilling) by (nonlinear_arith)
            requires
                max_ceilling >= 1,
        ;
        z * chunk_size * max_ceilling
    };
    x + y * chunk_size + plane
}

/// The cell that the flat index `i` stands for.
pub fn build_vector(i: usize, chunk_size: usize, max_ceilling: usize) -> (cell: Cell)
    requires
        chunk_size > 0,
        max_ceilling > 0,
    ensures
        cell == cell_of(i as int, chunk_size as int, max_ceilling as int),
        (cell.x as int, cell.y as int, cell.z as int) == coords_of(
            i as int,
            chunk_size as int,
            max_ceilling as int,
        ),
{
    let layer: usize = i / chunk_size;
    Cell { x: i % chunk_size, y: layer % max_ceilling, z: layer / max_ceilling }
}

/// Whether a buffer of `len` entries holds one entry for each cell of a volume
/// of `chunk_size` by `chunk_size` cells and `max_ceilling` layers.
pub fn holds_volume(len: usize, chunk_size: u32, max_ceilling: u32) -> (holds: bool)
    ensures
        holds <==> len == volume_len(chunk_size as int, max_ceilling as int),
{
    assert(chunk_size * chunk_size <= 0xFFFF_FFFF * 0xFFFF_FFFF) by (nonlinear_arith)
        requires
            chunk_size <= 0xFFFF_FFFF,
    ;
    let footprint: u128 = (chunk_size as u128) * (chunk_size as u128);
    assert(footprint * max_ceilling <= 0xFFFF_FFFF * 0xFFFF_FFFF * 0xFFFF_FFFF)
        by (nonlinear_arith)
        requires
            footprint <= 0xFFFF_FFFF * 0xFFFF_FFFF,
            max_ceilling <= 0xFFFF_FFFF,
    ;
    let cells: u128 = footprint * (max_ceilling as u128);
    len as u128 == cells
}

} // verus!
