//! The volume generator: it thresholds one noise level for each cell into an
//! occupancy flag.

use vstd::prelude::*;
use crate::error::VoxelError;
use vstd::arithmetic::div_mod::lemma_fundamental_div_mod_converse;
use vstd::seq_lib::seq_to_set_is_finite;
use vstd::set_lib::lemma_map_size;
use crate::grid::{
    build_index, coords_of, holds_volume, in_volume, index_of, lemma_index_in_range,
    lemma_index_injective, lemma_index_of_coords, volume_len, Cell,
};
use crate::level::Level;

verus! {

/// The flags of a volume whose cells have the noise levels `samples`: a cell
/// is occupied exactly when its level lies strictly above `cut_off`.
pub open spec fn thresholded(samples: Seq<Level>, cut_off: Level) -> Seq<bool> {
    Seq::new(samples.len(), |i: int| samples[i].spec_exceeds(cut_off))
}

/// The number of occupied cells.
pub open spec fn occupied_count(field: Seq<bool>) -> nat
    decreases field.len(),
{
    if field.len() == 0 {
        0
    } else {
        occupied_count(field.drop_last()) + if field.last() {
            1nat
        } else {
            0nat
        }
    }
}

/// What [`generate_volume`] answers: the error that the dimensions or the
/// number of samples call for, or else the flags.
pub open spec fn spec_generate_volume(
    chunk_size: int,
    max_height: int,
    samples: Seq<Level>,
    cut_off: Level,
) -> Result<Seq<bool>, VoxelError> {
    if chunk_size == 0 || max_height == 0 {
        Err(VoxelError::InvalidDimensions)
    } else if samples.len() != volume_len(chunk_size, max_height) {
        Err(VoxelError::BufferSizeMismatch)
    } else {
        Ok(thresholded(samples, cut_off))
    }
}

/// An answer of [`generate_volume`] with the flags as a sequence.
pub open spec fn answer_of(result: Result<Vec<bool>, VoxelError>) -> Result<Seq<bool>, VoxelError> {
    match result {
        Ok(field) => Ok(field@),
        Err(e) => Err(e),
    }
}

/// The occupancy flags of a volume of `chunk_size` by `chunk_size` cells and
/// `max_height` layers. `samples` holds the noise level of every cell at the
/// cell's flat index; a cell is occupied exactly when its level lies strictly
/// above `cut_off`.
///
/// A volume without cells is refused with [`VoxelError::InvalidDimensions`],
/// before anything else is looked at. Then `samples` must hold one level for
/// each cell, or the call fails with [`VoxelError::BufferSizeMismatch`].
pub fn generate_volume(chunk_size: u32, max_height: u32, samples: &Vec<Level>, cut_off: Level) -> (result:
    Result<Vec<bool>, VoxelError>)
    ensures
        answer_of(result) == spec_generate_volume(
            chunk_size as int,
            max_height as int,
            samples@,
            cut_off,
        ),
{
    if chunk_size == 0 || max_height == 0 {
        return Err(VoxelError::InvalidDimensions);
    }
    if !holds_volume(samples.len(), chunk_size, max_height) {
        return Err(VoxelError::BufferSizeMismatch);
    }
    let mut field: Vec<bool> = Vec::with_capacity(samples.len());
    for i in 0..samples.len()
        invariant
            field@ == thresholded(samples@.take(i as int), cut_off),
    {
        let occupied = samples[i].exceeds(cut_off);
        field.push(occupied);
        assert(field@ =~= thresholded(samples@.take(i + 1), cut_off));
    }
    assert(samples@.take(samples@.len() as int) =~= samples@);
    Ok(field)
}

/// Generating a volume twice from the same dimensions, levels and cut-off
/// gives the same answer twice: the same flags, or the same error.
pub proof fn lemma_generate_volume_deterministic(
    chunk_size: u32,
    max_height: u32,
    samples: Seq<Level>,
    cut_off: Level,
    first: Result<Vec<bool>, VoxelError>,
    second: Result<Vec<bool>, VoxelError>,
)
    requires
        answer_of(first) == spec_generate_volume(
            chunk_size as int,
            max_height as int,
            samples,
            cut_off,
        ),
        answer_of(second) == spec_generate_volume(
            chunk_size as int,
            max_height as int,
            samples,
            cut_off,
        ),
    ensures
        answer_of(first) == answer_of(second),
        first is Ok <==> second is Ok,
        first is Ok ==> first->Ok_0@ == second->Ok_0@,
        first is Err ==> first->Err_0 == second->Err_0,
{
}

/// In a generated volume the flag at the index of a cell says whether the
/// level sampled for that cell lies strictly above the cut-off.
pub proof fn lemma_volume_by_cell(
    chunk_size: int,
    max_height: int,
    samples: Seq<Level>,
    cut_off: Level,
    x: int,
    y: int,
    z: int,
)
    requires
        samples.len() == volume_len(chunk_size, max_height),
        in_volume(x, y, z, chunk_size, max_height),
    ensures
        spec_generate_volume(chunk_size, max_height, samples, cut_off) is Ok,
        0 <= index_of(x, y, z, chunk_size, max_height) < samples.len(),
        spec_generate_volume(chunk_size, max_height, samples, cut_off)->Ok_0[index_of(
            x,
            y,
            z,
            chunk_size,
            max_height,
        )] == samples[index_of(x, y, z, chunk_size, max_height)].spec_exceeds(cut_off),
{
    lemma_index_in_range(x, y, z, chunk_size, max_height);
}

/// No more cells are occupied than there are cells.
pub proof fn lemma_occupied_count_bound(field: Seq<bool>)
    ensures
        occupied_count(field) <= field.len(),
    decreases field.len(),
{
    if field.len() > 0 {
        lemma_occupied_count_bound(field.drop_last());
    }
}

/// A volume without an occupied cell counts none, and the other way round.
pub proof fn lemma_occupied_count_zero(field: Seq<bool>)
    ensures
        occupied_count(field) == 0 <==> forall|i: int| 0 <= i < field.len() ==> !field[i],
    decreases field.len(),
{
    if field.len() > 0 {
        let front = field.drop_last();
        lemma_occupied_count_zero(front);
        assert forall|i: int| 0 <= i < front.len() implies front[i] == field[i] by {}
        if occupied_count(field) == 0 {
            assert forall|i: int| 0 <= i < field.len() implies !field[i] by {
                if i < front.len() {
                    assert(front[i] == field[i]);
                }
            }
        }
    }
}

/// Where every occupied cell of one volume is occupied in another of the same
/// length, the other has at least as many occupied cells.
pub proof fn lemma_occupied_count_monotone(fewer: Seq<bool>, more: Seq<bool>)
    requires
        fewer.len() == more.len(),
        forall|i: int| 0 <= i < fewer.len() ==> (fewer[i] ==> more[i]),
    ensures
        occupied_count(fewer) <= occupied_count(more),
    decreases fewer.len(),
{
    if fewer.len() > 0 {
        lemma_occupied_count_monotone(fewer.drop_last(), more.drop_last());
    }
}

/// Raising the cut-off never adds an occupied cell: the levels that lie above
/// the higher cut-off lie above the lower one too.
pub proof fn lemma_raising_cut_off(samples: Seq<Level>, low: Level, high: Level)
    requires
        low.spec_at_most(high),
    ensures
        occupied_count(thresholded(samples, high)) <= occupied_count(thresholded(samples, low)),
        forall|i: int|
            0 <= i < samples.len() && thresholded(samples, high)[i] ==> thresholded(
                samples,
                low,
            )[i],
{
    lemma_occupied_count_monotone(thresholded(samples, high), thresholded(samples, low));
}

/// With a cut-off that no level lies above, the volume is empty. Such is the
/// cut-off at the top of the range that the levels come from.
pub proof fn lemma_cut_off_at_top(samples: Seq<Level>, cut_off: Level)
    requires
        forall|i: int| 0 <= i < samples.len() ==> samples[i].spec_at_most(cut_off),
    ensures
        forall|i: int| 0 <= i < samples.len() ==> !thresholded(samples, cut_off)[i],
        occupied_count(thresholded(samples, cut_off)) == 0,
{
    lemma_occupied_count_zero(thresholded(samples, cut_off));
}

/// With a cut-off that every level lies above, the volume is solid.
pub proof fn lemma_cut_off_below_all(samples: Seq<Level>, cut_off: Level)
    requires
        forall|i: int| 0 <= i < samples.len() ==> samples[i].spec_exceeds(cut_off),
    ensures
        forall|i: int| 0 <= i < samples.len() ==> thresholded(samples, cut_off)[i],
        occupied_count(thresholded(samples, cut_off)) == samples.len(),
    decreases samples.len(),
{
    if samples.len() > 0 {
        let front = samples.drop_last();
        lemma_cut_off_below_all(front, cut_off);
        assert(thresholded(samples, cut_off).drop_last() =~= thresholded(front, cut_off));
    }
}

/// The place of the cell `(x, y, z)` in the scan that runs through a volume
/// with `x` slowest, then `y`, and `z` fastest.
pub open spec fn scan_place(x: int, y: int, z: int, chunk_size: int, max_height: int) -> int {
    (x * max_height + y) * chunk_size + z
}

/// The place of `cell` in the scan.
pub open spec fn place_of(cell: Cell, chunk_size: int, max_height: int) -> int {
    scan_place(cell.x as int, cell.y as int, cell.z as int, chunk_size, max_height)
}

/// The cell at place `n` of the scan.
pub open spec fn scan_cell(n: int, chunk_size: int, max_height: int) -> Cell {
    Cell {
        x: ((n / chunk_size) / max_height) as usize,
        y: ((n / chunk_size) % max_height) as usize,
        z: (n % chunk_size) as usize,
    }
}

/// Whether `a` comes before `b` when cells are ordered by `x`, then by `y`,
/// then by `z`.
pub open spec fn comes_before(a: Cell, b: Cell) -> bool {
    a.x < b.x || (a.x == b.x && (a.y < b.y || (a.y == b.y && a.z < b.z)))
}

/// Whether `cell` is a cell of the volume and occupied.
pub open spec fn is_occupied(field: Seq<bool>, cell: Cell, chunk_size: int, max_height: int) -> bool {
    &&& in_volume(cell.x as int, cell.y as int, cell.z as int, chunk_size, max_height)
    &&& field[index_of(cell.x as int, cell.y as int, cell.z as int, chunk_size, max_height)]
}

/// The occupied cells among the first `n` of the scan, in the order of the
/// scan.
pub open spec fn occupied_until(field: Seq<bool>, chunk_size: int, max_height: int, n: int) -> Seq<
    Cell,
>
    decreases n,
{
    if n <= 0 {
        Seq::empty()
    } else {
        let before = occupied_until(field, chunk_size, max_height, n - 1);
        let cell = scan_cell(n - 1, chunk_size, max_height);
        if is_occupied(field, cell, chunk_size, max_height) {
            before.push(cell)
        } else {
            before
        }
    }
}

/// The occupied cells of a volume in ascending order: by `x`, then by `y`,
/// then by `z`.
pub open spec fn occupied(field: Seq<bool>, chunk_size: int, max_height: int) -> Seq<Cell> {
    occupied_until(field, chunk_size, max_height, field.len() as int)
}

/// The scan visits every cell of a volume at a place of its own below the
/// volume's length, and the cell at that place is the cell again.
pub proof fn lemma_scan_cell(x: int, y: int, z: int, chunk_size: int, max_height: int)
    requires
        in_volume(x, y, z, chunk_size, max_height),
        volume_len(chunk_size, max_height) <= usize::MAX,
    ensures
        0 <= scan_place(x, y, z, chunk_size, max_height) < volume_len(chunk_size, max_height),
        scan_cell(scan_place(x, y, z, chunk_size, max_height), chunk_size, max_height) == (Cell {
            x: x as usize,
            y: y as usize,
            z: z as usize,
        }),
{
    let row = x * max_height + y;
    let n = scan_place(x, y, z, chunk_size, max_height);
    assert(0 <= row <= chunk_size * max_height - 1) by (nonlinear_arith)
        requires
            0 <= x < chunk_size,
            0 <= y < max_height,
            row == x * max_height + y,
    ;
    assert(0 <= row * chunk_size + z < chunk_size * chunk_size * max_height) by (nonlinear_arith)
        requires
            0 <= z < chunk_size,
            0 <= row <= chunk_size * max_height - 1,
    ;
    lemma_fundamental_div_mod_converse(n, chunk_size, row, z);
    lemma_fundamental_div_mod_converse(row, max_height, x, y);
}

/// Every place below the volume's length is the place of a cell of the
/// volume.
pub proof fn lemma_scan_place(n: int, chunk_size: int, max_height: int)
    requires
        0 <= n < volume_len(chunk_size, max_height),
        volume_len(chunk_size, max_height) <= usize::MAX,
        0 < chunk_size,
        0 < max_height,
    ensures
        ({
            let cell = scan_cell(n, chunk_size, max_height);
            &&& in_volume(cell.x as int, cell.y as int, cell.z as int, chunk_size, max_height)
            &&& place_of(cell, chunk_size, max_height) == n
        }),
{
    lemma_index_of_coords(n, chunk_size, max_height);
    let (z, y, x) = coords_of(n, chunk_size, max_height);
    assert(scan_place(x, y, z, chunk_size, max_height) == n) by (nonlinear_arith)
        requires
            z + y * chunk_size + x * chunk_size * max_height == n,
    ;
    assert(x <= n && y <= n && z <= n) by (nonlinear_arith)
        requires
            z + y * chunk_size + x * chunk_size * max_height == n,
            0 <= x,
            0 <= y,
            0 <= z,
            0 < chunk_size,
            0 < max_height,
    ;
}

/// Of two cells of a volume, the one that comes first in the order by `x`,
/// `y` and `z` has the lower place in the scan.
pub proof fn lemma_place_order(a: Cell, b: Cell, chunk_size: int, max_height: int)
    requires
        in_volume(a.x as int, a.y as int, a.z as int, chunk_size, max_height),
        in_volume(b.x as int, b.y as int, b.z as int, chunk_size, max_height),
    ensures
        comes_before(a, b) <==> place_of(a, chunk_size, max_height) < place_of(
            b,
            chunk_size,
            max_height,
        ),
        a == b <==> place_of(a, chunk_size, max_height) == place_of(b, chunk_size, max_height),
{
    if comes_before(a, b) {
        lemma_place_rises(a, b, chunk_size, max_height);
    } else if comes_before(b, a) {
        lemma_place_rises(b, a, chunk_size, max_height);
    } else {
        assert(a.x == b.x && a.y == b.y && a.z == b.z);
    }
}

/// The cell that comes first has the lower place.
proof fn lemma_place_rises(a: Cell, b: Cell, chunk_size: int, max_height: int)
    requires
        in_volume(a.x as int, a.y as int, a.z as int, chunk_size, max_height),
        in_volume(b.x as int, b.y as int, b.z as int, chunk_size, max_height),
        comes_before(a, b),
    ensures
        place_of(a, chunk_size, max_height) < place_of(b, chunk_size, max_height),
{
    let (ax, ay, az) = (a.x as int, a.y as int, a.z as int);
    let (bx, by, bz) = (b.x as int, b.y as int, b.z as int);
    let row_a = ax * max_height + ay;
    let row_b = bx * max_height + by;
    if ax < bx {
        assert(row_a < row_b) by (nonlinear_arith)
            requires
                ax < bx,
                0 <= ay < max_height,
                0 <= by,
                row_a == ax * max_height + ay,
                row_b == bx * max_height + by,
        ;
    }
    if row_a < row_b {
        assert(row_a * chunk_size + az < row_b * chunk_size + bz) by (nonlinear_arith)
            requires
                row_a < row_b,
                0 <= az < chunk_size,
                0 <= bz,
        ;
    }
}

/// What the list of the first `n` places holds: occupied cells only, each at
/// a place below `n`, in rising order of their places, and every occupied cell
/// at such a place.
proof fn lemma_occupied_until(field: Seq<bool>, chunk_size: int, max_height: int, n: int)
    requires
        0 < chunk_size,
        0 < max_height,
        field.len() == volume_len(chunk_size, max_height) <= usize::MAX,
        0 <= n <= field.len(),
    ensures
        ({
            let list = occupied_until(field, chunk_size, max_height, n);
            &&& list.len() <= n
            &&& forall|k: int|
                0 <= k < list.len() ==> is_occupied(
                    field,
                    #[trigger] list[k],
                    chunk_size,
                    max_height,
                ) && place_of(list[k], chunk_size, max_height) < n
            &&& forall|j: int, k: int|
                0 <= j < k < list.len() ==> place_of(#[trigger] list[j], chunk_size, max_height)
                    < place_of(#[trigger] list[k], chunk_size, max_height)
            &&& forall|m: int|
                0 <= m < n && is_occupied(
                    field,
                    #[trigger] scan_cell(m, chunk_size, max_height),
                    chunk_size,
                    max_height,
                ) ==> list.contains(scan_cell(m, chunk_size, max_height))
        }),
    decreases n,
{
    if n > 0 {
        lemma_occupied_until(field, chunk_size, max_height, n - 1);
        lemma_scan_place(n - 1, chunk_size, max_height);
        let before = occupied_until(field, chunk_size, max_height, n - 1);
        let list = occupied_until(field, chunk_size, max_height, n);
        let cell = scan_cell(n - 1, chunk_size, max_height);
        if is_occupied(field, cell, chunk_size, max_height) {
            assert(list[before.len() as int] == cell);
        }
        assert forall|m: int|
            0 <= m < n && is_occupied(
                field,
                #[trigger] scan_cell(m, chunk_size, max_height),
                chunk_size,
                max_height,
            ) implies list.contains(scan_cell(m, chunk_size, max_height)) by {
            if m < n - 1 {
                let k = choose|k: int|
                    0 <= k < before.len() && before[k] == scan_cell(m, chunk_size, max_height);
                assert(list[k] == scan_cell(m, chunk_size, max_height));
            } else {
                assert(list[before.len() as int] == cell);
            }
        }
    }
}

/// The list of occupied cells holds exactly the occupied cells of the volume.
pub proof fn lemma_occupied_members(
    field: Seq<bool>,
    chunk_size: int,
    max_height: int,
    cell: Cell,
)
    requires
        0 <= chunk_size,
        0 <= max_height,
        field.len() == volume_len(chunk_size, max_height) <= usize::MAX,
    ensures
        occupied(field, chunk_size, max_height).contains(cell) <==> is_occupied(
            field,
            cell,
            chunk_size,
            max_height,
        ),
{
    let list = occupied(field, chunk_size, max_height);
    if chunk_size > 0 && max_height > 0 {
        lemma_occupied_until(field, chunk_size, max_height, field.len() as int);
        if is_occupied(field, cell, chunk_size, max_height) {
            lemma_scan_cell(cell.x as int, cell.y as int, cell.z as int, chunk_size, max_height);
            let m = place_of(cell, chunk_size, max_height);
            assert(scan_cell(m, chunk_size, max_height) == cell);
        }
    } else {
        assert(field.len() == 0) by (nonlinear_arith)
            requires
                field.len() == chunk_size * chunk_size * max_height,
                chunk_size == 0 || max_height == 0,
        ;
    }
}

/// The list of occupied cells is in ascending order by `x`, then `y`, then
/// `z`: of two entries the earlier comes before the later. So no cell is
/// listed twice.
pub proof fn lemma_occupied_ascending(
    field: Seq<bool>,
    chunk_size: int,
    max_height: int,
    j: int,
    k: int,
)
    requires
        0 <= chunk_size,
        0 <= max_height,
        field.len() == volume_len(chunk_size, max_height) <= usize::MAX,
        0 <= j < k < occupied(field, chunk_size, max_height).len(),
    ensures
        comes_before(
            occupied(field, chunk_size, max_height)[j],
            occupied(field, chunk_size, max_height)[k],
        ),
{
    let list = occupied(field, chunk_size, max_height);
    if chunk_size > 0 && max_height > 0 {
        lemma_occupied_until(field, chunk_size, max_height, field.len() as int);
        lemma_place_order(list[j], list[k], chunk_size, max_height);
    } else {
        assert(field.len() == 0) by (nonlinear_arith)
            requires
                field.len() == chunk_size * chunk_size * max_height,
                chunk_size == 0 || max_height == 0,
        ;
    }
}

/// The flat indices of the occupied cells of a volume.
pub open spec fn occupied_indices(field: Seq<bool>) -> Set<int> {
    Set::new(|i: int| 0 <= i < field.len() && field[i])
}

/// A volume counts as many occupied cells as it has indices of occupied
/// cells.
pub proof fn lemma_occupied_indices_len(field: Seq<bool>)
    ensures
        occupied_indices(field).finite(),
        occupied_indices(field).len() == occupied_count(field),
    decreases field.len(),
{
    if field.len() == 0 {
        assert(occupied_indices(field) =~= Set::<int>::empty());
    } else {
        let front = field.drop_last();
        lemma_occupied_indices_len(front);
        if field.last() {
            assert(occupied_indices(field) =~= occupied_indices(front).insert(field.len() - 1));
        } else {
            assert(occupied_indices(field) =~= occupied_indices(front));
        }
    }
}

/// The list of occupied cells is as long as the volume counts occupied
/// cells.
pub proof fn lemma_occupied_len(field: Seq<bool>, chunk_size: int, max_height: int)
    requires
        0 <= chunk_size,
        0 <= max_height,
        field.len() == volume_len(chunk_size, max_height) <= usize::MAX,
    ensures
        occupied(field, chunk_size, max_height).len() == occupied_count(field),
{
    let list = occupied(field, chunk_size, max_height);
    let cells = list.to_set();
    let indices = occupied_indices(field);
    let flat = |cell: Cell|
        index_of(cell.x as int, cell.y as int, cell.z as int, chunk_size, max_height);
    lemma_occupied_indices_len(field);
    seq_to_set_is_finite(list);
    assert(list.no_duplicates()) by {
        assert forall|j: int, k: int|
            0 <= j < list.len() && 0 <= k < list.len() && j != k implies list[j] != list[k] by {
            if j < k {
                lemma_occupied_ascending(field, chunk_size, max_height, j, k);
            } else {
                lemma_occupied_ascending(field, chunk_size, max_height, k, j);
            }
        }
    }
    list.unique_seq_to_set();
    assert forall|a: Cell, b: Cell|
        cells.contains(a) && cells.contains(b) && #[trigger] flat(a) == #[trigger] flat(
            b,
        ) implies a == b by {
        lemma_occupied_members(field, chunk_size, max_height, a);
        lemma_occupied_members(field, chunk_size, max_height, b);
        lemma_index_injective(
            a.x as int,
            a.y as int,
            a.z as int,
            b.x as int,
            b.y as int,
            b.z as int,
            chunk_size,
            max_height,
        );
    }
    assert forall|i: int| cells.map(flat).contains(i) <==> indices.contains(i) by {
        if cells.map(flat).contains(i) {
            let cell = choose|cell: Cell| cells.contains(cell) && i == flat(cell);
            lemma_occupied_members(field, chunk_size, max_height, cell);
            lemma_index_in_range(
                cell.x as int,
                cell.y as int,
                cell.z as int,
                chunk_size,
                max_height,
            );
        }
        if indices.contains(i) {
            assert(chunk_size > 0 && max_height > 0) by (nonlinear_arith)
                requires
                    0 <= i < chunk_size * chunk_size * max_height,
                    0 <= chunk_size,
                    0 <= max_height,
            ;
            lemma_index_of_coords(i, chunk_size, max_height);
            let (x, y, z) = coords_of(i, chunk_size, max_height);
            assert(x <= i && y <= i && z <= i) by (nonlinear_arith)
                requires
                    x + y * chunk_size + z * chunk_size * max_height == i,
                    0 <= x,
                    0 <= y,
                    0 <= z,
                    0 < chunk_size,
                    0 < max_height,
            ;
            let cell = Cell { x: x as usize, y: y as usize, z: z as usize };
            lemma_occupied_members(field, chunk_size, max_height, cell);
            assert(cells.contains(cell) && i == flat(cell));
        }
    }
    assert(cells.map(flat) =~= indices);
    lemma_map_size(cells, indices, flat);
}

/// The occupied cells of a volume of `chunk_size` by `chunk_size` cells and
/// `max_height` layers, in ascending order: by `x`, then by `y`, then by `z`.
///
/// A `field` that does not hold one flag for each cell is refused with
/// [`VoxelError::BufferSizeMismatch`].
pub fn occupied_cells(field: &Vec<bool>, chunk_size: u32, max_height: u32) -> (result: Result<
    Vec<Cell>,
    VoxelError,
>)
    ensures
        match result {
            Ok(cells) => {
                &&& field@.len() == volume_len(chunk_size as int, max_height as int)
                &&& cells@ == occupied(field@, chunk_size as int, max_height as int)
            },
            Err(e) => {
                &&& e == VoxelError::BufferSizeMismatch
                &&& field@.len() != volume_len(chunk_size as int, max_height as int)
            },
        },
{
    if !holds_volume(field.len(), chunk_size, max_height) {
        return Err(VoxelError::BufferSizeMismatch);
    }
    let (chunk_size, max_height) = (chunk_size as usize, max_height as usize);
    let ghost (width, height) = (chunk_size as int, max_height as int);
    let mut cells: Vec<Cell> = Vec::new();
    assert(scan_place(0, 0, 0, width, height) == 0) by (nonlinear_arith);
    assert(volume_len(width, height) <= usize::MAX);
    for x in 0..chunk_size
        invariant
            width == chunk_size,
            height == max_height,
            field@.len() == volume_len(width, height) <= usize::MAX,
            cells@ == occupied_until(
                field@,
                width,
                height,
                scan_place(x as int, 0, 0, width, height),
            ),
    {
        for y in 0..max_height
            invariant
                width == chunk_size,
                height == max_height,
                x < chunk_size,
                field@.len() == volume_len(width, height) <= usize::MAX,
                cells@ == occupied_until(
                    field@,
                    width,
                    height,
                    scan_place(x as int, y as int, 0, width, height),
                ),
        {
            for z in 0..chunk_size
                invariant
                    width == chunk_size,
                    height == max_height,
                    x < chunk_size,
                    y < max_height,
                    field@.len() == volume_len(width, height) <= usize::MAX,
                    cells@ == occupied_until(
                        field@,
                        width,
                        height,
                        scan_place(x as int, y as int, z as int, width, height),
                    ),
            {
                proof {
                    lemma_scan_cell(x as int, y as int, z as int, width, height);
                    lemma_index_in_range(x as int, y as int, z as int, width, height);
                }
                if field[build_index(x, y, z, chunk_size, max_height)] {
                    cells.push(Cell { x, y, z });
                }
            }
            assert(scan_place(x as int, y as int, width, width, height) == scan_place(
                x as int,
                y + 1,
                0,
                width,
                height,
            )) by (nonlinear_arith);
        }
        assert(scan_place(x as int, height, 0, width, height) == scan_place(
            x + 1,
            0,
            0,
            width,
            height,
        )) by (nonlinear_arith);
    }
    assert(scan_place(width, 0, 0, width, height) == volume_len(width, height))
        by (nonlinear_arith);
    Ok(cells)
}

} // verus!
