//! The mesh builder: it gathers the faces of the occupied cells and commits
//! the finished buffers once, as a copy.

use vstd::prelude::*;
use crate::cube::{
    cell_fits, cell_vertices, cube_corner, face_color, face_corners, face_normal, face_vertices,
    translate, Face, FaceColor, Normal, Point3, Vertex,
};
use crate::error::VoxelError;
use crate::volume::{lemma_occupied_count_zero, occupied_count};
use crate::grid::{
    build_vector, cell_of, holds_volume, lemma_index_of_coords, volume_len, Cell,
};

verus! {

/// Three parallel buffers: entry `i` of each describes vertex `i`, and every
/// three vertices in a row make one triangle.
#[derive(Debug)]
pub struct GeometryBuffers {
    pub positions: Vec<Point3>,
    pub normals: Vec<Normal>,
    pub colors: Vec<FaceColor>,
}

impl GeometryBuffers {
    /// The buffers run in lock-step.
    pub open spec fn wf(&self) -> bool {
        self.positions@.len() == self.normals@.len() && self.normals@.len() == self.colors@.len()
    }

    /// The vertices that the buffers describe.
    pub open spec fn view(&self) -> Seq<Vertex> {
        Seq::new(
            self.positions@.len(),
            |i: int|
                Vertex {
                    position: self.positions@[i],
                    normal: self.normals@[i],
                    color: self.colors@[i],
                },
        )
    }

    /// Buffers without a vertex.
    pub fn new() -> (buffers: GeometryBuffers)
        ensures
            buffers.wf(),
            buffers@ == Seq::<Vertex>::empty(),
    {
        let buffers = GeometryBuffers {
            positions: Vec::new(),
            normals: Vec::new(),
            colors: Vec::new(),
        };
        assert(buffers@ =~= Seq::<Vertex>::empty());
        buffers
    }

    /// The number of vertices.
    pub fn len(&self) -> (n: usize)
        requires
            self.wf(),
        ensures
            n == self@.len(),
    {
        self.positions.len()
    }

    /// A copy of the buffers, vertex by vertex.
    pub fn duplicate(&self) -> (copy: GeometryBuffers)
        requires
            self.wf(),
        ensures
            copy.wf(),
            copy@ == self@,
            copy.positions@ == self.positions@,
            copy.normals@ == self.normals@,
            copy.colors@ == self.colors@,
    {
        let mut copy = GeometryBuffers::new();
        assert(copy@.len() == 0);
        assert(copy.positions@ =~= self.positions@.take(0));
        assert(copy.normals@ =~= self.normals@.take(0));
        assert(copy.colors@ =~= self.colors@.take(0));
        for i in 0..self.positions.len()
            invariant
                self.wf(),
                copy.wf(),
                copy.positions@ == self.positions@.take(i as int),
                copy.normals@ == self.normals@.take(i as int),
                copy.colors@ == self.colors@.take(i as int),
        {
            copy.positions.push(self.positions[i]);
            copy.normals.push(self.normals[i]);
            copy.colors.push(self.colors[i]);
            assert(copy.positions@ =~= self.positions@.take(i + 1));
            assert(copy.normals@ =~= self.normals@.take(i + 1));
            assert(copy.colors@ =~= self.colors@.take(i + 1));
        }
        assert(copy.positions@ =~= self.positions@);
        assert(copy.normals@ =~= self.normals@);
        assert(copy.colors@ =~= self.colors@);
        assert(copy@ =~= self@);
        copy
    }

    /// Appends one vertex to all three buffers.
    pub fn push(&mut self, position: Point3, normal: Normal, color: FaceColor)
        requires
            old(self).wf(),
        ensures
            final(self).wf(),
            final(self)@ == old(self)@.push(Vertex { position, normal, color }),
    {
        self.positions.push(position);
        self.normals.push(normal);
        self.colors.push(color);
        assert(self@ =~= old(self)@.push(Vertex { position, normal, color }));
    }
}

/// The vertices of the mesh of a volume: the cubes of its occupied cells, in
/// the order of their flat indices.
pub open spec fn mesh_vertices(field: Seq<bool>, chunk_size: int, max_ceilling: int) -> Seq<Vertex>
    decreases field.len(),
{
    if field.len() == 0 {
        Seq::empty()
    } else {
        let before = mesh_vertices(field.drop_last(), chunk_size, max_ceilling);
        if field.last() {
            before + cell_vertices(cell_of(field.len() - 1, chunk_size, max_ceilling))
        } else {
            before
        }
    }
}

/// Every occupied cell of a volume gives the mesh thirty-six vertices, and an
/// empty cell gives it none.
pub proof fn lemma_mesh_len(field: Seq<bool>, chunk_size: int, max_ceilling: int)
    ensures
        mesh_vertices(field, chunk_size, max_ceilling).len() == 36 * occupied_count(field),
    decreases field.len(),
{
    if field.len() > 0 {
        lemma_mesh_len(field.drop_last(), chunk_size, max_ceilling);
    }
}

/// The three buffers of the mesh of a volume have the same length: thirty-six
/// entries for each occupied cell.
pub proof fn lemma_buffer_lens(
    buffers: GeometryBuffers,
    field: Seq<bool>,
    chunk_size: int,
    max_ceilling: int,
)
    requires
        buffers.wf(),
        buffers@ == mesh_vertices(field, chunk_size, max_ceilling),
    ensures
        buffers.positions@.len() == 36 * occupied_count(field),
        buffers.normals@.len() == 36 * occupied_count(field),
        buffers.colors@.len() == 36 * occupied_count(field),
{
    lemma_mesh_len(field, chunk_size, max_ceilling);
}

/// A volume without an occupied cell has a mesh without a vertex.
pub proof fn lemma_empty_volume_mesh(field: Seq<bool>, chunk_size: int, max_ceilling: int)
    requires
        forall|i: int| 0 <= i < field.len() ==> !field[i],
    ensures
        mesh_vertices(field, chunk_size, max_ceilling) == Seq::<Vertex>::empty(),
{
    lemma_occupied_count_zero(field);
    lemma_mesh_len(field, chunk_size, max_ceilling);
    assert(mesh_vertices(field, chunk_size, max_ceilling) =~= Seq::<Vertex>::empty());
}

/// The mesh of a volume with a single occupied cell is the cube of that cell.
pub proof fn lemma_single_cell_mesh(field: Seq<bool>, chunk_size: int, max_ceilling: int, i: int)
    requires
        0 <= i < field.len(),
        forall|j: int| 0 <= j < field.len() ==> (field[j] <==> j == i),
    ensures
        mesh_vertices(field, chunk_size, max_ceilling) == cell_vertices(
            cell_of(i, chunk_size, max_ceilling),
        ),
    decreases field.len(),
{
    let front = field.drop_last();
    if i == field.len() - 1 {
        lemma_empty_volume_mesh(front, chunk_size, max_ceilling);
        assert(Seq::<Vertex>::empty() + cell_vertices(cell_of(i, chunk_size, max_ceilling))
            =~= cell_vertices(cell_of(i, chunk_size, max_ceilling)));
    } else {
        lemma_single_cell_mesh(front, chunk_size, max_ceilling, i);
    }
}

/// Where a mesh instance stands between its creation and its commit.
#[derive(Clone, Copy, Debug, PartialEq, Eq, Structural)]
pub enum MeshState {
    /// No face has been added.
    Empty,
    /// At least one face has been added and the buffers are still held.
    Accumulating,
    /// The buffers have been committed. Nothing can be added any more.
    Finalized,
}

/// A mesh under construction, with the cube's tables that it emits from.
pub struct MeshInstance {
    buffers: GeometryBuffers,
    finalized: bool,
    cube_vertices: [Point3; 8],
    face_indices: [[[usize; 3]; 2]; 6],
    face_normals: [Normal; 6],
    face_colors: [FaceColor; 6],
}

impl MeshInstance {
    /// The buffers run in lock-step and the tables are those of the cube.
    pub closed spec fn wf(&self) -> bool {
        &&& self.buffers.wf()
        &&& forall|i: int| 0 <= i < 8 ==> #[trigger] self.cube_vertices@[i] == cube_corner(i)
        &&& forall|f: int, k: int|
            0 <= f < 6 && 0 <= k < 6 ==> (#[trigger] self.face_indices@[f]@[k / 3]@[k % 3])
                == face_corners(Face::spec_from_index(f))[k]
        &&& forall|f: int|
            0 <= f < 6 ==> #[trigger] self.face_normals@[f] == face_normal(
                Face::spec_from_index(f),
            )
        &&& forall|f: int|
            0 <= f < 6 ==> #[trigger] self.face_colors@[f] == face_color(Face::spec_from_index(f))
    }

    /// The vertices gathered so far. A commit leaves them as they are.
    pub closed spec fn view(&self) -> Seq<Vertex> {
        self.buffers@
    }

    /// Whether the buffers have been committed.
    pub closed spec fn is_finalized(&self) -> bool {
        self.finalized
    }

    /// The state of the instance.
    pub open spec fn spec_state(&self) -> MeshState {
        if self.is_finalized() {
            MeshState::Finalized
        } else if self@.len() == 0 {
            MeshState::Empty
        } else {
            MeshState::Accumulating
        }
    }

    /// An instance without geometry, ready to take faces.
    pub fn new() -> (instance: MeshInstance)
        ensures
            instance.wf(),
            instance@ == Seq::<Vertex>::empty(),
            instance.spec_state() == MeshState::Empty,
    {
        MeshInstance {
            buffers: GeometryBuffers::new(),
            finalized: false,
            cube_vertices: [
                Point3 { x: -1, y: -1, z: 1 },
                Point3 { x: 1, y: -1, z: 1 },
                Point3 { x: 1, y: -1, z: -1 },
                Point3 { x: -1, y: -1, z: -1 },
                Point3 { x: -1, y: 1, z: 1 },
                Point3 { x: 1, y: 1, z: 1 },
                Point3 { x: 1, y: 1, z: -1 },
                Point3 { x: -1, y: 1, z: -1 },
            ],
            face_indices: [
                [[0, 2, 1], [0, 3, 2]],
                [[0, 5, 4], [0, 1, 5]],
                [[1, 6, 5], [1, 2, 6]],
                [[4, 6, 7], [4, 5, 6]],
                [[3, 4, 7], [3, 0, 4]],
                [[2, 3, 7], [2, 7, 6]],
            ],
            face_normals: [
                Normal { x: 0, y: -1, z: 0 },
                Normal { x: 0, y: 0, z: 1 },
                Normal { x: 1, y: 0, z: 0 },
                Normal { x: 0, y: 1, z: 0 },
                Normal { x: -1, y: 0, z: 0 },
                Normal { x: 0, y: 0, z: -1 },
            ],
            face_colors: [
                FaceColor::Red,
                FaceColor::Orange,
                FaceColor::Yellow,
                FaceColor::Green,
                FaceColor::Blue,
                FaceColor::Purple,
            ],
        }
    }

    /// The state of the instance.
    pub fn state(&self) -> (state: MeshState)
        requires
            self.wf(),
        ensures
            state == self.spec_state(),
    {
        if self.finalized {
            MeshState::Finalized
        } else if self.buffers.len() == 0 {
            MeshState::Empty
        } else {
            MeshState::Accumulating
        }
    }

    /// The buffers as they stand, before a commit or after it.
    pub fn buffers(&self) -> (buffers: &GeometryBuffers)
        requires
            self.wf(),
        ensures
            buffers.wf(),
            buffers@ == self@,
    {
        &self.buffers
    }

    /// The number of vertices gathered so far.
    pub fn vertex_count(&self) -> (n: usize)
        requires
            self.wf(),
        ensures
            n == self@.len(),
    {
        self.buffers.len()
    }

    /// Appends the two triangles of `face` on the cube of the cell `position`.
    ///
    /// A finalized instance refuses: it stays as it is and the call fails with
    /// [`VoxelError::Finalized`].
    pub fn add_face(&mut self, face: Face, position: Cell) -> (result: Result<(), VoxelError>)
        requires
            old(self).wf(),
            cell_fits(position),
        ensures
            final(self).wf(),
            old(self).is_finalized() ==> result == Err::<(), VoxelError>(VoxelError::Finalized)
                && *final(self) == *old(self),
            !old(self).is_finalized() ==> result is Ok && !final(self).is_finalized()
                && final(self)@ == old(self)@ + face_vertices(face, position),
    {
        if self.finalized {
            return Err(VoxelError::Finalized);
        }
        self.emit_face(face, position);
        Ok(())
    }

    /// Hands out a copy of the gathered buffers and finalizes the instance.
    /// The instance keeps its buffers as they are. An instance that has
    /// gathered nothing hands out empty buffers.
    ///
    /// A finalized instance refuses: it stays as it is and the call fails with
    /// [`VoxelError::Finalized`].
    pub fn commit_mesh(&mut self) -> (result: Result<GeometryBuffers, VoxelError>)
        requires
            old(self).wf(),
        ensures
            final(self).wf(),
            match result {
                Ok(buffers) => {
                    &&& !old(self).is_finalized()
                    &&& buffers.wf()
                    &&& buffers@ == old(self)@
                    &&& final(self).is_finalized()
                    &&& final(self)@ == old(self)@
                },
                Err(e) => {
                    &&& old(self).is_finalized()
                    &&& e == VoxelError::Finalized
                    &&& *final(self) == *old(self)
                },
            },
    {
        if self.finalized {
            return Err(VoxelError::Finalized);
        }
        Ok(self.copy_out())
    }

    /// Appends the cubes of the occupied cells of `data`, a volume of
    /// `chunk_size` by `chunk_size` cells and `max_ceilling` layers, in the
    /// order of their flat indices, then hands out a copy of the buffers and
    /// finalizes the instance. Every occupied cell gets all six faces, whatever its
    /// neighbours are.
    ///
    /// A finalized instance refuses with [`VoxelError::Finalized`]. Otherwise
    /// a `data` that does not hold one flag for each cell is refused with
    /// [`VoxelError::BufferSizeMismatch`]. A call that fails changes nothing.
    pub fn generate_mesh(&mut self, data: Vec<bool>, chunk_size: u32, max_ceilling: u32) -> (result:
        Result<GeometryBuffers, VoxelError>)
        requires
            old(self).wf(),
        ensures
            final(self).wf(),
            match result {
                Ok(buffers) => {
                    &&& !old(self).is_finalized()
                    &&& data@.len() == volume_len(chunk_size as int, max_ceilling as int)
                    &&& buffers.wf()
                    &&& buffers@ == old(self)@ + mesh_vertices(
                        data@,
                        chunk_size as int,
                        max_ceilling as int,
                    )
                    &&& final(self).is_finalized()
                    &&& final(self)@ == buffers@
                },
                Err(e) => {
                    &&& *final(self) == *old(self)
                    &&& old(self).is_finalized() ==> e == VoxelError::Finalized
                    &&& !old(self).is_finalized() ==> e == VoxelError::BufferSizeMismatch
                        && data@.len() != volume_len(chunk_size as int, max_ceilling as int)
                },
            },
    {
        if self.finalized {
            return Err(VoxelError::Finalized);
        }
        if !holds_volume(data.len(), chunk_size, max_ceilling) {
            return Err(VoxelError::BufferSizeMismatch);
        }
        let (chunk_size, max_ceilling) = (chunk_size as usize, max_ceilling as usize);
        for i in 0..data.len()
            invariant
                self.wf(),
                !self.finalized,
                data@.len() == volume_len(chunk_size as int, max_ceilling as int),
                chunk_size <= u32::MAX,
                max_ceilling <= u32::MAX,
                self@ == old(self)@ + mesh_vertices(
                    data@.take(i as int),
                    chunk_size as int,
                    max_ceilling as int,
                ),
        {
            let ghost before = self@;
            assert(data@.take(i + 1).drop_last() =~= data@.take(i as int));
            if data[i] {
                assert(chunk_size > 0 && max_ceilling > 0) by (nonlinear_arith)
                    requires
                        i < chunk_size * chunk_size * max_ceilling,
                ;
                let pos = build_vector(i, chunk_size, max_ceilling);
                proof {
                    lemma_index_of_coords(i as int, chunk_size as int, max_ceilling as int);
                }
                self.emit_face(Face::Bottom, pos);
                self.emit_face(Face::Front, pos);
                self.emit_face(Face::Right, pos);
                self.emit_face(Face::Top, pos);
                self.emit_face(Face::Left, pos);
                self.emit_face(Face::Back, pos);
                assert(self@ =~= before + cell_vertices(pos));
            }
        }
        assert(data@.take(data@.len() as int) =~= data@);
        Ok(self.copy_out())
    }

    /// Appends the six vertices of `face` on the cube of `position`.
    fn emit_face(&mut self, face: Face, position: Cell)
        requires
            old(self).wf(),
            !old(self).is_finalized(),
            cell_fits(position),
        ensures
            final(self).wf(),
            !final(self).is_finalized(),
            final(self)@ == old(self)@ + face_vertices(face, position),
    {
        let face_index = face.index();
        let indices = self.face_indices[face_index];
        let normal = self.face_normals[face_index];
        let color = self.face_colors[face_index];
        let ghost emitted = face_vertices(face, position);
        assert(Face::spec_from_index(face_index as int) == face);
        assert(self@ =~= old(self)@ + emitted.take(0));
        for t in 0..2usize
            invariant
                self.wf(),
                !self.finalized,
                cell_fits(position),
                face_index == face.spec_index(),
                Face::spec_from_index(face_index as int) == face,
                indices == self.face_indices@[face_index as int],
                normal == face_normal(face),
                color == face_color(face),
                emitted == face_vertices(face, position),
                self@ == old(self)@ + emitted.take(3 * t),
        {
            let triangle = indices[t];
            for k in 0..3usize
                invariant
                    self.wf(),
                    !self.finalized,
                    cell_fits(position),
                    0 <= t < 2,
                    face_index == face.spec_index(),
                    Face::spec_from_index(face_index as int) == face,
                    indices == self.face_indices@[face_index as int],
                    triangle == indices@[t as int],
                    normal == face_normal(face),
                    color == face_color(face),
                    emitted == face_vertices(face, position),
                    self@ == old(self)@ + emitted.take(3 * t + k),
            {
                let ghost j = 3 * t + k;
                assert(j / 3 == t && j % 3 == k);
                assert(self.face_indices@[face_index as int]@[j / 3]@[j % 3] == face_corners(
                    face,
                )[j]);
                let index = triangle[k];
                let vertex = self.cube_vertices[index];
                assert(vertex == cube_corner(index as int));
                let pos = translate(vertex, position);
                self.buffers.push(pos, normal, color);
                assert(emitted.take(j + 1) =~= emitted.take(j).push(emitted[j]));
                assert(self@ =~= old(self)@ + emitted.take(j + 1));
            }
        }
        assert(emitted.take(6) =~= emitted);
    }

    /// Copies the buffers and marks the instance as finalized.
    fn copy_out(&mut self) -> (buffers: GeometryBuffers)
        requires
            old(self).wf(),
            !old(self).is_finalized(),
        ensures
            final(self).wf(),
            final(self).is_finalized(),
            final(self)@ == old(self)@,
            buffers.wf(),
            buffers@ == old(self)@,
    {
        let buffers = self.buffers.duplicate();
        self.finalized = true;
        buffers
    }
}

/// The mesh of a volume of `chunk_size` by `chunk_size` cells and `max_height`
/// layers: the cubes of its occupied cells, in the order of their flat
/// indices. The volume is taken over and used up.
///
/// A `field` that does not hold one flag for each cell is refused with
/// [`VoxelError::BufferSizeMismatch`].
pub fn build_mesh(field: Vec<bool>, chunk_size: u32, max_height: u32) -> (result: Result<
    GeometryBuffers,
    VoxelError,
>)
    ensures
        match result {
            Ok(buffers) => {
                &&& field@.len() == volume_len(chunk_size as int, max_height as int)
                &&& buffers.wf()
                &&& buffers@ == mesh_vertices(field@, chunk_size as int, max_height as int)
            },
            Err(e) => {
                &&& e == VoxelError::BufferSizeMismatch
                &&& field@.len() != volume_len(chunk_size as int, max_height as int)
            },
        },
{
    let mut instance = MeshInstance::new();
    let ghost cells = mesh_vertices(field@, chunk_size as int, max_height as int);
    assert(Seq::<Vertex>::empty() + cells =~= cells);
    instance.generate_mesh(field, chunk_size, max_height)
}

} // verus!
