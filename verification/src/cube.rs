//! The unit cube that stands for one occupied cell: its eight corners and its
//! six faces, each with two triangles, a normal and a colour.

use vstd::prelude::*;
use crate::grid::Cell;

verus! {

/// A point of the mesh. Coordinates count half cells, so that the corners of a
/// unit cube centred on a cell are whole numbers: the cell `(x, y, z)` has its
/// centre at `(2x, 2y, 2z)` and its corners one step away along each axis.
#[derive(Clone, Copy, Debug, PartialEq, Eq, Structural)]
pub struct Point3 {
    pub x: i64,
    pub y: i64,
    pub z: i64,
}

/// The direction a face looks in, in whole units.
#[derive(Clone, Copy, Debug, PartialEq, Eq, Structural)]
pub struct Normal {
    pub x: i8,
    pub y: i8,
    pub z: i8,
}

/// The colour of a face.
#[derive(Clone, Copy, Debug, PartialEq, Eq, Structural)]
pub enum FaceColor {
    Red,
    Orange,
    Yellow,
    Green,
    Blue,
    Purple,
}

/// The six faces of a cube, in the order in which they are emitted.
#[derive(Clone, Copy, Debug, PartialEq, Eq, Structural)]
pub enum Face {
    Bottom,
    Front,
    Right,
    Top,
    Left,
    Back,
}

/// One vertex of one triangle: where it lies, and the normal and colour of the
/// face it belongs to.
#[derive(Clone, Copy, Debug, PartialEq, Eq, Structural)]
pub struct Vertex {
    pub position: Point3,
    pub normal: Normal,
    pub color: FaceColor,
}

impl Face {
    /// The place of the face in the emission order.
    pub open spec fn spec_index(self) -> int {
        match self {
            Face::Bottom => 0,
            Face::Front => 1,
            Face::Right => 2,
            Face::Top => 3,
            Face::Left => 4,
            Face::Back => 5,
        }
    }

    /// The face at place `i` of the emission order.
    pub open spec fn spec_from_index(i: int) -> Face {
        if i == 0 {
            Face::Bottom
        } else if i == 1 {
            Face::Front
        } else if i == 2 {
            Face::Right
        } else if i == 3 {
            Face::Top
        } else if i == 4 {
            Face::Left
        } else {
            Face::Back
        }
    }

    /// The place of the face in the emission order.
    pub fn index(self) -> (i: usize)
        ensures
            i == self.spec_index(),
            i < 6,
    {
        match self {
            Face::Bottom => 0,
            Face::Front => 1,
            Face::Right => 2,
            Face::Top => 3,
            Face::Left => 4,
            Face::Back => 5,
        }
    }
}

/// Corner `i` of the cube centred on the origin.
pub open spec fn cube_corner(i: int) -> Point3 {
    if i == 0 {
        Point3 { x: -1i64, y: -1i64, z: 1 }
    } else if i == 1 {
        Point3 { x: 1, y: -1i64, z: 1 }
    } else if i == 2 {
        Point3 { x: 1, y: -1i64, z: -1i64 }
    } else if i == 3 {
        Point3 { x: -1i64, y: -1i64, z: -1i64 }
    } else if i == 4 {
        Point3 { x: -1i64, y: 1, z: 1 }
    } else if i == 5 {
        Point3 { x: 1, y: 1, z: 1 }
    } else if i == 6 {
        Point3 { x: 1, y: 1, z: -1i64 }
    } else {
        Point3 { x: -1i64, y: 1, z: -1i64 }
    }
}

/// The corners of the two triangles of a face, in the order in which their
/// vertices are emitted.
pub open spec fn face_corners(face: Face) -> Seq<int> {
    match face {
        Face::Bottom => seq![0, 2, 1, 0, 3, 2],
        Face::Front => seq![0, 5, 4, 0, 1, 5],
        Face::Right => seq![1, 6, 5, 1, 2, 6],
        Face::Top => seq![4, 6, 7, 4, 5, 6],
        Face::Left => seq![3, 4, 7, 3, 0, 4],
        Face::Back => seq![2, 3, 7, 2, 7, 6],
    }
}

/// The normal of a face.
pub open spec fn face_normal(face: Face) -> Normal {
    match face {
        Face::Bottom => Normal { x: 0, y: -1i8, z: 0 },
        Face::Front => Normal { x: 0, y: 0, z: 1 },
        Face::Right => Normal { x: 1, y: 0, z: 0 },
        Face::Top => Normal { x: 0, y: 1, z: 0 },
        Face::Left => Normal { x: -1i8, y: 0, z: 0 },
        Face::Back => Normal { x: 0, y: 0, z: -1i8 },
    }
}

/// The colour of a face.
pub open spec fn face_color(face: Face) -> FaceColor {
    match face {
        Face::Bottom => FaceColor::Red,
        Face::Front => FaceColor::Orange,
        Face::Right => FaceColor::Yellow,
        Face::Top => FaceColor::Green,
        Face::Left => FaceColor::Blue,
        Face::Back => FaceColor::Purple,
    }
}

/// Whether the corners of the cube of `cell` can be written down: twice each
/// coordinate, and one more, is a 64-bit signed number.
pub open spec fn cell_fits(cell: Cell) -> bool {
    &&& 2 * cell.x + 1 <= i64::MAX
    &&& 2 * cell.y + 1 <= i64::MAX
    &&& 2 * cell.z + 1 <= i64::MAX
}

/// The point `corner` of the cube centred on the origin, moved to the cube of
/// `cell`.
pub open spec fn translated(corner: Point3, cell: Cell) -> Point3 {
    Point3 {
        x: (corner.x + 2 * cell.x) as i64,
        y: (corner.y + 2 * cell.y) as i64,
        z: (corner.z + 2 * cell.z) as i64,
    }
}

/// The six vertices of `face` on the cube of `cell`, in emission order.
pub open spec fn face_vertices(face: Face, cell: Cell) -> Seq<Vertex> {
    Seq::new(
        6,
        |k: int|
            Vertex {
                position: translated(cube_corner(face_corners(face)[k]), cell),
                normal: face_normal(face),
                color: face_color(face),
            },
    )
}

/// The thirty-six vertices of the cube of `cell`: its faces in emission order.
pub open spec fn cell_vertices(cell: Cell) -> Seq<Vertex> {
    face_vertices(Face::Bottom, cell) + face_vertices(Face::Front, cell) + face_vertices(
        Face::Right,
        cell,
    ) + face_vertices(Face::Top, cell) + face_vertices(Face::Left, cell) + face_vertices(
        Face::Back,
        cell,
    )
}

/// Whether `normal` is one of the six unit vectors along an axis.
pub open spec fn is_axis_unit(normal: Normal) -> bool {
    ||| normal == Normal { x: 1, y: 0, z: 0 }
    ||| normal == Normal { x: -1i8, y: 0, z: 0 }
    ||| normal == Normal { x: 0, y: 1, z: 0 }
    ||| normal == Normal { x: 0, y: -1i8, z: 0 }
    ||| normal == Normal { x: 0, y: 0, z: 1 }
    ||| normal == Normal { x: 0, y: 0, z: -1i8 }
}

/// The cross product of the edges from `a` to `b` and from `a` to `c`.
pub open spec fn edge_cross(a: Point3, b: Point3, c: Point3) -> (int, int, int) {
    let (ux, uy, uz) = (b.x - a.x, b.y - a.y, b.z - a.z);
    let (vx, vy, vz) = (c.x - a.x, c.y - a.y, c.z - a.z);
    (uy * vz - uz * vy, uz * vx - ux * vz, ux * vy - uy * vx)
}

/// Every face names corners of the cube, six of them.
pub proof fn lemma_face_corners(face: Face, k: int)
    requires
        0 <= k < 6,
    ensures
        face_corners(face).len() == 6,
        0 <= face_corners(face)[k] < 8,
{
}

/// A vertex of a cube belongs to the face that its place falls in: places 0
/// to 5 are the first face of the emission order, 6 to 11 the second, and so
/// on.
pub proof fn lemma_cell_vertex(cell: Cell, k: int)
    requires
        0 <= k < 36,
    ensures
        cell_vertices(cell).len() == 36,
        cell_vertices(cell)[k] == face_vertices(Face::spec_from_index(k / 6), cell)[k % 6],
{
}

/// Whether `point` is one of the eight corners of the cube of `cell`.
pub open spec fn is_corner(point: Point3, cell: Cell) -> bool {
    exists|i: int| 0 <= i < 8 && point == translated(cube_corner(i), cell)
}

/// Whether some vertex of the cube of `cell` lies at `point`.
pub open spec fn is_vertex_place(point: Point3, cell: Cell) -> bool {
    exists|k: int| 0 <= k < 36 && (#[trigger] cell_vertices(cell)[k]).position == point
}

/// The corners of a cube are eight different points, and the vertices of the
/// cube lie on exactly those: every vertex is a corner, and every corner is
/// the place of some vertex.
pub proof fn lemma_cube_closure(cell: Cell)
    requires
        cell_fits(cell),
    ensures
        forall|i: int, j: int|
            0 <= i < 8 && 0 <= j < 8 && i != j ==> translated(cube_corner(i), cell) != translated(
                cube_corner(j),
                cell,
            ),
        forall|k: int|
            0 <= k < 36 ==> is_corner((#[trigger] cell_vertices(cell)[k]).position, cell),
        forall|i: int|
            0 <= i < 8 ==> is_vertex_place(#[trigger] translated(cube_corner(i), cell), cell),
{
    assert forall|k: int| 0 <= k < 36 implies is_corner(
        (#[trigger] cell_vertices(cell)[k]).position,
        cell,
    ) by {
        lemma_cell_vertex(cell, k);
        let face = Face::spec_from_index(k / 6);
        lemma_face_corners(face, k % 6);
        let i = face_corners(face)[k % 6];
        assert(cell_vertices(cell)[k].position == translated(cube_corner(i), cell));
    }
    assert forall|i: int| 0 <= i < 8 implies is_vertex_place(
        #[trigger] translated(cube_corner(i), cell),
        cell,
    ) by {
        // The bottom face holds the corners 0 to 3, the top face the corners 4 to 7.
        let k = if i == 0 {
            0
        } else if i == 1 {
            2
        } else if i == 2 {
            1
        } else if i == 3 {
            4
        } else if i == 4 {
            18
        } else if i == 5 {
            22
        } else if i == 6 {
            19
        } else {
            20int
        };
        lemma_cell_vertex(cell, k);
        assert(cell_vertices(cell)[k].position == translated(cube_corner(i), cell));
    }
}

/// The six vertices of a face carry the normal and the colour of that face,
/// and the normal is a unit vector along an axis.
pub proof fn lemma_face_attributes(cell: Cell, k: int)
    requires
        0 <= k < 36,
    ensures
        cell_vertices(cell)[k].normal == face_normal(Face::spec_from_index(k / 6)),
        cell_vertices(cell)[k].color == face_color(Face::spec_from_index(k / 6)),
        is_axis_unit(cell_vertices(cell)[k].normal),
{
    lemma_cell_vertex(cell, k);
}

/// Whether the triangle `a`, `b`, `c` agrees with the normal `n` of its face.
/// The normal points away from the centre of the cube: each corner lies one
/// step along it. And the triangle turns round it: the cross product of the
/// edges from `a` to `b` and from `a` to `c` is the normal at four times its
/// length. Seen from outside the cube in a right-handed frame, the vertices
/// thus run counter-clockwise.
pub open spec fn winds_round(a: Point3, b: Point3, c: Point3, n: Normal) -> bool {
    &&& edge_cross(a, b, c) == (4 * n.x, 4 * n.y, 4 * n.z)
    &&& n.x * a.x + n.y * a.y + n.z * a.z == 1
    &&& n.x * b.x + n.y * b.y + n.z * b.z == 1
    &&& n.x * c.x + n.y * c.y + n.z * c.z == 1
}

/// Both triangles of every face agree with the normal of the face, so all
/// twelve triangles of a cube face the same way: outwards.
pub proof fn lemma_winding(face: Face, t: int)
    requires
        0 <= t < 2,
    ensures
        winds_round(
            cube_corner(face_corners(face)[3 * t]),
            cube_corner(face_corners(face)[3 * t + 1]),
            cube_corner(face_corners(face)[3 * t + 2]),
            face_normal(face),
        ),
{
    let a = cube_corner(face_corners(face)[3 * t]);
    let b = cube_corner(face_corners(face)[3 * t + 1]);
    let c = cube_corner(face_corners(face)[3 * t + 2]);
    let n = face_normal(face);
    match face {
        Face::Bottom => {
            if t == 0 {
                assert(winds_round(a, b, c, n)) by (nonlinear_arith)
                    requires
                        a == (Point3 { x: -1i64, y: -1i64, z: 1 }),
                        b == (Point3 { x: 1, y: -1i64, z: -1i64 }),
                        c == (Point3 { x: 1, y: -1i64, z: 1 }),
                        n == (Normal { x: 0, y: -1i8, z: 0 }),
                ;
            } else {
                assert(winds_round(a, b, c, n)) by (nonlinear_arith)
                    requires
                        a == (Point3 { x: -1i64, y: -1i64, z: 1 }),
                        b == (Point3 { x: -1i64, y: -1i64, z: -1i64 }),
                        c == (Point3 { x: 1, y: -1i64, z: -1i64 }),
                        n == (Normal { x: 0, y: -1i8, z: 0 }),
                ;
            }
        },
        Face::Front => {
            if t == 0 {
                assert(winds_round(a, b, c, n)) by (nonlinear_arith)
                    requires
                        a == (Point3 { x: -1i64, y: -1i64, z: 1 }),
                        b == (Point3 { x: 1, y: 1, z: 1 }),
                        c == (Point3 { x: -1i64, y: 1, z: 1 }),
                        n == (Normal { x: 0, y: 0, z: 1 }),
                ;
            } else {
                assert(winds_round(a, b, c, n)) by (nonlinear_arith)
                    requires
                        a == (Point3 { x: -1i64, y: -1i64, z: 1 }),
                        b == (Point3 { x: 1, y: -1i64, z: 1 }),
                        c == (Point3 { x: 1, y: 1, z: 1 }),
                        n == (Normal { x: 0, y: 0, z: 1 }),
                ;
            }
        },
        Face::Right => {
            if t == 0 {
                assert(winds_round(a, b, c, n)) by (nonlinear_arith)
                    requires
                        a == (Point3 { x: 1, y: -1i64, z: 1 }),
                        b == (Point3 { x: 1, y: 1, z: -1i64 }),
                        c == (Point3 { x: 1, y: 1, z: 1 }),
                        n == (Normal { x: 1, y: 0, z: 0 }),
                ;
            } else {
                assert(winds_round(a, b, c, n)) by (nonlinear_arith)
                    requires
                        a == (Point3 { x: 1, y: -1i64, z: 1 }),
                        b == (Point3 { x: 1, y: -1i64, z: -1i64 }),
                        c == (Point3 { x: 1, y: 1, z: -1i64 }),
                        n == (Normal { x: 1, y: 0, z: 0 }),
                ;
            }
        },
        Face::Top => {
            if t == 0 {
                assert(winds_round(a, b, c, n)) by (nonlinear_arith)
                    requires
                        a == (Point3 { x: -1i64, y: 1, z: 1 }),
                        b == (Point3 { x: 1, y: 1, z: -1i64 }),
                        c == (Point3 { x: -1i64, y: 1, z: -1i64 }),
                        n == (Normal { x: 0, y: 1, z: 0 }),
                ;
            } else {
                assert(winds_round(a, b, c, n)) by (nonlinear_arith)
                    requires
                        a == (Point3 { x: -1i64, y: 1, z: 1 }),
                        b == (Point3 { x: 1, y: 1, z: 1 }),
                        c == (Point3 { x: 1, y: 1, z: -1i64 }),
                        n == (Normal { x: 0, y: 1, z: 0 }),
                ;
            }
        },
        Face::Left => {
            if t == 0 {
                assert(winds_round(a, b, c, n)) by (nonlinear_arith)
                    requires
                        a == (Point3 { x: -1i64, y: -1i64, z: -1i64 }),
                        b == (Point3 { x: -1i64, y: 1, z: 1 }),
                        c == (Point3 { x: -1i64, y: 1, z: -1i64 }),
                        n == (Normal { x: -1i8, y: 0, z: 0 }),
                ;
            } else {
                assert(winds_round(a, b, c, n)) by (nonlinear_arith)
                    requires
                        a == (Point3 { x: -1i64, y: -1i64, z: -1i64 }),
                        b == (Point3 { x: -1i64, y: -1i64, z: 1 }),
                        c == (Point3 { x: -1i64, y: 1, z: 1 }),
                        n == (Normal { x: -1i8, y: 0, z: 0 }),
                ;
            }
        },
        Face::Back => {
            if t == 0 {
                assert(winds_round(a, b, c, n)) by (nonlinear_arith)
                    requires
                        a == (Point3 { x: 1, y: -1i64, z: -1i64 }),
                        b == (Point3 { x: -1i64, y: -1i64, z: -1i64 }),
                        c == (Point3 { x: -1i64, y: 1, z: -1i64 }),
                        n == (Normal { x: 0, y: 0, z: -1i8 }),
                ;
            } else {
                assert(winds_round(a, b, c, n)) by (nonlinear_arith)
                    requires
                        a == (Point3 { x: 1, y: -1i64, z: -1i64 }),
                        b == (Point3 { x: -1i64, y: 1, z: -1i64 }),
                        c == (Point3 { x: 1, y: 1, z: -1i64 }),
                        n == (Normal { x: 0, y: 0, z: -1i8 }),
                ;
            }
        },
    }
}

/// Moves `corner` of the cube centred on the origin to the cube of `cell`.
pub fn translate(corner: Point3, cell: Cell) -> (point: Point3)
    requires
        -1 <= corner.x <= 1,
        -1 <= corner.y <= 1,
        -1 <= corner.z <= 1,
        cell_fits(cell),
    ensures
        point == translated(corner, cell),
{
    Point3 {
        x: corner.x + 2 * (cell.x as i64),
        y: corner.y + 2 * (cell.y as i64),
        z: corner.z + 2 * (cell.z as i64),
    }
}

} // verus!
