use vstd::prelude::*;

use crate::color::{
    adjacency, color_at, color_index, index_of, ring_position, FaceColor,
};
use crate::face::{lemma_ring_step, Face, LinkedListFace};
use crate::turn::{
    axis_of, is_slice, layer_axis, layer_len, lemma_partly_done, lemma_partly_step, loop_cell,
    loop_cells, loop_len, move_rings, oriented, oriented_color, partly_turned, rings_wf, shifted,
    AffectedFace, FaceOrientation, Move, MoveDirection,
};

verus! {

broadcast use crate::face::Face::lemma_ring_len;

/// A cube: six faces, each kept at the position of the color it started
/// on, and the two colors now at the front and at the top.
#[derive(Debug, Clone, Copy, PartialEq, Eq)]
pub struct Cube {
    faces: [Face; 6],
    front: FaceColor,
    top: FaceColor,
}

impl Cube {
    /// The face whose home color sits at position `i`.
    pub closed spec fn face_at(&self, i: int) -> Face {
        self.faces[i]
    }

    pub closed spec fn front_view(&self) -> FaceColor {
        self.front
    }

    pub closed spec fn top_view(&self) -> FaceColor {
        self.top
    }

    /// The six rings, by home color.
    pub open spec fn rings(&self) -> Seq<Seq<FaceColor>> {
        Seq::new(6, |i: int| self.face_at(i).ring())
    }

    /// Each face has its home color at the center, and the top is a
    /// neighbour of the front.
    pub open spec fn wf(&self) -> bool {
        &&& forall|i: int| 0 <= i < 6 ==> (#[trigger] self.face_at(i)).center_view() == color_at(i)
        &&& ring_position(adjacency(self.front_view()), self.top_view()) < 4
    }

    /// Held with red at the front and white on top, every face showing its
    /// home color all over.
    pub open spec fn is_solved_start(&self) -> bool {
        &&& self.wf()
        &&& self.front_view() == FaceColor::Red
        &&& self.top_view() == FaceColor::White
        &&& forall|i: int|
            0 <= i < 6 ==> (#[trigger] self.face_at(i)).ring() == Seq::new(8, |k: int| color_at(i))
    }

    /// The solved cube: top white, front red, left green, back orange, right
    /// blue, bottom yellow.
    pub fn new() -> (r: Self)
        ensures
            r.is_solved_start(),
    {
        let top_face = Face::new(FaceColor::White);
        let front_face = Face::new(FaceColor::Red);
        let left_face = Face::new(FaceColor::Green);
        let back_face = Face::new(FaceColor::Orange);
        let right_face = Face::new(FaceColor::Blue);
        let bottom_face = Face::new(FaceColor::Yellow);
        Self {
            faces: [top_face, front_face, left_face, back_face, right_face, bottom_face],
            front: FaceColor::Red,
            top: FaceColor::White,
        }
    }

    pub fn front(&self) -> (r: FaceColor)
        ensures
            r == self.front_view(),
    {
        self.front
    }

    pub fn top(&self) -> (r: FaceColor)
        ensures
            r == self.top_view(),
    {
        self.top
    }

    /// The face now at physical position `direction`.
    pub fn face(&self, direction: FaceOrientation) -> (r: &Face)
        ensures
            *r == self.face_at(color_index(oriented(self.front_view(), self.top_view(), direction))),
    {
        self.color_face(oriented_color(self.front, self.top, direction))
    }

    /// The face that started with color `color`.
    pub fn color_face(&self, color: FaceColor) -> (r: &Face)
        ensures
            *r == self.face_at(color_index(color)),
    {
        &self.faces[index_of(color)]
    }

    /// The cells (home position, ring position) that a turn of `loop_face`
    /// carries round, in loop order.
    pub fn edge_loop(&self, loop_face: AffectedFace) -> (r: Vec<(usize, usize)>)
        ensures
            r@.len() == loop_len(is_slice(loop_face)),
            forall|j: int|
                0 <= j < r@.len() ==> (#[trigger] r@[j]).0 < 6 && r@[j].1 < 8 && r@[j].0 as int == loop_cell(
                    axis_of(self.front_view(), self.top_view(), loop_face),
                    is_slice(loop_face),
                    j,
                ).0 && r@[j].1 as int == loop_cell(
                    axis_of(self.front_view(), self.top_view(), loop_face),
                    is_slice(loop_face),
                    j,
                ).1,
    {
        let (axis, slice) = layer_axis(self.front, self.top, loop_face);
        loop_cells(axis, slice)
    }

    /// Turns the layer that `change` names a quarter in its direction: the
    /// loop of stickers round the layer moves one side face on, and an outer
    /// layer's own face turns its ring.
    pub fn apply(&mut self, change: Move)
        requires
            old(self).wf(),
        ensures
            final(self).wf(),
            final(self).front_view() == old(self).front_view(),
            final(self).top_view() == old(self).top_view(),
            final(self).rings() == move_rings(
                old(self).rings(),
                old(self).front_view(),
                old(self).top_view(),
                change,
            ),
    {
        let ghost start = self.rings();
        let (axis, slice) = layer_axis(self.front, self.top, change.face);
        let cw = change.direction == MoveDirection::Clockwise;
        let cells = self.edge_loop(change.face);
        let n = cells.len();
        assert(rings_wf(start)) by {
            assert forall|f: int| 0 <= f < 6 implies (#[trigger] start[f]).len() == 8 by {
                Face::lemma_ring_len(self.faces[f]);
            }
        }
        assert forall|i: int| 0 <= i < 6 implies (#[trigger] self.faces[i]).center_view() == color_at(i) by {
            assert(self.face_at(i) == self.faces[i]);
        }
        let mut values: Vec<FaceColor> = Vec::new();
        let mut j: usize = 0;
        while j < n
            invariant
                j <= n,
                n == cells@.len(),
                n == loop_len(slice),
                self.rings() == start,
                self.front == old(self).front,
                self.top == old(self).top,
                forall|i: int| 0 <= i < 6 ==> (#[trigger] self.faces[i]).center_view() == color_at(i),
                values@.len() == j,
                forall|i: int|
                    0 <= i < n ==> 0 <= (#[trigger] cells@[i]).0 < 6 && cells@[i].1 < 8
                        && cells@[i].0 as int == loop_cell(axis, slice, i).0
                        && cells@[i].1 as int == loop_cell(axis, slice, i).1,
                forall|i: int|
                    0 <= i < j ==> #[trigger] values@[i] == start[loop_cell(axis, slice, i).0][loop_cell(
                        axis,
                        slice,
                        i,
                    ).1],
            decreases n - j,
        {
            let (f, p) = cells[j];
            values.push(self.faces[f].vertex(p));
            j = j + 1;
        }
        let per: usize = if slice {
            2
        } else {
            3
        };
        let mut j: usize = 0;
        while j < n
            invariant
                j <= n,
                n == cells@.len(),
                n == loop_len(slice),
                per == layer_len(slice),
                rings_wf(start),
                values@.len() == n,
                self.front == old(self).front,
                self.top == old(self).top,
                forall|i: int| 0 <= i < 6 ==> (#[trigger] self.faces[i]).center_view() == color_at(i),
                forall|i: int|
                    0 <= i < n ==> 0 <= (#[trigger] cells@[i]).0 < 6 && cells@[i].1 < 8
                        && cells@[i].0 as int == loop_cell(axis, slice, i).0
                        && cells@[i].1 as int == loop_cell(axis, slice, i).1,
                forall|i: int|
                    0 <= i < n ==> #[trigger] values@[i] == start[loop_cell(axis, slice, i).0][loop_cell(
                        axis,
                        slice,
                        i,
                    ).1],
                forall|f: int, p: int|
                    0 <= f < 6 && 0 <= p < 8 ==> #[trigger] self.faces[f].ring()[p] == partly_turned(
                        start,
                        axis,
                        slice,
                        cw,
                        j as int,
                        f,
                        p,
                    ),
            decreases n - j,
        {
            let from: usize = if cw {
                if j >= per {
                    j - per
                } else {
                    j + n - per
                }
            } else {
                if j + per < n {
                    j + per
                } else {
                    j + per - n
                }
            };
            assert(from == shifted(slice, cw, j as int));
            let (f, p) = cells[j];
            let ghost before = self.faces;
            let mut face = self.faces[f];
            face.set_vertex(p, values[from]);
            self.faces[f] = face;
            assert forall|i: int| 0 <= i < 6 implies (#[trigger] self.faces[i]).center_view() == color_at(i) by {
                if i != f {
                    assert(self.faces[i] == before[i]);
                }
            }
            assert forall|g: int, q: int| 0 <= g < 6 && 0 <= q < 8 implies #[trigger] self.faces[g].ring()[q]
                == partly_turned(start, axis, slice, cw, j + 1, g, q) by {
                lemma_partly_step(start, axis, slice, cw, j as int, g, q);
                if g == f as int && q == p as int {
                    assert(self.faces[g].ring()[q] == values@[from as int]);
                } else {
                    assert(self.faces[g].ring()[q] == before[g].ring()[q]);
                    assert((g, q) != loop_cell(axis, slice, j as int));
                    assert(before[g].ring()[q] == partly_turned(start, axis, slice, cw, j as int, g, q));
                }
            }
            j = j + 1;
        }
        let ghost looped = self.faces;
        if !slice {
            let a = index_of(axis);
            let mut face = self.faces[a];
            if cw {
                face.rotate_clockwise();
            } else {
                face.rotate_counterclockwise();
            }
            self.faces[a] = face;
            assert forall|i: int| 0 <= i < 6 implies (#[trigger] self.faces[i]).center_view() == color_at(i) by {
                if i != a {
                    assert(self.faces[i] == looped[i]);
                }
            }
        }
        let ghost target = move_rings(start, self.front, self.top, change);
        assert forall|f: int| 0 <= f < 6 implies #[trigger] self.rings()[f] == target[f] by {
            assert forall|p: int| 0 <= p < 8 implies self.rings()[f][p] == target[f][p] by {
                lemma_partly_done(start, axis, slice, cw, f, p);
                if f == color_index(axis) && !slice {
                    lemma_ring_step(p);
                    let q = if cw {
                        (p + 6) % 8
                    } else {
                        (p + 2) % 8
                    };
                    lemma_partly_done(start, axis, slice, cw, f, q);
                    assert(self.faces[f].ring()[p] == looped[f].ring()[q]);
                } else {
                    assert(self.faces[f] == looped[f]);
                }
            }
            Face::lemma_ring_len(self.faces[f]);
            assert(self.rings()[f] =~= target[f]);
        }
        assert(self.rings() =~= target);
        assert forall|i: int| 0 <= i < 6 implies (#[trigger] self.face_at(i)).center_view() == color_at(i) by {
            assert(self.face_at(i) == self.faces[i]);
        }
    }
}

/// A cube whose faces hold their rings as growable lists: six faces, each
/// kept at the position of the color it started on, and the two colors now
/// at the front and at the top.
#[derive(Debug, PartialEq, Eq)]
pub struct LinkedListCube {
    faces: [LinkedListFace; 6],
    front: FaceColor,
    top: FaceColor,
}

impl LinkedListCube {
    /// The face whose home color sits at position `i`.
    pub closed spec fn face_at(&self, i: int) -> LinkedListFace {
        self.faces[i]
    }

    pub closed spec fn front_view(&self) -> FaceColor {
        self.front
    }

    pub closed spec fn top_view(&self) -> FaceColor {
        self.top
    }

    /// The six rings, by home color.
    pub open spec fn rings(&self) -> Seq<Seq<FaceColor>> {
        Seq::new(6, |i: int| self.face_at(i).ring())
    }

    /// Each face has eight ring stickers and its home color at the center,
    /// and the top is a neighbour of the front.
    pub open spec fn wf(&self) -> bool {
        &&& forall|i: int|
            0 <= i < 6 ==> (#[trigger] self.face_at(i)).center_view() == color_at(i) && self.face_at(i).wf()
        &&& ring_position(adjacency(self.front_view()), self.top_view()) < 4
    }

    /// Held with red at the front and white on top, every face showing its
    /// home color all over.
    pub open spec fn is_solved_start(&self) -> bool {
        &&& self.wf()
        &&& self.front_view() == FaceColor::Red
        &&& self.top_view() == FaceColor::White
        &&& forall|i: int|
            0 <= i < 6 ==> (#[trigger] self.face_at(i)).ring() == Seq::new(8, |k: int| color_at(i))
    }

    /// The solved cube: top white, front red, left green, back orange, right
    /// blue, bottom yellow.
    pub fn new() -> (r: Self)
        ensures
            r.is_solved_start(),
    {
        let top_face = LinkedListFace::new(FaceColor::White);
        let front_face = LinkedListFace::new(FaceColor::Red);
        let left_face = LinkedListFace::new(FaceColor::Green);
        let back_face = LinkedListFace::new(FaceColor::Orange);
        let right_face = LinkedListFace::new(FaceColor::Blue);
        let bottom_face = LinkedListFace::new(FaceColor::Yellow);
        Self {
            faces: [top_face, front_face, left_face, back_face, right_face, bottom_face],
            front: FaceColor::Red,
            top: FaceColor::White,
        }
    }

    /// The face that started with color `color`.
    pub fn color_face(&self, color: FaceColor) -> (r: &LinkedListFace)
        ensures
            *r == self.face_at(color_index(color)),
    {
        &self.faces[index_of(color)]
    }

    /// Turns the layer that `change` names a quarter in its direction: the
    /// loop of stickers round the layer moves one side face on, and an outer
    /// layer's own face turns its ring.
    pub fn apply(&mut self, change: Move)
        requires
            old(self).wf(),
        ensures
            final(self).wf(),
            final(self).front_view() == old(self).front_view(),
            final(self).top_view() == old(self).top_view(),
            final(self).rings() == move_rings(
                old(self).rings(),
                old(self).front_view(),
                old(self).top_view(),
                change,
            ),
    {
        let ghost start = self.rings();
        let (axis, slice) = layer_axis(self.front, self.top, change.face);
        let cw = change.direction == MoveDirection::Clockwise;
        let cells = loop_cells(axis, slice);
        let n = cells.len();
        assert(rings_wf(start)) by {
            assert forall|f: int| 0 <= f < 6 implies (#[trigger] start[f]).len() == 8 by {
                assert(self.face_at(f).wf());
            }
        }
        assert forall|i: int| 0 <= i < 6 implies (#[trigger] self.faces[i]).center_view() == color_at(i) && self.faces[i].wf() by {
            assert(self.face_at(i) == self.faces[i]);
        }
        let mut values: Vec<FaceColor> = Vec::new();
        let mut j: usize = 0;
        while j < n
            invariant
                j <= n,
                n == cells@.len(),
                n == loop_len(slice),
                self.rings() == start,
                self.front == old(self).front,
                self.top == old(self).top,
                forall|i: int| 0 <= i < 6 ==> (#[trigger] self.faces[i]).center_view() == color_at(i) && self.faces[i].wf(),
                values@.len() == j,
                forall|i: int|
                    0 <= i < n ==> 0 <= (#[trigger] cells@[i]).0 < 6 && cells@[i].1 < 8
                        && cells@[i].0 as int == loop_cell(axis, slice, i).0
                        && cells@[i].1 as int == loop_cell(axis, slice, i).1,
                forall|i: int|
                    0 <= i < j ==> #[trigger] values@[i] == start[loop_cell(axis, slice, i).0][loop_cell(
                        axis,
                        slice,
                        i,
                    ).1],
            decreases n - j,
        {
            let (f, p) = cells[j];
            values.push(self.faces[f].vertex(p));
            j = j + 1;
        }
        let per: usize = if slice {
            2
        } else {
            3
        };
        let mut j: usize = 0;
        while j < n
            invariant
                j <= n,
                n == cells@.len(),
                n == loop_len(slice),
                per == layer_len(slice),
                rings_wf(start),
                values@.len() == n,
                self.front == old(self).front,
                self.top == old(self).top,
                forall|i: int| 0 <= i < 6 ==> (#[trigger] self.faces[i]).center_view() == color_at(i) && self.faces[i].wf(),
                forall|i: int|
                    0 <= i < n ==> 0 <= (#[trigger] cells@[i]).0 < 6 && cells@[i].1 < 8
                        && cells@[i].0 as int == loop_cell(axis, slice, i).0
                        && cells@[i].1 as int == loop_cell(axis, slice, i).1,
                forall|i: int|
                    0 <= i < n ==> #[trigger] values@[i] == start[loop_cell(axis, slice, i).0][loop_cell(
                        axis,
                        slice,
                        i,
                    ).1],
                forall|f: int, p: int|
                    0 <= f < 6 && 0 <= p < 8 ==> #[trigger] self.faces[f].ring()[p] == partly_turned(
                        start,
                        axis,
                        slice,
                        cw,
                        j as int,
                        f,
                        p,
                    ),
            decreases n - j,
        {
            let from: usize = if cw {
                if j >= per {
                    j - per
                } else {
                    j + n - per
                }
            } else {
                if j + per < n {
                    j + per
                } else {
                    j + per - n
                }
            };
            assert(from == shifted(slice, cw, j as int));
            let (f, p) = cells[j];
            let ghost before = self.faces;
            self.faces[f].set_vertex(p, values[from]);
            assert forall|i: int| 0 <= i < 6 implies (#[trigger] self.faces[i]).center_view() == color_at(i) && self.faces[i].wf() by {
                if i != f {
                    assert(self.faces[i] == before[i]);
                }
            }
            assert forall|g: int, q: int| 0 <= g < 6 && 0 <= q < 8 implies #[trigger] self.faces[g].ring()[q]
                == partly_turned(start, axis, slice, cw, j + 1, g, q) by {
                lemma_partly_step(start, axis, slice, cw, j as int, g, q);
                if g == f as int && q == p as int {
                    assert(self.faces[g].ring()[q] == values@[from as int]);
                } else {
                    assert(self.faces[g].ring()[q] == before[g].ring()[q]);
                    assert((g, q) != loop_cell(axis, slice, j as int));
                    assert(before[g].ring()[q] == partly_turned(start, axis, slice, cw, j as int, g, q));
                }
            }
            j = j + 1;
        }
        let ghost looped = self.faces;
        if !slice {
            let a = index_of(axis);
            if cw {
                self.faces[a].rotate_cw();
            } else {
                self.faces[a].rotate_ccw();
            }
            assert forall|i: int| 0 <= i < 6 implies (#[trigger] self.faces[i]).center_view() == color_at(i) && self.faces[i].wf() by {
                if i != a {
                    assert(self.faces[i] == looped[i]);
                }
            }
        }
        let ghost target = move_rings(start, self.front, self.top, change);
        assert forall|f: int| 0 <= f < 6 implies #[trigger] self.rings()[f] == target[f] by {
            assert forall|p: int| 0 <= p < 8 implies self.rings()[f][p] == target[f][p] by {
                lemma_partly_done(start, axis, slice, cw, f, p);
                if f == color_index(axis) && !slice {
                    lemma_ring_step(p);
                    let q = if cw {
                        (p + 6) % 8
                    } else {
                        (p + 2) % 8
                    };
                    lemma_partly_done(start, axis, slice, cw, f, q);
                    assert(self.faces[f].ring()[p] == looped[f].ring()[q]);
                } else {
                    assert(self.faces[f] == looped[f]);
                }
            }
            assert(self.rings()[f] =~= target[f]);
        }
        assert(self.rings() =~= target);
        assert forall|i: int| 0 <= i < 6 implies (#[trigger] self.face_at(i)).center_view() == color_at(i) && self.face_at(i).wf() by {
            assert(self.face_at(i) == self.faces[i]);
        }
    }
}

/// The color found at each position of a solved cube as it is first held.
pub open spec fn start_color(o: FaceOrientation) -> FaceColor {
    match o {
        FaceOrientation::Top => FaceColor::White,
        FaceOrientation::Front => FaceColor::Red,
        FaceOrientation::Left => FaceColor::Green,
        FaceOrientation::Back => FaceColor::Orange,
        FaceOrientation::Right => FaceColor::Blue,
        FaceOrientation::Bottom => FaceColor::Yellow,
    }
}

/// On a solved cube as first held, the face at every position shows that
/// position's color, at the center and on all eight ring stickers.
pub proof fn lemma_solved_start_faces(c: Cube, o: FaceOrientation)
    requires
        c.is_solved_start(),
    ensures
        c.face_at(color_index(oriented(c.front_view(), c.top_view(), o))).center_view() == start_color(o),
        c.face_at(color_index(oriented(c.front_view(), c.top_view(), o))).ring() == Seq::new(
            8,
            |k: int| start_color(o),
        ),
{
    let col = oriented(c.front_view(), c.top_view(), o);
    assert(col == start_color(o));
    assert(color_at(color_index(col)) == col);
    assert(0 <= color_index(col) < 6);
}

} // verus!
