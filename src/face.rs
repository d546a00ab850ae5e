use vstd::prelude::*;

use crate::color::FaceColor;

verus! {

/// One of the four sides of a face.
#[derive(Debug, Clone, Copy, PartialEq, Eq, Structural)]
pub enum FaceEdge {
    Left,
    Up,
    Right,
    Down,
}

/// One of the three rows of a face, as drawn on a 3x3 grid.
#[derive(Debug, Clone, Copy, PartialEq, Eq, Structural)]
pub enum FaceRow {
    Top,
    Middle,
    Bottom,
}

/// The number of a side, counted clockwise from the left one.
pub open spec fn side_number(side: FaceEdge) -> int {
    match side {
        FaceEdge::Left => 0,
        FaceEdge::Up => 1,
        FaceEdge::Right => 2,
        FaceEdge::Down => 3,
    }
}

/// The ring position of the `k`-th sticker (`k < 3`) of a side's window.
///
/// The ring runs clockwise: bottom-left corner, left edge, top-left corner,
/// top edge, top-right corner, right edge, bottom-right corner, bottom edge.
/// The left, up and right windows are read along the ring. The down window,
/// which crosses the ring's start, is read as bottom-left corner, then
/// bottom-right corner, then bottom edge.
pub open spec fn edge_position(side: FaceEdge, k: int) -> int {
    match side {
        FaceEdge::Left => k,
        FaceEdge::Up => 2 + k,
        FaceEdge::Right => 4 + k,
        FaceEdge::Down => if k == 0 {
            0
        } else {
            5 + k
        },
    }
}

/// The three stickers of a side's window.
pub open spec fn edge_of(ring: Seq<FaceColor>, side: FaceEdge) -> Seq<FaceColor> {
    seq![
        ring[edge_position(side, 0)],
        ring[edge_position(side, 1)],
        ring[edge_position(side, 2)],
    ]
}

/// The ring with a side's window replaced by `incoming`; the other five
/// stickers keep their places.
pub open spec fn with_edge(ring: Seq<FaceColor>, side: FaceEdge, incoming: Seq<FaceColor>) -> Seq<
    FaceColor,
> {
    ring.update(edge_position(side, 0), incoming[0]).update(
        edge_position(side, 1),
        incoming[1],
    ).update(edge_position(side, 2), incoming[2])
}

/// The ring after a clockwise quarter turn: every sticker moves two places on.
pub open spec fn rotated_cw(ring: Seq<FaceColor>) -> Seq<FaceColor> {
    Seq::new(8, |i: int| ring[(i + 6) % 8])
}

/// The ring after a counterclockwise quarter turn: every sticker moves two
/// places back.
pub open spec fn rotated_ccw(ring: Seq<FaceColor>) -> Seq<FaceColor> {
    Seq::new(8, |i: int| ring[(i + 2) % 8])
}

/// A row of the 3x3 grid, read from left to right.
pub open spec fn row_of(center: FaceColor, ring: Seq<FaceColor>, row: FaceRow) -> Seq<FaceColor> {
    match row {
        FaceRow::Top => seq![ring[2], ring[3], ring[4]],
        FaceRow::Middle => seq![ring[1], center, ring[5]],
        FaceRow::Bottom => seq![ring[0], ring[7], ring[6]],
    }
}

/// A face held as a growable list of its eight ring stickers.
#[derive(Debug, PartialEq, Eq)]
pub struct LinkedListFace {
    center_color: FaceColor,
    vertex_colors: Vec<FaceColor>,
}

impl LinkedListFace {
    pub closed spec fn center_view(&self) -> FaceColor {
        self.center_color
    }

    pub closed spec fn ring(&self) -> Seq<FaceColor> {
        self.vertex_colors@
    }

    pub open spec fn wf(&self) -> bool {
        self.ring().len() == 8
    }

    /// A solved face: all eight ring stickers take the center's color.
    pub fn new(color: FaceColor) -> (r: Self)
        ensures
            r.wf(),
            r.center_view() == color,
            r.ring() == Seq::new(8, |i: int| color),
    {
        let r = Self { center_color: color, vertex_colors: vec![color; 8] };
        assert(r.ring() =~= Seq::new(8, |i: int| color));
        r
    }

    /// A face with the given center and ring.
    pub fn from(center: FaceColor, colors: [FaceColor; 8]) -> (r: Self)
        ensures
            r.wf(),
            r.center_view() == center,
            r.ring() == colors@,
    {
        let mut v: Vec<FaceColor> = Vec::new();
        let mut i: usize = 0;
        while i < 8
            invariant
                i <= 8,
                v@ == colors@.subrange(0, i as int),
            decreases 8 - i,
        {
            v.push(colors[i]);
            i = i + 1;
        }
        assert(colors@.subrange(0, 8) =~= colors@);
        Self { center_color: center, vertex_colors: v }
    }

    pub fn center(&self) -> (r: FaceColor)
        ensures
            r == self.center_view(),
    {
        self.center_color
    }

    /// The ring sticker at position `i`.
    pub fn vertex(&self, i: usize) -> (r: FaceColor)
        requires
            self.wf(),
            i < 8,
        ensures
            r == self.ring()[i as int],
    {
        self.vertex_colors[i]
    }

    pub(crate) fn set_vertex(&mut self, i: usize, c: FaceColor)
        requires
            old(self).wf(),
            i < 8,
        ensures
            final(self).wf(),
            final(self).center_view() == old(self).center_view(),
            final(self).ring() == old(self).ring().update(i as int, c),
    {
        self.vertex_colors.set(i, c);
    }

    /// The three stickers of a side's window, in the order of `edge_position`.
    pub fn get_edge(&self, edge: FaceEdge) -> (r: [FaceColor; 3])
        requires
            self.wf(),
        ensures
            r@ == edge_of(self.ring(), edge),
    {
        let r = match edge {
            FaceEdge::Left => [self.vertex_colors[0], self.vertex_colors[1], self.vertex_colors[2]],
            FaceEdge::Up => [self.vertex_colors[2], self.vertex_colors[3], self.vertex_colors[4]],
            FaceEdge::Right => [self.vertex_colors[4], self.vertex_colors[5], self.vertex_colors[6]],
            FaceEdge::Down => [self.vertex_colors[0], self.vertex_colors[6], self.vertex_colors[7]],
        };
        assert(r@ =~= edge_of(self.ring(), edge));
        r
    }

    /// One row of the 3x3 grid, read from left to right; the middle row holds
    /// the center.
    pub fn get_row(&self, row: FaceRow) -> (r: [FaceColor; 3])
        requires
            self.wf(),
        ensures
            r@ == row_of(self.center_view(), self.ring(), row),
    {
        let r = match row {
            FaceRow::Top => [self.vertex_colors[2], self.vertex_colors[3], self.vertex_colors[4]],
            FaceRow::Middle => [self.vertex_colors[1], self.center_color, self.vertex_colors[5]],
            FaceRow::Bottom => [self.vertex_colors[0], self.vertex_colors[7], self.vertex_colors[6]],
        };
        assert(r@ =~= row_of(self.center_view(), self.ring(), row));
        r
    }

    /// Turns the face a quarter clockwise: the last two ring stickers move to
    /// the front.
    pub fn rotate_cw(&mut self)
        requires
            old(self).wf(),
        ensures
            final(self).wf(),
            final(self).center_view() == old(self).center_view(),
            final(self).ring() == rotated_cw(old(self).ring()),
    {
        let ghost start = self.vertex_colors@;
        let mut n: usize = 0;
        while n < 2
            invariant
                n <= 2,
                start.len() == 8,
                self.center_color == old(self).center_color,
                self.vertex_colors@ == start.subrange(8 - n as int, 8) + start.subrange(0, 8 - n as int),
            decreases 2 - n,
        {
            let node = self.vertex_colors.pop().unwrap();
            self.vertex_colors.insert(0, node);
            n = n + 1;
            assert(self.vertex_colors@ =~= start.subrange(8 - n as int, 8) + start.subrange(0, 8 - n as int));
        }
        assert(self.vertex_colors@ =~= rotated_cw(start));
    }

    /// Turns the face a quarter counterclockwise: the first two ring stickers
    /// move to the back.
    pub fn rotate_ccw(&mut self)
        requires
            old(self).wf(),
        ensures
            final(self).wf(),
            final(self).center_view() == old(self).center_view(),
            final(self).ring() == rotated_ccw(old(self).ring()),
    {
        let ghost start = self.vertex_colors@;
        let mut n: usize = 0;
        while n < 2
            invariant
                n <= 2,
                start.len() == 8,
                self.center_color == old(self).center_color,
                self.vertex_colors@ == start.subrange(n as int, 8) + start.subrange(0, n as int),
            decreases 2 - n,
        {
            let node = self.vertex_colors.remove(0);
            self.vertex_colors.push(node);
            n = n + 1;
            assert(self.vertex_colors@ =~= start.subrange(n as int, 8) + start.subrange(0, n as int));
        }
        assert(self.vertex_colors@ =~= rotated_ccw(start));
    }
    /// Writes `vertices` into a side's window, walking the window forwards;
    /// the other five stickers keep their places.
    pub fn shift_in_cw(&mut self, edge: FaceEdge, vertices: [FaceColor; 3])
        requires
            old(self).wf(),
        ensures
            final(self).wf(),
            final(self).center_view() == old(self).center_view(),
            final(self).ring() == with_edge(old(self).ring(), edge, vertices@),
    {
        let ghost start = self.ring();
        let mut k: usize = 0;
        while k < 3
            invariant
                k <= 3,
                self.wf(),
                self.center_view() == old(self).center_view(),
                start == old(self).ring(),
                forall|q: int|
                    0 <= q < 8 ==> #[trigger] self.ring()[q] == if q == edge_position(edge, 0) && 0 < k {
                        vertices@[0]
                    } else if q == edge_position(edge, 1) && 1 < k {
                        vertices@[1]
                    } else if q == edge_position(edge, 2) && 2 < k {
                        vertices@[2]
                    } else {
                        start[q]
                    },
            decreases 3 - k,
        {
            self.set_vertex(window_position(edge, k), vertices[k]);
            k = k + 1;
        }
        assert(self.ring() =~= with_edge(start, edge, vertices@));
    }

    /// Writes `vertices` into a side's window, walking the window backwards.
    /// The window ends up as with `shift_in_cw`: the direction of the walk
    /// does not change what lands where.
    pub fn shift_in_ccw(&mut self, edge: FaceEdge, vertices: [FaceColor; 3])
        requires
            old(self).wf(),
        ensures
            final(self).wf(),
            final(self).center_view() == old(self).center_view(),
            final(self).ring() == with_edge(old(self).ring(), edge, vertices@),
    {
        let ghost start = self.ring();
        let mut k: usize = 3;
        while k > 0
            invariant
                k <= 3,
                self.wf(),
                self.center_view() == old(self).center_view(),
                start == old(self).ring(),
                forall|q: int|
                    0 <= q < 8 ==> #[trigger] self.ring()[q] == if q == edge_position(edge, 0) && 0 >= k {
                        vertices@[0]
                    } else if q == edge_position(edge, 1) && 1 >= k {
                        vertices@[1]
                    } else if q == edge_position(edge, 2) && 2 >= k {
                        vertices@[2]
                    } else {
                        start[q]
                    },
            decreases k,
        {
            k = k - 1;
            self.set_vertex(window_position(edge, k), vertices[k]);
        }
        assert(self.ring() =~= with_edge(start, edge, vertices@));
    }
}

/// A face held as a fixed array of its eight ring stickers.
#[derive(Debug, Clone, Copy, PartialEq, Eq)]
pub struct Face {
    center: FaceColor,
    vertices: [FaceColor; 8],
}

impl Face {
    pub closed spec fn center_view(&self) -> FaceColor {
        self.center
    }

    pub closed spec fn ring(&self) -> Seq<FaceColor> {
        self.vertices@
    }

    /// Every face has a ring of eight stickers.
    pub broadcast proof fn lemma_ring_len(f: Face)
        ensures
            #[trigger] f.ring().len() == 8,
    {
    }

    /// A solved face: all eight ring stickers take the center's color.
    pub fn new(color: FaceColor) -> (r: Self)
        ensures
            r.center_view() == color,
            r.ring() == Seq::new(8, |i: int| color),
    {
        let r = Self { center: color, vertices: [color; 8] };
        assert(r.ring() =~= Seq::new(8, |i: int| color));
        r
    }

    pub fn center(&self) -> (r: FaceColor)
        ensures
            r == self.center_view(),
    {
        self.center
    }

    /// The ring sticker at position `i`.
    pub fn vertex(&self, i: usize) -> (r: FaceColor)
        requires
            i < 8,
        ensures
            r == self.ring()[i as int],
    {
        self.vertices[i]
    }

    pub(crate) fn set_vertex(&mut self, i: usize, c: FaceColor)
        requires
            i < 8,
        ensures
            final(self).center_view() == old(self).center_view(),
            final(self).ring() == old(self).ring().update(i as int, c),
    {
        self.vertices[i] = c;
        assert(self.vertices@ =~= old(self).vertices@.update(i as int, c));
    }

    /// The three stickers of a side's window, in the order of `edge_position`.
    pub fn edge(&self, edge: FaceEdge) -> (r: [FaceColor; 3])
        ensures
            r@ == edge_of(self.ring(), edge),
    {
        let r = [
            self.vertices[window_position(edge, 0)],
            self.vertices[window_position(edge, 1)],
            self.vertices[window_position(edge, 2)],
        ];
        assert(r@ =~= edge_of(self.ring(), edge));
        r
    }

    /// Writes `colors` into a side's window, in the order of `edge_position`;
    /// the other five stickers keep their places.
    pub fn edge_mut(&mut self, edge: FaceEdge, colors: [FaceColor; 3])
        ensures
            final(self).center_view() == old(self).center_view(),
            final(self).ring() == with_edge(old(self).ring(), edge, colors@),
    {
        self.set_vertex(window_position(edge, 0), colors[0]);
        self.set_vertex(window_position(edge, 1), colors[1]);
        self.set_vertex(window_position(edge, 2), colors[2]);
    }

    /// Turns the face a quarter clockwise.
    pub fn rotate_clockwise(&mut self)
        ensures
            final(self).center_view() == old(self).center_view(),
            final(self).ring() == rotated_cw(old(self).ring()),
    {
        let v = self.vertices;
        self.vertices = [v[6], v[7], v[0], v[1], v[2], v[3], v[4], v[5]];
        assert(self.vertices@ =~= rotated_cw(v@));
    }

    /// Turns the face a quarter counterclockwise.
    pub fn rotate_counterclockwise(&mut self)
        ensures
            final(self).center_view() == old(self).center_view(),
            final(self).ring() == rotated_ccw(old(self).ring()),
    {
        let v = self.vertices;
        self.vertices = [v[2], v[3], v[4], v[5], v[6], v[7], v[0], v[1]];
        assert(self.vertices@ =~= rotated_ccw(v@));
    }
}

/// The ring position of the `k`-th sticker of a side's window.
pub fn window_position(side: FaceEdge, k: usize) -> (r: usize)
    requires
        k < 3,
    ensures
        r == edge_position(side, k as int),
        r < 8,
{
    match side {
        FaceEdge::Left => k,
        FaceEdge::Up => 2 + k,
        FaceEdge::Right => 4 + k,
        FaceEdge::Down => if k == 0 {
            0
        } else {
            5 + k
        },
    }
}

/// Turning a face a quarter one way and then back leaves its ring as it was.
pub proof fn lemma_rotation_round_trip(ring: Seq<FaceColor>)
    requires
        ring.len() == 8,
    ensures
        rotated_ccw(rotated_cw(ring)) == ring,
        rotated_cw(rotated_ccw(ring)) == ring,
{
    assert forall|i: int| 0 <= i < 8 implies rotated_ccw(rotated_cw(ring))[i] == ring[i]
        && rotated_cw(rotated_ccw(ring))[i] == ring[i] by {
        lemma_ring_step(i);
        lemma_ring_step((i + 2) % 8);
        lemma_ring_step((i + 6) % 8);
    }
    assert(rotated_ccw(rotated_cw(ring)) =~= ring);
    assert(rotated_cw(rotated_ccw(ring)) =~= ring);
}

/// Two places on and two places back around a ring of eight.
pub proof fn lemma_ring_step(i: int)
    requires
        0 <= i < 8,
    ensures
        (i + 2) % 8 == if i < 6 { i + 2 } else { i - 6 },
        (i + 6) % 8 == if i < 2 { i + 6 } else { i - 2 },
        ((i + 2) % 8 + 6) % 8 == i,
        ((i + 6) % 8 + 2) % 8 == i,
{
}

/// Writing a side's own window back into it leaves the ring as it was.
pub proof fn lemma_edge_shift_in(ring: Seq<FaceColor>, side: FaceEdge)
    requires
        ring.len() == 8,
    ensures
        with_edge(ring, side, edge_of(ring, side)) == ring,
{
    assert(with_edge(ring, side, edge_of(ring, side)) =~= ring);
}

} // verus!
