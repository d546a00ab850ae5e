use vstd::prelude::*;

verus! {

/// The six sticker colors. A color also names the face it started on.
#[derive(Debug, Clone, Copy, PartialEq, Eq, Structural)]
pub enum FaceColor {
    White,
    Red,
    Green,
    Orange,
    Blue,
    Yellow,
}

/// Position of a color's home face in a cube's face array.
pub open spec fn color_index(c: FaceColor) -> int {
    match c {
        FaceColor::White => 0,
        FaceColor::Red => 1,
        FaceColor::Green => 2,
        FaceColor::Orange => 3,
        FaceColor::Blue => 4,
        FaceColor::Yellow => 5,
    }
}

/// The color whose home face sits at position `i` of a cube's face array.
pub open spec fn color_at(i: int) -> FaceColor {
    if i == 0 {
        FaceColor::White
    } else if i == 1 {
        FaceColor::Red
    } else if i == 2 {
        FaceColor::Green
    } else if i == 3 {
        FaceColor::Orange
    } else if i == 4 {
        FaceColor::Blue
    } else {
        FaceColor::Yellow
    }
}

/// The four neighbours of a color's face, in the order left, up, right, down
/// as seen when looking straight at that face. Going through the ring in
/// order is a clockwise walk around the face.
pub open spec fn adjacency(c: FaceColor) -> Seq<FaceColor> {
    match c {
        FaceColor::Red => seq![FaceColor::Green, FaceColor::White, FaceColor::Blue, FaceColor::Yellow],
        FaceColor::Green => seq![FaceColor::Orange, FaceColor::White, FaceColor::Red, FaceColor::Yellow],
        FaceColor::Orange => seq![FaceColor::Blue, FaceColor::White, FaceColor::Green, FaceColor::Yellow],
        FaceColor::Blue => seq![FaceColor::Red, FaceColor::White, FaceColor::Orange, FaceColor::Yellow],
        FaceColor::White => seq![FaceColor::Green, FaceColor::Orange, FaceColor::Blue, FaceColor::Red],
        FaceColor::Yellow => seq![FaceColor::Green, FaceColor::Red, FaceColor::Blue, FaceColor::Orange],
    }
}

/// The color of the face across the cube.
pub open spec fn opposite(c: FaceColor) -> FaceColor {
    match c {
        FaceColor::White => FaceColor::Yellow,
        FaceColor::Yellow => FaceColor::White,
        FaceColor::Red => FaceColor::Orange,
        FaceColor::Orange => FaceColor::Red,
        FaceColor::Green => FaceColor::Blue,
        FaceColor::Blue => FaceColor::Green,
    }
}

/// Where `c` stands in a ring of four colors; 4 when it is not there.
pub open spec fn ring_position(ring: Seq<FaceColor>, c: FaceColor) -> int {
    if ring[0] == c {
        0
    } else if ring[1] == c {
        1
    } else if ring[2] == c {
        2
    } else if ring[3] == c {
        3
    } else {
        4
    }
}

pub fn index_of(c: FaceColor) -> (r: usize)
    ensures
        r == color_index(c),
{
    match c {
        FaceColor::White => 0,
        FaceColor::Red => 1,
        FaceColor::Green => 2,
        FaceColor::Orange => 3,
        FaceColor::Blue => 4,
        FaceColor::Yellow => 5,
    }
}

pub fn opposite_of(c: FaceColor) -> (r: FaceColor)
    ensures
        r == opposite(c),
{
    match c {
        FaceColor::White => FaceColor::Yellow,
        FaceColor::Yellow => FaceColor::White,
        FaceColor::Red => FaceColor::Orange,
        FaceColor::Orange => FaceColor::Red,
        FaceColor::Green => FaceColor::Blue,
        FaceColor::Blue => FaceColor::Green,
    }
}

/// The neighbour at position `i` of the adjacency ring of `c`.
pub fn neighbor(c: FaceColor, i: usize) -> (r: FaceColor)
    requires
        i < 4,
    ensures
        r == adjacency(c)[i as int],
{
    let ring: [FaceColor; 4] = match c {
        FaceColor::Red => [FaceColor::Green, FaceColor::White, FaceColor::Blue, FaceColor::Yellow],
        FaceColor::Green => [FaceColor::Orange, FaceColor::White, FaceColor::Red, FaceColor::Yellow],
        FaceColor::Orange => [FaceColor::Blue, FaceColor::White, FaceColor::Green, FaceColor::Yellow],
        FaceColor::Blue => [FaceColor::Red, FaceColor::White, FaceColor::Orange, FaceColor::Yellow],
        FaceColor::White => [FaceColor::Green, FaceColor::Orange, FaceColor::Blue, FaceColor::Red],
        FaceColor::Yellow => [FaceColor::Green, FaceColor::Red, FaceColor::Blue, FaceColor::Orange],
    };
    ring[i]
}

/// Where `c` stands in the adjacency ring of `center`; 4 when the two faces
/// are not neighbours.
pub fn position_in_ring(center: FaceColor, c: FaceColor) -> (r: usize)
    ensures
        r == ring_position(adjacency(center), c),
{
    let mut i: usize = 0;
    while i < 4
        invariant
            i <= 4,
            forall|k: int| 0 <= k < i ==> adjacency(center)[k] != c,
        decreases 4 - i,
    {
        if neighbor(center, i) == c {
            return i;
        }
        i = i + 1;
    }
    4
}

/// Facts about the adjacency table: each ring holds four different colors,
/// never the center or its opposite, and each neighbour's ring holds the
/// center back.
pub proof fn lemma_adjacency(a: FaceColor)
    ensures
        adjacency(a).len() == 4,
        forall|i: int, k: int| 0 <= i < 4 && 0 <= k < 4 && i != k ==> adjacency(a)[i] != adjacency(a)[k],
        forall|i: int| 0 <= i < 4 ==> #[trigger] adjacency(a)[i] != a && adjacency(a)[i] != opposite(a),
        forall|i: int| 0 <= i < 4 ==> ring_position(adjacency(a), #[trigger] adjacency(a)[i]) == i,
        forall|i: int| 0 <= i < 4 ==> ring_position(adjacency(#[trigger] adjacency(a)[i]), a) < 4,
        ring_position(adjacency(a), a) == 4,
        ring_position(adjacency(a), opposite(a)) == 4,
        color_at(color_index(a)) == a,
        0 <= color_index(a) < 6,
{
}

/// Face positions and colors correspond one to one.
pub proof fn lemma_color_at(i: int)
    requires
        0 <= i < 6,
    ensures
        color_index(color_at(i)) == i,
{
}

} // verus!
