use vstd::prelude::*;

use crate::color::{
    adjacency, color_at, color_index, index_of, lemma_adjacency, lemma_color_at, neighbor,
    opposite, opposite_of, position_in_ring, ring_position, FaceColor,
};

verus! {

/// The way a layer turns, as seen looking at the face at its axis.
#[derive(Debug, Clone, Copy, PartialEq, Eq, Structural)]
pub enum MoveDirection {
    Clockwise,
    CounterClockwise,
}

/// The layer that a move turns, named as seen from the front.
///
/// Rows turn about the top-bottom axis and columns about the left-right
/// axis; `Front` and `Back` turn the front and back faces. The middle row and
/// middle column are slices: they move the middle line of stickers on their
/// four side faces and turn no face of their own.
#[derive(Debug, Clone, Copy, PartialEq, Eq, Structural)]
pub enum AffectedFace {
    TopRow,
    MiddleRow,
    BottomRow,
    RightColumn,
    MiddleColumn,
    LeftColumn,
    Front,
    Back,
}

/// A quarter turn of one layer.
#[derive(Debug, Clone, Copy, PartialEq, Eq, Structural)]
pub struct Move {
    pub direction: MoveDirection,
    pub face: AffectedFace,
}

/// A physical position on the cube, as seen from the front.
#[derive(Debug, Clone, Copy, PartialEq, Eq, Structural)]
pub enum FaceOrientation {
    Top,
    Front,
    Left,
    Back,
    Right,
    Bottom,
}

/// The color at the right when `front` faces the viewer with `top` up.
pub open spec fn right_of(front: FaceColor, top: FaceColor) -> FaceColor {
    adjacency(front)[(ring_position(adjacency(front), top) + 1) % 4]
}

/// The color whose home face is at position `o` when `front` faces the
/// viewer with `top` up.
pub open spec fn oriented(front: FaceColor, top: FaceColor, o: FaceOrientation) -> FaceColor {
    match o {
        FaceOrientation::Top => top,
        FaceOrientation::Front => front,
        FaceOrientation::Left => opposite(right_of(front, top)),
        FaceOrientation::Back => opposite(front),
        FaceOrientation::Right => right_of(front, top),
        FaceOrientation::Bottom => opposite(top),
    }
}

/// The color of the face at the axis of the layer that `layer` names; a
/// move's direction is read looking at that face.
pub open spec fn axis_of(front: FaceColor, top: FaceColor, layer: AffectedFace) -> FaceColor {
    match layer {
        AffectedFace::TopRow => top,
        AffectedFace::MiddleRow => top,
        AffectedFace::BottomRow => opposite(top),
        AffectedFace::RightColumn => right_of(front, top),
        AffectedFace::MiddleColumn => right_of(front, top),
        AffectedFace::LeftColumn => opposite(right_of(front, top)),
        AffectedFace::Front => front,
        AffectedFace::Back => opposite(front),
    }
}

pub open spec fn is_slice(layer: AffectedFace) -> bool {
    layer == AffectedFace::MiddleRow || layer == AffectedFace::MiddleColumn
}

/// How many stickers of each side face a layer carries along.
pub open spec fn layer_len(slice: bool) -> int {
    if slice {
        2
    } else {
        3
    }
}

/// How many stickers go round in a layer's loop.
pub open spec fn loop_len(slice: bool) -> int {
    4 * layer_len(slice)
}

/// The ring position of the `k`-th sticker that a layer takes from a side
/// face whose side `side` (counted clockwise from the left) touches the axis
/// face. An outer layer takes that side's window; a slice takes the two edge
/// stickers of the middle line parallel to it. Both are read clockwise
/// around the side face.
pub open spec fn layer_cell(side: int, k: int, slice: bool) -> int {
    if slice {
        (2 * side + 7 + 4 * k) % 8
    } else {
        (2 * side + k) % 8
    }
}

/// Which sticker of the layer ring position `p` is, counting as
/// `layer_cell` does; -1 when the layer does not take it.
pub open spec fn layer_offset(side: int, p: int, slice: bool) -> int {
    if slice {
        let d = (p - 2 * side + 1) % 8;
        if d == 0 {
            0
        } else if d == 4 {
            1
        } else {
            -1
        }
    } else {
        let d = (p - 2 * side) % 8;
        if d < 3 {
            d
        } else {
            -1
        }
    }
}

/// The `j`-th cell (face position, ring position) of the loop of stickers
/// that a layer about `axis` carries round: the side faces in the order of
/// the axis's adjacency ring, and on each the cells of `layer_cell`.
#[verifier::opaque]
pub open spec fn loop_cell(axis: FaceColor, slice: bool, j: int) -> (int, int) {
    let g = adjacency(axis)[j / layer_len(slice)];
    (color_index(g), layer_cell(ring_position(adjacency(g), axis), j % layer_len(slice), slice))
}

/// Where cell (`f`, `p`) stands in the loop of a layer about `axis`; -1 when
/// it is not in the loop.
#[verifier::opaque]
pub open spec fn loop_slot(axis: FaceColor, slice: bool, f: int, p: int) -> int {
    let g = color_at(f);
    let i = ring_position(adjacency(axis), g);
    if i < 4 {
        let k = layer_offset(ring_position(adjacency(g), axis), p, slice);
        if k >= 0 {
            i * layer_len(slice) + k
        } else {
            -1
        }
    } else {
        -1
    }
}

/// The loop slot whose sticker moves into slot `j` on a quarter turn: the
/// one a side face back for a clockwise turn, a side face on otherwise.
pub open spec fn shifted(slice: bool, cw: bool, j: int) -> int {
    if cw {
        if j >= layer_len(slice) {
            j - layer_len(slice)
        } else {
            j + loop_len(slice) - layer_len(slice)
        }
    } else {
        if j + layer_len(slice) < loop_len(slice) {
            j + layer_len(slice)
        } else {
            j + layer_len(slice) - loop_len(slice)
        }
    }
}

/// The cell whose sticker lands on cell (`f`, `p`) when the layer about
/// `axis` turns a quarter: loop cells take from their shifted slot, the axis
/// face of an outer layer turns its own ring, everything else stays.
pub open spec fn source(axis: FaceColor, slice: bool, cw: bool, f: int, p: int) -> (int, int) {
    let j = loop_slot(axis, slice, f, p);
    if j >= 0 {
        loop_cell(axis, slice, shifted(slice, cw, j))
    } else if f == color_index(axis) && !slice {
        (f, if cw { (p + 6) % 8 } else { (p + 2) % 8 })
    } else {
        (f, p)
    }
}

/// Six rings of eight stickers, one per home color.
pub open spec fn rings_wf(rings: Seq<Seq<FaceColor>>) -> bool {
    rings.len() == 6 && forall|f: int| 0 <= f < 6 ==> (#[trigger] rings[f]).len() == 8
}

/// The rings after a quarter turn of the layer about `axis`.
pub open spec fn turned(rings: Seq<Seq<FaceColor>>, axis: FaceColor, slice: bool, cw: bool) -> Seq<
    Seq<FaceColor>,
> {
    Seq::new(
        6,
        |f: int|
            Seq::new(
                8,
                |p: int|
                    rings[source(axis, slice, cw, f, p).0][source(axis, slice, cw, f, p).1],
            ),
    )
}

/// The rings after move `mv` on a cube held with `front` and `top`.
pub open spec fn move_rings(rings: Seq<Seq<FaceColor>>, front: FaceColor, top: FaceColor, mv: Move) -> Seq<
    Seq<FaceColor>,
> {
    turned(
        rings,
        axis_of(front, top, mv.face),
        is_slice(mv.face),
        mv.direction == MoveDirection::Clockwise,
    )
}

/// Reading a layer cell back gives the sticker number it was built from.
proof fn lemma_layer_cell(side: int, k: int, slice: bool)
    requires
        0 <= side < 4,
        0 <= k < layer_len(slice),
    ensures
        layer_offset(side, layer_cell(side, k, slice), slice) == k,
        0 <= layer_cell(side, k, slice) < 8,
{
}

/// A ring position that a layer takes is the layer cell of its number.
proof fn lemma_layer_offset(side: int, p: int, slice: bool)
    requires
        0 <= side < 4,
        0 <= p < 8,
        layer_offset(side, p, slice) >= 0,
    ensures
        layer_offset(side, p, slice) < layer_len(slice),
        layer_cell(side, layer_offset(side, p, slice), slice) == p,
{
}

/// Each loop cell is a ring cell of a side face, and its slot is `j`.
proof fn lemma_loop_cell(axis: FaceColor, slice: bool, j: int)
    requires
        0 <= j < loop_len(slice),
    ensures
        0 <= loop_cell(axis, slice, j).0 < 6,
        0 <= loop_cell(axis, slice, j).1 < 8,
        loop_cell(axis, slice, j).0 != color_index(axis),
        loop_slot(axis, slice, loop_cell(axis, slice, j).0, loop_cell(axis, slice, j).1) == j,
{
    reveal(loop_cell);
    reveal(loop_slot);
    lemma_adjacency(axis);
    let per = layer_len(slice);
    let i = j / per;
    let k = j % per;
    assert(0 <= i < 4 && 0 <= k < per && i * per + k == j) by {
        if slice {
            assert(0 <= j / 2 < 4 && j % 2 < 2 && (j / 2) * 2 + j % 2 == j);
        } else {
            assert(0 <= j / 3 < 4 && j % 3 < 3 && (j / 3) * 3 + j % 3 == j);
        }
    }
    let g = adjacency(axis)[i];
    lemma_adjacency(g);
    let side = ring_position(adjacency(g), axis);
    lemma_layer_cell(side, k, slice);
}

/// A cell with a slot is the loop cell of that slot.
proof fn lemma_loop_slot(axis: FaceColor, slice: bool, f: int, p: int)
    requires
        0 <= f < 6,
        0 <= p < 8,
        loop_slot(axis, slice, f, p) >= 0,
    ensures
        loop_slot(axis, slice, f, p) < loop_len(slice),
        loop_cell(axis, slice, loop_slot(axis, slice, f, p)) == (f, p),
{
    reveal(loop_cell);
    reveal(loop_slot);
    lemma_adjacency(axis);
    lemma_color_at(f);
    let g = color_at(f);
    let per = layer_len(slice);
    let i = ring_position(adjacency(axis), g);
    let side = ring_position(adjacency(g), axis);
    let k = layer_offset(side, p, slice);
    lemma_adjacency(g);
    lemma_layer_offset(side, p, slice);
    let j = i * per + k;
    assert(j / per == i && j % per == k && j < loop_len(slice)) by {
        if slice {
            assert((i * 2 + k) / 2 == i && (i * 2 + k) % 2 == k);
        } else {
            assert((i * 3 + k) / 3 == i && (i * 3 + k) % 3 == k);
        }
    }
}

/// No cell of the axis face is in its layer's loop.
proof fn lemma_axis_not_in_loop(axis: FaceColor, slice: bool, p: int)
    ensures
        loop_slot(axis, slice, color_index(axis), p) == -1,
{
    reveal(loop_cell);
    reveal(loop_slot);
    lemma_adjacency(axis);
}

/// Shifting a slot stays in the loop; shifting back, or four times on,
/// gives the slot again.
proof fn lemma_shifted(slice: bool, cw: bool, j: int)
    requires
        0 <= j < loop_len(slice),
    ensures
        0 <= shifted(slice, cw, j) < loop_len(slice),
        shifted(slice, false, shifted(slice, true, j)) == j,
        shifted(slice, true, shifted(slice, false, j)) == j,
        shifted(slice, cw, shifted(slice, cw, shifted(slice, cw, shifted(slice, cw, j)))) == j,
{
}

/// The source of a cell is a cell, and turning back undoes it: the source
/// of that source under the other direction is the cell itself.
pub proof fn lemma_source_inverse(axis: FaceColor, slice: bool, cw: bool, f: int, p: int)
    requires
        0 <= f < 6,
        0 <= p < 8,
    ensures
        0 <= source(axis, slice, cw, f, p).0 < 6,
        0 <= source(axis, slice, cw, f, p).1 < 8,
        source(axis, slice, !cw, source(axis, slice, cw, f, p).0, source(axis, slice, cw, f, p).1)
            == (f, p),
{
    let j = loop_slot(axis, slice, f, p);
    if j >= 0 {
        lemma_loop_slot(axis, slice, f, p);
        lemma_shifted(slice, cw, j);
        lemma_loop_cell(axis, slice, shifted(slice, cw, j));
    } else if f == color_index(axis) && !slice {
        let q = if cw { (p + 6) % 8 } else { (p + 2) % 8 };
        lemma_axis_not_in_loop(axis, slice, q);
        crate::face::lemma_ring_step(p);
    }
}

/// The source of a cell after `n` quarter turns in one direction.
pub open spec fn source_n(axis: FaceColor, slice: bool, cw: bool, f: int, p: int, n: nat) -> (int, int)
    decreases n,
{
    if n == 0 {
        (f, p)
    } else {
        let c = source_n(axis, slice, cw, f, p, (n - 1) as nat);
        source(axis, slice, cw, c.0, c.1)
    }
}

/// Four quarter turns in one direction bring every sticker back.
pub proof fn lemma_source_four(axis: FaceColor, slice: bool, cw: bool, f: int, p: int)
    requires
        0 <= f < 6,
        0 <= p < 8,
    ensures
        source_n(axis, slice, cw, f, p, 4) == (f, p),
{
    let j = loop_slot(axis, slice, f, p);
    reveal_with_fuel(source_n, 5);
    if j >= 0 {
        lemma_loop_slot(axis, slice, f, p);
        lemma_shifted(slice, cw, j);
        let j1 = shifted(slice, cw, j);
        lemma_loop_cell(axis, slice, j1);
        lemma_shifted(slice, cw, j1);
        let j2 = shifted(slice, cw, j1);
        lemma_loop_cell(axis, slice, j2);
        lemma_shifted(slice, cw, j2);
        let j3 = shifted(slice, cw, j2);
        lemma_loop_cell(axis, slice, j3);
    } else if f == color_index(axis) && !slice {
        lemma_axis_not_in_loop(axis, slice, (p + 6) % 8);
        lemma_axis_not_in_loop(axis, slice, (p + 4) % 8);
        lemma_axis_not_in_loop(axis, slice, (p + 2) % 8);
        assert(((((p + 6) % 8 + 6) % 8 + 6) % 8 + 6) % 8 == p);
        assert(((((p + 2) % 8 + 2) % 8 + 2) % 8 + 2) % 8 == p);
        assert(((p + 6) % 8 + 6) % 8 == (p + 4) % 8);
        assert(((p + 2) % 8 + 2) % 8 == (p + 4) % 8);
    }
}

/// The color at the right when `front` faces the viewer with `top` up.
pub fn right_color(front: FaceColor, top: FaceColor) -> (r: FaceColor)
    ensures
        r == right_of(front, top),
{
    let i = position_in_ring(front, top);
    neighbor(front, (i + 1) % 4)
}

/// The color whose home face is at position `o` when `front` faces the
/// viewer with `top` up.
pub fn oriented_color(front: FaceColor, top: FaceColor, o: FaceOrientation) -> (r: FaceColor)
    ensures
        r == oriented(front, top, o),
{
    match o {
        FaceOrientation::Top => top,
        FaceOrientation::Front => front,
        FaceOrientation::Left => opposite_of(right_color(front, top)),
        FaceOrientation::Back => opposite_of(front),
        FaceOrientation::Right => right_color(front, top),
        FaceOrientation::Bottom => opposite_of(top),
    }
}

/// The axis color of a layer, and whether the layer is a slice.
pub fn layer_axis(front: FaceColor, top: FaceColor, layer: AffectedFace) -> (r: (FaceColor, bool))
    ensures
        r.0 == axis_of(front, top, layer),
        r.1 == is_slice(layer),
{
    match layer {
        AffectedFace::TopRow => (top, false),
        AffectedFace::MiddleRow => (top, true),
        AffectedFace::BottomRow => (opposite_of(top), false),
        AffectedFace::RightColumn => (right_color(front, top), false),
        AffectedFace::MiddleColumn => (right_color(front, top), true),
        AffectedFace::LeftColumn => (opposite_of(right_color(front, top)), false),
        AffectedFace::Front => (front, false),
        AffectedFace::Back => (opposite_of(front), false),
    }
}

/// The cells of the loop of stickers that a quarter turn of the layer about
/// `axis` carries round, in loop order.
pub fn loop_cells(axis: FaceColor, slice: bool) -> (r: Vec<(usize, usize)>)
    ensures
        r@.len() == loop_len(slice),
        forall|j: int|
            0 <= j < loop_len(slice) ==> (#[trigger] r@[j]).0 < 6 && r@[j].1 < 8
                && r@[j].0 as int == loop_cell(axis, slice, j).0
                && r@[j].1 as int == loop_cell(axis, slice, j).1,
{
    let per: usize = if slice {
        2
    } else {
        3
    };
    let mut r: Vec<(usize, usize)> = Vec::new();
    let mut i: usize = 0;
    while i < 4
        invariant
            i <= 4,
            per == layer_len(slice),
            r@.len() == i * per,
            forall|j: int|
                0 <= j < i * per ==> (#[trigger] r@[j]).0 < 6 && r@[j].1 < 8 && r@[j].0 as int == loop_cell(axis, slice, j).0
                    && r@[j].1 as int == loop_cell(axis, slice, j).1,
        decreases 4 - i,
    {
        let g = neighbor(axis, i);
        let side = position_in_ring(g, axis);
        proof {
            lemma_adjacency(axis);
            lemma_adjacency(g);
        }
        let mut k: usize = 0;
        while k < per
            invariant
                i < 4,
                k <= per,
                per == layer_len(slice),
                g == adjacency(axis)[i as int],
                side == ring_position(adjacency(g), axis),
                side < 4,
                r@.len() == i * per + k,
                forall|j: int|
                    0 <= j < i * per + k ==> (#[trigger] r@[j]).0 < 6 && r@[j].1 < 8 && r@[j].0 as int == loop_cell(axis, slice, j).0
                        && r@[j].1 as int == loop_cell(axis, slice, j).1,
            decreases per - k,
        {
            let p: usize = if slice {
                (2 * side + 7 + 4 * k) % 8
            } else {
                (2 * side + k) % 8
            };
            proof {
                reveal(loop_cell);
                let j = i * per + k;
                let pp = layer_len(slice);
                assert(j / pp == i && j % pp == k) by {
                    if slice {
                        assert((i * 2 + k) / 2 == i && (i * 2 + k) % 2 == k);
                    } else {
                        assert((i * 3 + k) / 3 == i && (i * 3 + k) % 3 == k);
                    }
                }
            }
            r.push((index_of(g), p));
            k = k + 1;
        }
        i = i + 1;
    }
    r
}

/// Turning a layer a quarter and then a quarter back leaves every ring as
/// it was.
pub proof fn lemma_turn_undo(rings: Seq<Seq<FaceColor>>, axis: FaceColor, slice: bool, cw: bool)
    requires
        rings_wf(rings),
    ensures
        turned(turned(rings, axis, slice, cw), axis, slice, !cw) == rings,
{
    let t1 = turned(rings, axis, slice, cw);
    let t2 = turned(t1, axis, slice, !cw);
    assert forall|f: int| 0 <= f < 6 implies #[trigger] t2[f] == rings[f] by {
        assert forall|p: int| 0 <= p < 8 implies t2[f][p] == rings[f][p] by {
            lemma_source_inverse(axis, slice, !cw, f, p);
            let c = source(axis, slice, !cw, f, p);
            if cw {
                assert(source(axis, slice, true, c.0, c.1) == (f, p));
            } else {
                assert(source(axis, slice, false, c.0, c.1) == (f, p));
            }
        }
        assert(t2[f] =~= rings[f]);
    }
    assert(t2 =~= rings);
}

/// Four quarter turns of a layer in one direction leave every ring as it
/// was.
pub proof fn lemma_turn_four(rings: Seq<Seq<FaceColor>>, axis: FaceColor, slice: bool, cw: bool)
    requires
        rings_wf(rings),
    ensures
        turned(turned(turned(turned(rings, axis, slice, cw), axis, slice, cw), axis, slice, cw), axis, slice, cw)
            == rings,
{
    let t1 = turned(rings, axis, slice, cw);
    let t2 = turned(t1, axis, slice, cw);
    let t3 = turned(t2, axis, slice, cw);
    let t4 = turned(t3, axis, slice, cw);
    assert forall|f: int| 0 <= f < 6 implies #[trigger] t4[f] == rings[f] by {
        assert forall|p: int| 0 <= p < 8 implies t4[f][p] == rings[f][p] by {
            reveal_with_fuel(source_n, 5);
            lemma_source_four(axis, slice, cw, f, p);
            lemma_source_inverse(axis, slice, cw, f, p);
            let c1 = source(axis, slice, cw, f, p);
            lemma_source_inverse(axis, slice, cw, c1.0, c1.1);
            let c2 = source(axis, slice, cw, c1.0, c1.1);
            lemma_source_inverse(axis, slice, cw, c2.0, c2.1);
        }
        assert(t4[f] =~= rings[f]);
    }
    assert(t4 =~= rings);
}

/// The sticker on cell (`f`, `p`) while a quarter turn writes its loop, once
/// the first `done` slots hold what moved into them.
pub open spec fn partly_turned(
    rings: Seq<Seq<FaceColor>>,
    axis: FaceColor,
    slice: bool,
    cw: bool,
    done: int,
    f: int,
    p: int,
) -> FaceColor {
    let j = loop_slot(axis, slice, f, p);
    if 0 <= j < done {
        let c = loop_cell(axis, slice, shifted(slice, cw, j));
        rings[c.0][c.1]
    } else {
        rings[f][p]
    }
}

/// Writing slot `j` changes its own cell and no other.
pub proof fn lemma_partly_step(
    rings: Seq<Seq<FaceColor>>,
    axis: FaceColor,
    slice: bool,
    cw: bool,
    j: int,
    f: int,
    p: int,
)
    requires
        0 <= j < loop_len(slice),
        0 <= f < 6,
        0 <= p < 8,
    ensures
        (f, p) == loop_cell(axis, slice, j) ==> partly_turned(rings, axis, slice, cw, j + 1, f, p)
            == rings[loop_cell(axis, slice, shifted(slice, cw, j)).0][loop_cell(
            axis,
            slice,
            shifted(slice, cw, j),
        ).1],
        (f, p) != loop_cell(axis, slice, j) ==> partly_turned(rings, axis, slice, cw, j + 1, f, p)
            == partly_turned(rings, axis, slice, cw, j, f, p),
{
    lemma_loop_cell(axis, slice, j);
    if loop_slot(axis, slice, f, p) >= 0 {
        lemma_loop_slot(axis, slice, f, p);
    }
}

/// Once the whole loop is written, the loop cells and the cells off the axis
/// face hold what a quarter turn puts there; the axis face's own ring is
/// still as it was.
pub proof fn lemma_partly_done(rings: Seq<Seq<FaceColor>>, axis: FaceColor, slice: bool, cw: bool, f: int, p: int)
    requires
        rings_wf(rings),
        0 <= f < 6,
        0 <= p < 8,
    ensures
        f != color_index(axis) || slice ==> turned(rings, axis, slice, cw)[f][p] == partly_turned(
            rings,
            axis,
            slice,
            cw,
            loop_len(slice),
            f,
            p,
        ),
        f == color_index(axis) ==> partly_turned(rings, axis, slice, cw, loop_len(slice), f, p)
            == rings[f][p],
        f == color_index(axis) && !slice ==> turned(rings, axis, slice, cw)[f][p] == rings[f][if cw {
            (p + 6) % 8
        } else {
            (p + 2) % 8
        }],
{
    lemma_axis_not_in_loop(axis, slice, p);
    if loop_slot(axis, slice, f, p) >= 0 {
        lemma_loop_slot(axis, slice, f, p);
    }
}

/// A move followed by the same move in the other direction leaves every
/// ring as it was.
pub proof fn lemma_move_undo(
    rings: Seq<Seq<FaceColor>>,
    front: FaceColor,
    top: FaceColor,
    first: Move,
    second: Move,
)
    requires
        rings_wf(rings),
        first.face == second.face,
        first.direction != second.direction,
    ensures
        move_rings(move_rings(rings, front, top, first), front, top, second) == rings,
{
    lemma_turn_undo(
        rings,
        axis_of(front, top, first.face),
        is_slice(first.face),
        first.direction == MoveDirection::Clockwise,
    );
}

/// The same move made four times leaves every ring as it was.
pub proof fn lemma_move_four(rings: Seq<Seq<FaceColor>>, front: FaceColor, top: FaceColor, mv: Move)
    requires
        rings_wf(rings),
    ensures
        move_rings(
            move_rings(move_rings(move_rings(rings, front, top, mv), front, top, mv), front, top, mv),
            front,
            top,
            mv,
        ) == rings,
{
    lemma_turn_four(rings, axis_of(front, top, mv.face), is_slice(mv.face), mv.direction == MoveDirection::Clockwise);
}

} // verus!
