use rubix_core::{Face, FaceColor, FaceEdge, FaceRow, LinkedListFace};

#[test]
fn can_rotate_cw() {
    let center = FaceColor::Blue;
    let colors = [
        FaceColor::White,
        FaceColor::Red,
        FaceColor::Green,
        FaceColor::Blue,
        FaceColor::Blue,
        FaceColor::Blue,
        FaceColor::Blue,
        FaceColor::Blue,
    ];
    let mut face = LinkedListFace::from(center, colors);

    let colors = [
        FaceColor::Blue,
        FaceColor::Blue,
        FaceColor::White,
        FaceColor::Red,
        FaceColor::Green,
        FaceColor::Blue,
        FaceColor::Blue,
        FaceColor::Blue,
    ];
    let expected_face = LinkedListFace::from(center, colors);

    face.rotate_cw();

    println!("expect:\n{expected_face:?}");
    println!("actual:\n{face:?}");
    assert_eq!(face, expected_face);
}

#[test]
fn can_rotate_ccw() {
    let center = FaceColor::Blue;
    let colors = [
        FaceColor::White,
        FaceColor::Red,
        FaceColor::Green,
        FaceColor::Blue,
        FaceColor::Blue,
        FaceColor::Blue,
        FaceColor::Blue,
        FaceColor::Blue,
    ];
    let mut face = LinkedListFace::from(center, colors);

    let colors = [
        FaceColor::Green,
        FaceColor::Blue,
        FaceColor::Blue,
        FaceColor::Blue,
        FaceColor::Blue,
        FaceColor::Blue,
        FaceColor::White,
        FaceColor::Red,
    ];
    let expected_face = LinkedListFace::from(center, colors);

    face.rotate_ccw();

    println!("expect:\n{expected_face:?}");
    println!("actual:\n{face:?}");
    assert_eq!(face, expected_face);
}

#[test]
fn can_shift_in_cw() {
    let center = FaceColor::Blue;
    let edge_colors = [FaceColor::White, FaceColor::Red, FaceColor::Green];
    let edge = FaceEdge::Up;
    let colors = [FaceColor::Blue; 8];
    let mut face = LinkedListFace::from(center, colors);

    let colors = [
        FaceColor::Blue,
        FaceColor::Blue,
        FaceColor::White,
        FaceColor::Red,
        FaceColor::Green,
        FaceColor::Blue,
        FaceColor::Blue,
        FaceColor::Blue,
    ];
    let expected_face = LinkedListFace::from(center, colors);
    face.shift_in_cw(edge, edge_colors);
    assert_eq!(face, expected_face);

    let edge_colors = [FaceColor::Yellow, FaceColor::White, FaceColor::Orange];
    let edge = FaceEdge::Left;
    let colors = [
        FaceColor::Yellow,
        FaceColor::White,
        FaceColor::Orange,
        FaceColor::Red,
        FaceColor::Green,
        FaceColor::Blue,
        FaceColor::Blue,
        FaceColor::Blue,
    ];
    let expected_face = LinkedListFace::from(center, colors);
    face.shift_in_cw(edge, edge_colors);
    assert_eq!(face, expected_face);

    let edge_colors = [FaceColor::Orange, FaceColor::Yellow, FaceColor::White];
    let edge = FaceEdge::Right;
    let colors = [
        FaceColor::Yellow,
        FaceColor::White,
        FaceColor::Orange,
        FaceColor::Red,
        FaceColor::Orange,
        FaceColor::Yellow,
        FaceColor::White,
        FaceColor::Blue,
    ];
    let expected_face = LinkedListFace::from(center, colors);
    face.shift_in_cw(edge, edge_colors);
    assert_eq!(face, expected_face);

    let edge_colors = [FaceColor::Red, FaceColor::Orange, FaceColor::Yellow];
    let edge = FaceEdge::Down;
    let colors = [
        FaceColor::Red,
        FaceColor::White,
        FaceColor::Orange,
        FaceColor::Red,
        FaceColor::Orange,
        FaceColor::Yellow,
        FaceColor::Orange,
        FaceColor::Yellow,
    ];
    let expected_face = LinkedListFace::from(center, colors);
    face.shift_in_cw(edge, edge_colors);
    assert_eq!(face, expected_face);
}

fn mixed_ring() -> [FaceColor; 8] {
    [
        FaceColor::White,
        FaceColor::Red,
        FaceColor::Green,
        FaceColor::Orange,
        FaceColor::Blue,
        FaceColor::Yellow,
        FaceColor::Red,
        FaceColor::Green,
    ]
}

#[test]
fn new_face_is_solved() {
    let face = LinkedListFace::new(FaceColor::Orange);
    assert_eq!(face.center(), FaceColor::Orange);
    for i in 0..8 {
        assert_eq!(face.vertex(i), FaceColor::Orange);
    }
    let face = Face::new(FaceColor::Green);
    assert_eq!(face.center(), FaceColor::Green);
    for i in 0..8 {
        assert_eq!(face.vertex(i), FaceColor::Green);
    }
}

#[test]
fn rotation_round_trip_restores_ring() {
    let original = LinkedListFace::from(FaceColor::Blue, mixed_ring());
    let mut face = LinkedListFace::from(FaceColor::Blue, mixed_ring());
    face.rotate_cw();
    assert_ne!(face, original);
    face.rotate_ccw();
    assert_eq!(face, original);
    face.rotate_ccw();
    face.rotate_cw();
    assert_eq!(face, original);
}

#[test]
fn array_face_rotation_matches_list_face() {
    let mut list = LinkedListFace::from(FaceColor::Blue, mixed_ring());
    let mut face = Face::new(FaceColor::Blue);
    for side in [FaceEdge::Left, FaceEdge::Right] {
        face.edge_mut(side, list.get_edge(side));
    }
    face.edge_mut(FaceEdge::Up, list.get_edge(FaceEdge::Up));
    face.edge_mut(FaceEdge::Down, list.get_edge(FaceEdge::Down));
    for i in 0..8 {
        assert_eq!(face.vertex(i), list.vertex(i));
    }
    list.rotate_cw();
    face.rotate_clockwise();
    for i in 0..8 {
        assert_eq!(face.vertex(i), list.vertex(i));
    }
    let before = face;
    face.rotate_counterclockwise();
    face.rotate_counterclockwise();
    list.rotate_ccw();
    list.rotate_ccw();
    for i in 0..8 {
        assert_eq!(face.vertex(i), list.vertex(i));
    }
    face.rotate_clockwise();
    face.rotate_clockwise();
    assert_eq!(face, before);
}

#[test]
fn four_clockwise_turns_restore_face() {
    let original = LinkedListFace::from(FaceColor::Red, mixed_ring());
    let mut face = LinkedListFace::from(FaceColor::Red, mixed_ring());
    for _ in 0..4 {
        face.rotate_cw();
    }
    assert_eq!(face, original);
}

#[test]
fn get_edge_reads_each_window() {
    let face = LinkedListFace::from(FaceColor::Blue, mixed_ring());
    assert_eq!(
        face.get_edge(FaceEdge::Left),
        [FaceColor::White, FaceColor::Red, FaceColor::Green]
    );
    assert_eq!(
        face.get_edge(FaceEdge::Up),
        [FaceColor::Green, FaceColor::Orange, FaceColor::Blue]
    );
    assert_eq!(
        face.get_edge(FaceEdge::Right),
        [FaceColor::Blue, FaceColor::Yellow, FaceColor::Red]
    );
    assert_eq!(
        face.get_edge(FaceEdge::Down),
        [FaceColor::White, FaceColor::Red, FaceColor::Green]
    );
}

#[test]
fn get_row_reads_the_grid() {
    let face = LinkedListFace::from(FaceColor::Blue, mixed_ring());
    assert_eq!(
        face.get_row(FaceRow::Top),
        [FaceColor::Green, FaceColor::Orange, FaceColor::Blue]
    );
    assert_eq!(
        face.get_row(FaceRow::Middle),
        [FaceColor::Red, FaceColor::Blue, FaceColor::Yellow]
    );
    assert_eq!(
        face.get_row(FaceRow::Bottom),
        [FaceColor::White, FaceColor::Green, FaceColor::Red]
    );
}

#[test]
fn edge_then_shift_in_leaves_face() {
    for side in [FaceEdge::Left, FaceEdge::Up, FaceEdge::Right, FaceEdge::Down] {
        let original = LinkedListFace::from(FaceColor::Yellow, mixed_ring());
        let mut face = LinkedListFace::from(FaceColor::Yellow, mixed_ring());
        let edge = face.get_edge(side);
        face.shift_in_cw(side, edge);
        assert_eq!(face, original);
        let edge = face.get_edge(side);
        face.shift_in_ccw(side, edge);
        assert_eq!(face, original);

        let mut array_face = Face::new(FaceColor::Yellow);
        array_face.edge_mut(side, [FaceColor::Red, FaceColor::Green, FaceColor::White]);
        let before = array_face;
        array_face.edge_mut(side, array_face.edge(side));
        assert_eq!(array_face, before);
    }
}

#[test]
fn shift_in_ccw_writes_the_window() {
    let mut face = LinkedListFace::new(FaceColor::Blue);
    face.shift_in_ccw(FaceEdge::Up, [FaceColor::White, FaceColor::Red, FaceColor::Green]);
    let expected = LinkedListFace::from(
        FaceColor::Blue,
        [
            FaceColor::Blue,
            FaceColor::Blue,
            FaceColor::White,
            FaceColor::Red,
            FaceColor::Green,
            FaceColor::Blue,
            FaceColor::Blue,
            FaceColor::Blue,
        ],
    );
    assert_eq!(face, expected);
    face.shift_in_ccw(FaceEdge::Down, [FaceColor::Red, FaceColor::Orange, FaceColor::Yellow]);
    assert_eq!(face.vertex(0), FaceColor::Red);
    assert_eq!(face.vertex(6), FaceColor::Orange);
    assert_eq!(face.vertex(7), FaceColor::Yellow);
    assert_eq!(face.vertex(2), FaceColor::White);
}
