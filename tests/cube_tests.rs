use rubix_core::FaceColor::{Blue, Green, Orange, Red, White, Yellow};
use rubix_core::{
    AffectedFace, Cube, Face, FaceColor, FaceOrientation, LinkedListCube, Move, MoveDirection,
};

const ORIENTATIONS: [(FaceOrientation, FaceColor); 6] = [
    (FaceOrientation::Top, FaceColor::White),
    (FaceOrientation::Front, FaceColor::Red),
    (FaceOrientation::Left, FaceColor::Green),
    (FaceOrientation::Back, FaceColor::Orange),
    (FaceOrientation::Right, FaceColor::Blue),
    (FaceOrientation::Bottom, FaceColor::Yellow),
];

const LAYERS: [AffectedFace; 8] = [
    AffectedFace::TopRow,
    AffectedFace::MiddleRow,
    AffectedFace::BottomRow,
    AffectedFace::RightColumn,
    AffectedFace::MiddleColumn,
    AffectedFace::LeftColumn,
    AffectedFace::Front,
    AffectedFace::Back,
];

fn ring(face: &Face) -> Vec<FaceColor> {
    (0..8).map(|i| face.vertex(i)).collect()
}

fn scrambled() -> Cube {
    let mut cube = Cube::new();
    for (i, layer) in LAYERS.iter().enumerate() {
        let direction = if i % 3 == 0 {
            MoveDirection::CounterClockwise
        } else {
            MoveDirection::Clockwise
        };
        cube.apply(Move { direction, face: *layer });
    }
    cube
}

#[test]
fn solved_cube_shows_home_colors() {
    let cube = Cube::new();
    assert_eq!(cube.front(), FaceColor::Red);
    assert_eq!(cube.top(), FaceColor::White);
    for (orientation, color) in ORIENTATIONS {
        let face = cube.face(orientation);
        assert_eq!(face.center(), color);
        assert_eq!(ring(face), vec![color; 8]);
    }
}

#[test]
fn color_face_finds_home_face() {
    let cube = Cube::new();
    assert_eq!(cube.color_face(FaceColor::Blue).center(), FaceColor::Blue);
    let cube = LinkedListCube::new();
    let face = cube.color_face(FaceColor::Yellow);
    assert_eq!(face.center(), FaceColor::Yellow);
    for i in 0..8 {
        assert_eq!(face.vertex(i), FaceColor::Yellow);
    }
}

#[test]
fn front_clockwise_moves_side_stickers() {
    let mut cube = Cube::new();
    cube.apply(Move { direction: MoveDirection::Clockwise, face: AffectedFace::Front });
    let top = ring(cube.face(FaceOrientation::Top));
    let right = ring(cube.face(FaceOrientation::Right));
    let bottom = ring(cube.face(FaceOrientation::Bottom));
    let left = ring(cube.face(FaceOrientation::Left));
    assert_eq!(top, vec![Green, White, White, White, White, White, Green, Green]);
    assert_eq!(right, vec![White, White, White, Blue, Blue, Blue, Blue, Blue]);
    assert_eq!(bottom, vec![Yellow, Yellow, Blue, Blue, Blue, Yellow, Yellow, Yellow]);
    assert_eq!(left, vec![Green, Green, Green, Green, Yellow, Yellow, Yellow, Green]);
    assert_eq!(ring(cube.face(FaceOrientation::Front)), vec![Red; 8]);
    assert_eq!(ring(cube.face(FaceOrientation::Back)), vec![Orange; 8]);
}

#[test]
fn front_counterclockwise_moves_the_other_way() {
    let mut cube = Cube::new();
    cube.apply(Move { direction: MoveDirection::CounterClockwise, face: AffectedFace::Front });
    assert_eq!(
        ring(cube.face(FaceOrientation::Top)),
        vec![Blue, White, White, White, White, White, Blue, Blue]
    );
    assert_eq!(
        ring(cube.face(FaceOrientation::Left)),
        vec![Green, Green, Green, Green, White, White, White, Green]
    );
}

#[test]
fn front_turn_rotates_front_ring() {
    let mut cube = scrambled();
    let before = ring(cube.face(FaceOrientation::Front));
    cube.apply(Move { direction: MoveDirection::Clockwise, face: AffectedFace::Front });
    let after = ring(cube.face(FaceOrientation::Front));
    for i in 0..8 {
        assert_eq!(after[i], before[(i + 6) % 8]);
    }
}

#[test]
fn middle_row_moves_middle_stickers_only() {
    let mut cube = Cube::new();
    cube.apply(Move { direction: MoveDirection::Clockwise, face: AffectedFace::MiddleRow });
    assert_eq!(ring(cube.face(FaceOrientation::Top)), vec![White; 8]);
    assert_eq!(ring(cube.face(FaceOrientation::Bottom)), vec![Yellow; 8]);
    assert_eq!(
        ring(cube.face(FaceOrientation::Front)),
        vec![Red, Blue, Red, Red, Red, Blue, Red, Red]
    );
    assert_eq!(cube.face(FaceOrientation::Front).center(), Red);
}

#[test]
fn front_clockwise_four_times_restores_solved() {
    let solved = Cube::new();
    let mut cube = Cube::new();
    for _ in 0..4 {
        cube.apply(Move { direction: MoveDirection::Clockwise, face: AffectedFace::Front });
    }
    assert_eq!(cube, solved);
    for (orientation, color) in ORIENTATIONS {
        assert_eq!(ring(cube.face(orientation)), vec![color; 8]);
    }
}

#[test]
fn any_move_four_times_restores_cube() {
    for layer in LAYERS {
        for direction in [MoveDirection::Clockwise, MoveDirection::CounterClockwise] {
            let start = scrambled();
            let mut cube = start;
            for _ in 0..4 {
                cube.apply(Move { direction, face: layer });
            }
            assert_eq!(cube, start);
        }
    }
}

#[test]
fn move_then_reverse_restores_cube() {
    for layer in LAYERS {
        let start = scrambled();
        let mut cube = start;
        cube.apply(Move { direction: MoveDirection::Clockwise, face: layer });
        assert_ne!(cube, start);
        cube.apply(Move { direction: MoveDirection::CounterClockwise, face: layer });
        assert_eq!(cube, start);
        cube.apply(Move { direction: MoveDirection::CounterClockwise, face: layer });
        cube.apply(Move { direction: MoveDirection::Clockwise, face: layer });
        assert_eq!(cube, start);
    }
}

#[test]
fn both_cubes_agree() {
    let mut cube = Cube::new();
    let mut list_cube = LinkedListCube::new();
    for (i, layer) in LAYERS.iter().enumerate() {
        let direction = if i % 2 == 0 {
            MoveDirection::Clockwise
        } else {
            MoveDirection::CounterClockwise
        };
        let mv = Move { direction, face: *layer };
        cube.apply(mv);
        list_cube.apply(mv);
    }
    for color in [
        FaceColor::White,
        FaceColor::Red,
        FaceColor::Green,
        FaceColor::Orange,
        FaceColor::Blue,
        FaceColor::Yellow,
    ] {
        let a = cube.color_face(color);
        let b = list_cube.color_face(color);
        for i in 0..8 {
            assert_eq!(a.vertex(i), b.vertex(i));
        }
    }
}

#[test]
fn edge_loop_lists_twelve_or_eight_cells() {
    let cube = Cube::new();
    let front_loop = cube.edge_loop(AffectedFace::Front);
    assert_eq!(front_loop.len(), 12);
    assert_eq!(front_loop[0], (2, 4));
    assert_eq!(front_loop[3], (0, 6));
    assert_eq!(front_loop[5], (0, 0));
    assert_eq!(cube.edge_loop(AffectedFace::MiddleColumn).len(), 8);
}
