//! A model of a 3x3x3 twisty cube: six faces of stickers, quarter turns of
//! its layers, and proofs that the turns behave as the puzzle does.
pub mod color;
pub mod cube;
pub mod face;
pub mod turn;

pub use crate::color::FaceColor;
pub use crate::cube::{Cube, LinkedListCube};
pub use crate::face::{Face, FaceEdge, FaceRow, LinkedListFace};
pub use crate::turn::{AffectedFace, FaceOrientation, Move, MoveDirection};
