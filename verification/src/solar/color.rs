//! An abstraction over colours.

use vstd::prelude::*;

verus! {

/// Basic colors that things can be in the world.
#[derive(Clone, Copy, Debug, Eq, PartialEq, Structural)]
pub enum Color {
    Black,
    Red,
    Green,
    Yellow,
    Blue,
    Magenta,
    Cyan,
    White,
}

} // verus!
