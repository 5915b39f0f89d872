use vstd::prelude::*;

verus! {

/// Input handling for the player and the view; it holds no state of its own.
pub struct Controls;

/// A direction key the player can hold.
#[derive(Clone, Copy, Debug, PartialEq, Eq, Structural)]
pub enum Heading {
    Up,
    Down,
    Left,
    Right,
}

/// The unit step on each axis that a heading pushes the player along
/// (screen coordinates: `y` grows downwards).
pub open spec fn axis_of(h: Heading) -> (int, int) {
    match h {
        Heading::Up => (0, -1),
        Heading::Down => (0, 1),
        Heading::Left => (-1, 0),
        Heading::Right => (1, 0),
    }
}

impl Controls {
    /// The sign of the push that `heading` gives on the x and y axes.
    pub fn heading_axis(heading: Heading) -> (r: (i8, i8))
        ensures
            (r.0 as int, r.1 as int) == axis_of(heading),
    {
        match heading {
            Heading::Up => (0, -1),
            Heading::Down => (0, 1),
            Heading::Left => (-1, 0),
            Heading::Right => (1, 0),
        }
    }
}

} // verus!
