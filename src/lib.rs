use vstd::prelude::*;

pub mod controls;
pub mod player;

pub use controls::{Controls, Heading};
pub use player::Player;

verus! {

/// Whether the live population has shrunk to the point where the simulation is over.
pub fn is_terminal(population: usize) -> (r: bool)
    ensures
        r == (population <= 1),
{
    population <= 1
}

} // verus!
