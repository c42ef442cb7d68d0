//! A falling-sand cellular automaton: a grid of material cells that evolves one
//! tick at a time under gravity, density displacement, heat diffusion and
//! pairwise material reactions.
//!
//! [`universe::Universe`] is the executable world; [`grid::Grid`] is its
//! mathematical state, over which every contract is stated. The rules live in
//! [`heat`], [`reaction`] and [`motion`], and [`tick`] composes them.

pub mod brush;
pub mod descent;
pub mod grid;
pub mod heat;
pub mod laws;
pub mod material;
pub mod motion;
pub mod random;
pub mod reaction;
pub mod tick;
pub mod universe;
pub mod wellformed;
