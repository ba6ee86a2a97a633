//! What happens to everything that is kept when the game goes on by one step.

pub mod ship;
pub mod site;
pub mod sites;
