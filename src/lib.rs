//! Selection of issues and their fair, randomised distribution among the
//! members of a project.

pub mod model;
pub mod select;
pub mod balance;
pub mod execute;
pub mod label;
pub mod lookup;
mod random;
