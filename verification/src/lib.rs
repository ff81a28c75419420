//! Verified core of the canvas window switcher: search filtering,
//! selection and navigation decisions, window ordering, and the integer
//! geometry of cells on screen.

pub mod text;
pub mod search;
pub mod geometry;
pub mod ordering;
pub mod selection;
pub mod windows_info;
pub mod input;
pub mod timing;
pub mod events;
