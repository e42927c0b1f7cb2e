//! Helpers for a launcher that lists the applications of a tiling window
//! manager's scene graph and brings a chosen one back from the scratchpad.
pub mod value;
pub mod tree;
pub mod launcher;
