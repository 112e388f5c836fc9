//! Decision logic of a bulk image and video processor: command-line value
//! parsing, the list of edits applied to each image, output naming, the
//! duplicate detector and the routing of videos.

pub mod args;
pub mod collect;
pub mod dedup;
pub mod naming;
pub mod number;
pub mod paths;
pub mod plan;
pub mod text;
