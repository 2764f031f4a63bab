//! Relocation engine for a directory tree: classifies each file into a
//! bucket, picks a collision-free destination name and decides, per file,
//! whether to skip, preview or move it.

pub mod text;
pub mod classify;
pub mod collision;
pub mod plan;
pub mod walk;
pub mod run;
