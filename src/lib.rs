//! A personal file cloud: owner-confined paths, byte-range reads, archive
//! previews, change events and the indexing of the file tree.

pub mod error;
pub mod events;
pub mod index_job;
pub mod path;
pub mod range;
pub mod requests;
pub mod search;
pub mod stat;
pub mod text;
pub mod vfs;
pub mod zip_tree;
