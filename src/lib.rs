//! A cached, virtualised view of a document project's files: fingerprinted
//! cells, file slots, package resolution and an export cache.
pub mod cell;
pub mod cmd;
pub mod completion;
pub mod diagnostics;
pub mod error;
pub mod export;
pub mod fingerprint;
pub mod listing;
pub mod package;
pub mod pages;
pub mod position;
pub mod progress;
pub mod project;
pub mod text;
pub mod vpath;
pub mod world;
