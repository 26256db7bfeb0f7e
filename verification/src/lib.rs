//! Staging and exchange engine for a drag-and-drop file shuttle.
//!
//! The crate holds the logic that sits between a command line and a
//! presentation layer: an append-only set of staged filesystem paths, the
//! `text/uri-list` codec used to exchange path sets with the platform's
//! drag-and-drop subsystem, the render-mode policy that turns the staged set
//! into draggable units, and the ingestion state machine that applies
//! incoming path messages to both.

pub mod cli;
pub mod codec;
pub mod icons;
pub mod paths;
pub mod pipeline;
pub mod render;
pub mod staging;
