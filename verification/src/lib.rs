//! Interactive document workspace engine for a fixed set of firmware-table
//! text documents: a modal editor with chord commands, byte-exact dirty
//! tracking against immutable baselines, a bounded operation log, and a
//! coordinator that batches modified documents for an external apply tool.
pub mod buffer;
pub mod editor;
pub mod logbook;
pub mod nav;
pub mod prereq;
pub mod search;
pub mod stamp;
pub mod text;
