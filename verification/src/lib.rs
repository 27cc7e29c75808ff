//! A literate-programming extraction engine ("tangle"): documents interleave
//! prose with named, tagged code blocks; the library parses the blocks, picks
//! a requested block together with the transitive closure of its declared
//! dependencies, orders the closure so that every dependency comes before its
//! dependent, and routes the ordered fragments into one or more output files.
//!
//! Text is handled as raw bytes: a document is a sequence of lines, each line
//! a sequence of bytes. Reading and writing files, and invoking external
//! typesetting tools, are left to the caller; the library only computes.

pub mod block;
pub mod error;
pub mod export;
pub mod laws;
pub mod lit;
pub mod parser;
pub mod resolver;
pub mod router;
pub mod text;
