//! Core logic of a command-driven chat relay: a table-driven command
//! matcher, prompt-template assembly, response post-processing (reasoning-span
//! stripping, size-bounded chunking, pagination footers) and the outbound
//! delivery plan. All text is handled as UTF-8 bytes; the surrounding
//! program converts between strings and bytes at the edges and performs the
//! gateway and backend I/O.

pub mod text;
pub mod num;
pub mod strip;
pub mod chunk;
pub mod store;
pub mod prompt;
pub mod dispatch;
pub mod deliver;
