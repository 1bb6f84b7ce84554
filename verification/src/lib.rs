//! A compiler and virtual machine for a small interactive-dialogue scripting
//! language.
//!
//! Source text is compiled by a fixed pipeline of passes into a bytecode
//! [`program::Program`]; a [`vm::Dialogue`] then interprets one node of that
//! program at a time, yielding batches of events (lines, options, commands) to
//! its host and accepting the host's option selections.  Line text is prepared
//! for presentation by the inline [`markup`] parser.

pub mod analysis;
pub mod compiler;
pub mod declaration;
pub mod diagnostic;
pub mod library;
pub mod markup;
mod parser;
pub mod program;
pub mod storage;
pub mod types;
pub mod util;
pub mod value;
pub mod vm;
