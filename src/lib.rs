//! Disassembler for the byte-coded mission scripts of the GTA3-era games.
//!
//! The library recovers a script file's layout, decodes each chunk into typed
//! instructions, collects branch targets and renders labelled listings.
pub mod types;
pub mod library;
pub mod definitions;
pub mod platform;
pub mod parser;
pub mod encoding;
pub mod loader;
pub mod render;
pub mod disassembler;
