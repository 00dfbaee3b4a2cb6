//! A small disassembler library: printable-string extraction from raw bytes,
//! selection of the executable code section of an object file, and a
//! line-oriented text report over the instructions that an external decoder
//! returns.

pub mod config;
pub mod decode;
pub mod loader;
pub mod report;
pub mod scanner;
pub mod text;
