//! Obfusku: a language written in glyphs, compiled in one pass to bytecode
//! and run on a stack machine.
//!
//! The way of a program leads through the modules in this order: `symbols`
//! holds the registry of glyphs; `lexer` turns a source into tokens;
//! `grammar` says what code each construct of the language compiles to, and
//! `compiler` emits it; `bytecode` holds the instructions, the values and
//! the chunks; `wire` is the file format of a chunk and `serialize` writes
//! and reads it; `vm` is the machine, whose every step `vm::semantics`
//! describes.
//!
//! The machine does not compute with floating point and does no input or
//! output of its own: for both it asks its host, by the effect of a step,
//! and takes the host's answer before the next.

pub mod bytecode;
pub mod compiler;
pub mod descent;
pub mod endian;
pub mod grammar;
pub mod index;
pub mod lexer;
pub mod modules;
pub mod number;
pub mod optimizer;
pub mod serialize;
pub mod source_map;
pub mod symbols;
pub mod text;
pub mod vm;
pub mod wire;
