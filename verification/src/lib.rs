//! A verified core for the `signal_chain!` macro and for the integer logic of
//! the audio engine: the macro's input grammar, the mapping of audio objects to
//! state slots, and the code that the macro writes.

pub mod tokens;
pub mod syntax;
pub mod ast;
pub mod grammar;
pub mod parser;
pub mod mapping;
pub mod emit;
pub mod generate;
pub mod expand;
pub mod engine;
pub mod laws;
