//! Turns tile-map data into C source text.
//!
//! The crate is built around a small intermediate representation of C
//! declarations ([`ir`]) and an emitter that prints a sequence of such
//! declarations as one text ([`codegen`]).  What the emitter prints is fixed,
//! character for character, by the specification functions of [`text`]; the
//! executable functions are proved to produce exactly that text.
//!
//! [`convert`] derives the declarations for one tile map: two macros for its
//! size and one constant array of tile indices.

pub mod codegen;
pub mod convert;
pub mod decimal;
pub mod ir;
pub mod rows;
pub mod text;
