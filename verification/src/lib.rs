//! Recovers null-terminated strings from a binary image at the places that
//! the global data symbols of its debug database name.
//!
//! A lookup run wants some names. It pulls the records of the global symbol
//! table one by one; for the first data symbol of each wanted name it places
//! the symbol in the image file by the section header table, has the string
//! at that offset read, and emits a row of offset, name and value. It ends
//! when every name is found or the table is exhausted, and is abandoned at
//! the first failure, with the rows it emitted until then.
//!
//! - [`image`]: the run of bytes up to a terminator, and its text.
//! - [`symbol`]: data symbols, section headers, and sources of records.
//! - [`lookup`]: the state of a run, driven step by step.
//! - [`resolve`]: a whole run over an image held in memory.
//! - [`row`]: rows and the lines they are written as.
//! - [`error`]: the failures of a run.
//! - [`database`]: the symbol table and section headers of a PDB file.
//! - [`laws`]: what holds of every run.

pub mod database;
pub mod error;
pub mod image;
pub mod laws;
pub mod lookup;
pub mod resolve;
pub mod row;
pub mod symbol;
