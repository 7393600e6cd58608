//! Loading of STL surface meshes, with welding of coincident vertices.
//!
//! Coordinates are carried as the bit patterns of IEEE-754 single-precision
//! numbers. Whatever needs floating-point arithmetic (reading a decimal number,
//! dividing by the welding step) is done by the caller, which hands the library
//! a grid key for each vertex; the library tells the encodings apart, decodes
//! records, finds the number tokens of text files and welds.
//!
//! A load goes: [`binary::detect_format`], then [`StlReader::read_binary_stl`]
//! or [`StlReader::read_ascii_stl`], then a grid key for each vertex, then
//! [`weld::weld_facets`].
use vstd::prelude::*;

pub mod ascii;
pub mod binary;
pub mod bytes;
pub mod fibonacci;
pub mod laws;
pub mod weld;

verus! {

/// The loader. It holds no state: each decode pass owns its own tables.
#[derive(Clone, Copy, Debug)]
pub struct StlReader;

impl StlReader {
    pub fn new() -> (r: StlReader) {
        StlReader
    }
}

} // verus!
