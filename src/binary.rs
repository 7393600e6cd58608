//! Telling the two STL encodings apart, and decoding the binary one.
use crate::bytes::{has_prefix_ci, le_u32, read_u32_le, starts_with_ci};
use crate::weld::Position;
use crate::StlReader;
use vstd::prelude::*;

verus! {

/// The length of the free-form header of a binary file.
pub const HEADER_LEN: usize = 80;

/// The length of one triangle record of a binary file.
pub const RECORD_LEN: usize = 50;

/// The two encodings of an STL file.
#[derive(Clone, Copy, Debug, PartialEq, Eq, Structural)]
pub enum StlFormat {
    Ascii,
    Binary,
}

/// Why an input cannot be decoded.
#[derive(Clone, Copy, Debug, PartialEq, Eq, Structural)]
pub enum StlError {
    /// The input ends before a field that its layout requires.
    TruncatedInput,
}

/// The word that opens a text file.
pub open spec fn solid_word() -> Seq<u8> {
    seq![115u8, 111u8, 108u8, 105u8, 100u8]
}

fn solid_bytes() -> (k: [u8; 5])
    ensures
        k@ == solid_word(),
{
    let k: [u8; 5] = [115, 111, 108, 105, 100];
    assert(k@ =~= solid_word());
    k
}

/// Chooses the decoder by the first five bytes: `solid` in any case means
/// text, anything else binary.
pub fn detect_format(data: &[u8]) -> (r: Result<StlFormat, StlError>)
    ensures
        data@.len() < 5 <==> r == Err::<StlFormat, StlError>(StlError::TruncatedInput),
        r == Ok::<StlFormat, StlError>(StlFormat::Ascii) <==> starts_with_ci(data@, 0, data@.len() as int, solid_word()),
{
    if data.len() < 5 {
        return Err(StlError::TruncatedInput);
    }
    let kw = solid_bytes();
    if has_prefix_ci(data, 0, data.len(), &kw) {
        Ok(StlFormat::Ascii)
    } else {
        Ok(StlFormat::Binary)
    }
}

/// The triangle count that a binary file declares.
pub open spec fn declared_count(data: Seq<u8>) -> nat {
    le_u32(data, HEADER_LEN as int)
}

/// The length that a binary file declaring `n` triangles must have at least.
pub open spec fn binary_len(n: nat) -> nat {
    (HEADER_LEN + 4 + RECORD_LEN * n) as nat
}

/// The position read at byte offset `at`.
pub open spec fn position_at(data: Seq<u8>, at: int) -> Position {
    Position {
        x: le_u32(data, at) as u32,
        y: le_u32(data, at + 4) as u32,
        z: le_u32(data, at + 8) as u32,
    }
}

/// Corner `c` of triangle `t` of a binary file: after the count, each record
/// holds a normal, three positions and two attribute bytes.
pub open spec fn binary_corner(data: Seq<u8>, t: int, c: int) -> Position {
    position_at(data, HEADER_LEN + 4 + RECORD_LEN * t + 12 + 12 * c)
}

/// `tris` are the triangles of the binary file `data`, in record order.
pub open spec fn is_binary_decoding(data: Seq<u8>, tris: Seq<[Position; 3]>) -> bool {
    &&& tris.len() == declared_count(data)
    &&& forall|t: int, c: int|
        0 <= t < tris.len() && 0 <= c < 3 ==> (#[trigger] tris[t]@[c]) == binary_corner(data, t, c)
}

fn read_position(data: &[u8], at: usize) -> (p: Position)
    requires
        at + 12 <= data@.len(),
    ensures
        p == position_at(data@, at as int),
{
    let len = data.len();
    assert(at + 12 <= len);
    let x = read_u32_le(data, at);
    let y = read_u32_le(data, at + 4);
    let z = read_u32_le(data, at + 8);
    Position { x, y, z }
}

impl StlReader {
    /// Decodes the triangle records of a binary file. Fails when the input is
    /// shorter than its header, its count, or the records that the count declares.
    pub fn read_binary_stl(data: &[u8]) -> (r: Result<Vec<[Position; 3]>, StlError>)
        ensures
            match r {
                Ok(tris) => data@.len() >= HEADER_LEN + 4 && binary_len(declared_count(data@)) <= data@.len()
                    && is_binary_decoding(data@, tris@),
                Err(e) => e == StlError::TruncatedInput && (data@.len() < HEADER_LEN + 4 || data@.len()
                    < binary_len(declared_count(data@))),
            },
    {
        if data.len() < HEADER_LEN + 4 {
            return Err(StlError::TruncatedInput);
        }
        let count = read_u32_le(data, HEADER_LEN);
        let room = (data.len() - (HEADER_LEN + 4)) / RECORD_LEN;
        if count as usize > room {
            proof {
                assert(RECORD_LEN * room <= data@.len() - (HEADER_LEN + 4)) by (nonlinear_arith)
                    requires room == (data@.len() - (HEADER_LEN + 4)) / RECORD_LEN as int;
                assert(RECORD_LEN * (room + 1) > data@.len() - (HEADER_LEN + 4)) by (nonlinear_arith)
                    requires room == (data@.len() - (HEADER_LEN + 4)) / RECORD_LEN as int;
                assert(RECORD_LEN * (count as int) >= RECORD_LEN * (room + 1)) by (nonlinear_arith)
                    requires count as int >= room + 1;
            }
            return Err(StlError::TruncatedInput);
        }
        proof {
            assert(RECORD_LEN * room <= data@.len() - (HEADER_LEN + 4)) by (nonlinear_arith)
                requires room == (data@.len() - (HEADER_LEN + 4)) / RECORD_LEN as int;
            assert(RECORD_LEN * (count as int) <= RECORD_LEN * room) by (nonlinear_arith)
                requires count as int <= room;
        }
        let len = data.len();
        let mut tris: Vec<[Position; 3]> = Vec::new();
        let mut t: usize = 0;
        let mut base: usize = HEADER_LEN + 4;
        while t < count as usize
            invariant
                count as nat == declared_count(data@),
                len == data@.len(),
                binary_len(count as nat) <= data@.len(),
                t <= count,
                base == HEADER_LEN + 4 + RECORD_LEN * t,
                tris@.len() == t,
                forall|u: int, c: int|
                    0 <= u < t && 0 <= c < 3 ==> (#[trigger] tris@[u]@[c]) == binary_corner(data@, u, c),
            decreases count - t,
        {
            let a = read_position(data, base + 12);
            let b = read_position(data, base + 24);
            let c = read_position(data, base + 36);
            let tri = [a, b, c];
            proof {
                assert(tri@ =~= seq![a, b, c]);
            }
            tris.push(tri);
            t = t + 1;
            base = base + RECORD_LEN;
        }
        Ok(tris)
    }
}

} // verus!
