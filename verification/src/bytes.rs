use vstd::prelude::*;
use crate::errors::UdfError;

verus! {

/// The little-endian 16-bit integer held at `s[i]`, `s[i + 1]`.
pub open spec fn le16(s: Seq<u8>, i: int) -> u16 {
    (s[i] + s[i + 1] * 0x100) as u16
}

/// The little-endian 32-bit integer held at `s[i]` .. `s[i + 3]`.
pub open spec fn le32(s: Seq<u8>, i: int) -> u32 {
    (s[i] + s[i + 1] * 0x100 + s[i + 2] * 0x1_0000 + s[i + 3] * 0x100_0000) as u32
}

/// The little-endian 64-bit integer held at `s[i]` .. `s[i + 7]`.
pub open spec fn le64(s: Seq<u8>, i: int) -> u64 {
    (le32(s, i) + le32(s, i + 4) * 0x1_0000_0000) as u64
}

/// True iff `n` bytes are available at byte address `off` of `data`.
pub fn has_bytes(data: &[u8], off: u64, n: u64) -> (b: bool)
    ensures
        b <==> off + n <= data@.len(),
{
    off <= data.len() as u64 && n <= data.len() as u64 - off
}

/// The byte at address `off`, or `ShortRead` past the end.
pub fn read_u8_at(data: &[u8], off: u64) -> (r: Result<u8, UdfError>)
    ensures
        off + 1 <= data@.len() ==> r == Ok::<u8, UdfError>(data@[off as int]),
        off + 1 > data@.len() ==> r == Err::<u8, UdfError>(UdfError::ShortRead),
{
    if off < data.len() as u64 {
        Ok(data[off as usize])
    } else {
        Err(UdfError::ShortRead)
    }
}

/// The little-endian 16-bit integer at address `off`, or `ShortRead`.
pub fn read_u16_at(data: &[u8], off: u64) -> (r: Result<u16, UdfError>)
    ensures
        off + 2 <= data@.len() ==> r == Ok::<u16, UdfError>(le16(data@, off as int)),
        off + 2 > data@.len() ==> r == Err::<u16, UdfError>(UdfError::ShortRead),
{
    if has_bytes(data, off, 2) {
        let i = off as usize;
        Ok(data[i] as u16 + data[i + 1] as u16 * 0x100)
    } else {
        Err(UdfError::ShortRead)
    }
}

/// The little-endian 32-bit integer at address `off`, or `ShortRead`.
pub fn read_u32_at(data: &[u8], off: u64) -> (r: Result<u32, UdfError>)
    ensures
        off + 4 <= data@.len() ==> r == Ok::<u32, UdfError>(le32(data@, off as int)),
        off + 4 > data@.len() ==> r == Err::<u32, UdfError>(UdfError::ShortRead),
{
    if has_bytes(data, off, 4) {
        let i = off as usize;
        Ok(data[i] as u32 + data[i + 1] as u32 * 0x100 + data[i + 2] as u32 * 0x1_0000
            + data[i + 3] as u32 * 0x100_0000)
    } else {
        Err(UdfError::ShortRead)
    }
}

/// The little-endian 64-bit integer at address `off`, or `ShortRead`.
pub fn read_u64_at(data: &[u8], off: u64) -> (r: Result<u64, UdfError>)
    ensures
        off + 8 <= data@.len() ==> r == Ok::<u64, UdfError>(le64(data@, off as int)),
        off + 8 > data@.len() ==> r == Err::<u64, UdfError>(UdfError::ShortRead),
{
    if has_bytes(data, off, 8) {
        let len: usize = data.len();
        proof {
            assert(off + 8 <= len);
        }
        let lo = read_u32_at(data, off).unwrap();
        let hi = read_u32_at(data, off + 4).unwrap();
        Ok(lo as u64 + hi as u64 * 0x1_0000_0000)
    } else {
        Err(UdfError::ShortRead)
    }
}

/// The `n` bytes starting at address `off` as a slice, or `ShortRead`.
pub fn sub_slice<'a>(data: &'a [u8], off: u64, n: u64) -> (r: Result<&'a [u8], UdfError>)
    ensures
        off + n <= data@.len() ==> (r matches Ok(s) && s@ == data@.subrange(
            off as int,
            off + n,
        )),
        off + n > data@.len() ==> r == Err::<&'a [u8], UdfError>(UdfError::ShortRead),
{
    if has_bytes(data, off, n) {
        let len: usize = data.len();
        proof {
            assert(off + n <= len);
        }
        let i = off as usize;
        let j = (off + n) as usize;
        Ok(vstd::slice::slice_subrange(data, i, j))
    } else {
        Err(UdfError::ShortRead)
    }
}

} // verus!
