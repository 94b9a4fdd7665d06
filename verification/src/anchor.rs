use vstd::prelude::*;
use crate::bytes::{le32, has_bytes};
use crate::errors::UdfError;
use crate::tag::{spec_tag, read_tag, TAGID_AVDP};

verus! {

/// Size in bytes of an Anchor Volume Descriptor Pointer on disk.
pub const AVDP_LEN: u64 = 512;

/// Sector number at which the anchor pointer is probed.
pub const ANCHOR_SECTOR: u64 = 256;

/// The outcome of probing one candidate sector size: the anchor record is
/// sought at byte address `size * 256`. A validating tag yields the sector
/// size, the start block of the volume descriptor sequence and its length
/// in sectors (extent byte length divided by the sector size).
pub open spec fn spec_probe_anchor(s: Seq<u8>, size: u32) -> Result<(u32, u32, u32), UdfError> {
    let off = size * 256;
    if off + AVDP_LEN > s.len() {
        Err(UdfError::ShortRead)
    } else if spec_tag(s, off).tagid != TAGID_AVDP {
        Err(UdfError::TagMismatch)
    } else {
        Ok((size, le32(s, off + 20), (le32(s, off + 16) / size as u32) as u32))
    }
}

/// The anchor found by probing the candidate sector sizes in the fixed
/// priority order 2048, 512, 4096: the first size whose probe validates
/// wins, whatever the later probes would say. When none validates, a probe
/// that ran short of bytes makes the whole search a short read; otherwise
/// no candidate matched the anchor tag.
pub open spec fn spec_find_anchor(s: Seq<u8>) -> Result<(u32, u32, u32), UdfError> {
    if spec_probe_anchor(s, 2048) is Ok {
        spec_probe_anchor(s, 2048)
    } else if spec_probe_anchor(s, 512) is Ok {
        spec_probe_anchor(s, 512)
    } else if spec_probe_anchor(s, 4096) is Ok {
        spec_probe_anchor(s, 4096)
    } else if spec_probe_anchor(s, 2048) == Err::<(u32, u32, u32), UdfError>(UdfError::ShortRead)
        || spec_probe_anchor(s, 512) == Err::<(u32, u32, u32), UdfError>(UdfError::ShortRead)
        || spec_probe_anchor(s, 4096) == Err::<(u32, u32, u32), UdfError>(UdfError::ShortRead) {
        Err(UdfError::ShortRead)
    } else {
        Err(UdfError::TagMismatch)
    }
}

/// Probes one candidate sector size for an anchor pointer.
fn probe_anchor(data: &[u8], size: u32) -> (r: Result<(u32, u32, u32), UdfError>)
    requires
        size >= 1,
    ensures
        r == spec_probe_anchor(data@, size),
{
    let off: u64 = size as u64 * ANCHOR_SECTOR;
    if !has_bytes(data, off, AVDP_LEN) {
        return Err(UdfError::ShortRead);
    }
    let len: usize = data.len();
    proof {
        assert(off + 512 <= len);
    }
    let t = read_tag(data, off).unwrap();
    if t.tagid != TAGID_AVDP {
        return Err(UdfError::TagMismatch);
    }
    let ext_len = crate::bytes::read_u32_at(data, off + 16).unwrap();
    let ext_pos = crate::bytes::read_u32_at(data, off + 20).unwrap();
    Ok((size, ext_pos, ext_len / size))
}

/// Locates the Anchor Volume Descriptor Pointer by probing the candidate
/// sector sizes 2048, 512, 4096 in that fixed order, and returns the sector
/// size together with the start block of the volume descriptor sequence and
/// its length in sectors.
pub fn find_anchor(data: &[u8]) -> (r: Result<(u32, u32, u32), UdfError>)
    ensures
        r == spec_find_anchor(data@),
{
    let first = probe_anchor(data, 2048);
    if first.is_ok() {
        return first;
    }
    let second = probe_anchor(data, 512);
    if second.is_ok() {
        return second;
    }
    let third = probe_anchor(data, 4096);
    if third.is_ok() {
        return third;
    }
    if matches!(first, Err(UdfError::ShortRead)) || matches!(second, Err(UdfError::ShortRead))
        || matches!(third, Err(UdfError::ShortRead)) {
        Err(UdfError::ShortRead)
    } else {
        Err(UdfError::TagMismatch)
    }
}

} // verus!
