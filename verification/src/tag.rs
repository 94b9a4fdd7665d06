use vstd::prelude::*;
use crate::bytes::{le16, le32, read_u16_at, read_u32_at, read_u8_at, has_bytes};
use crate::errors::UdfError;

verus! {

/// Record type identifier of an Anchor Volume Descriptor Pointer.
pub const TAGID_AVDP: u16 = 2;

/// Record type identifier of a Partition Descriptor.
pub const TAGID_PD: u16 = 5;

/// Record type identifier of a Logical Volume Descriptor.
pub const TAGID_LVD: u16 = 6;

/// Record type identifier of a File Set Descriptor.
pub const TAGID_FSD: u16 = 256;

/// Record type identifier of a File Identifier Descriptor.
pub const TAGID_FID: u16 = 257;

/// Record type identifier of a File Entry.
pub const TAGID_FE: u16 = 261;

/// Record type identifier of an Extended File Entry.
pub const TAGID_EFE: u16 = 266;

/// Size in bytes of a descriptor tag on disk.
pub const TAG_LEN: u64 = 16;

/// The descriptor tag: the common 16-byte header of every descriptor record.
#[derive(Clone, Copy, Debug, PartialEq, Eq, Structural)]
pub struct Tag {
    pub tagid: u16,
    pub dep_ver: u16,
    pub tag_checksum: u8,
    pub tagsn: u16,
    pub depcrc: u16,
    pub depcrc_len: u16,
    pub tag_loc: u32,
}

/// The descriptor tag held at byte offset `i` of `s`.
pub open spec fn spec_tag(s: Seq<u8>, i: int) -> Tag {
    Tag {
        tagid: le16(s, i),
        dep_ver: le16(s, i + 2),
        tag_checksum: s[i + 4],
        tagsn: le16(s, i + 6),
        depcrc: le16(s, i + 8),
        depcrc_len: le16(s, i + 10),
        tag_loc: le32(s, i + 12),
    }
}

/// Decodes the descriptor tag at byte address `off`, field by field.
pub fn read_tag(data: &[u8], off: u64) -> (r: Result<Tag, UdfError>)
    ensures
        off + TAG_LEN <= data@.len() ==> r == Ok::<Tag, UdfError>(spec_tag(data@, off as int)),
        off + TAG_LEN > data@.len() ==> r == Err::<Tag, UdfError>(UdfError::ShortRead),
{
    if has_bytes(data, off, TAG_LEN) {
        let len: usize = data.len();
        proof {
            assert(off + 16 <= len);
        }
        Ok(Tag {
            tagid: read_u16_at(data, off).unwrap(),
            dep_ver: read_u16_at(data, off + 2).unwrap(),
            tag_checksum: read_u8_at(data, off + 4).unwrap(),
            tagsn: read_u16_at(data, off + 6).unwrap(),
            depcrc: read_u16_at(data, off + 8).unwrap(),
            depcrc_len: read_u16_at(data, off + 10).unwrap(),
            tag_loc: read_u32_at(data, off + 12).unwrap(),
        })
    } else {
        Err(UdfError::ShortRead)
    }
}

/// Reads the descriptor tag at `off` and checks that it carries the record
/// type `expected`. With explicit offsets the failed check consumes nothing:
/// a caller scanning a sequence goes on to the next candidate offset.
pub fn validate_tag(data: &[u8], off: u64, expected: u16) -> (r: Result<Tag, UdfError>)
    ensures
        off + TAG_LEN > data@.len() ==> r == Err::<Tag, UdfError>(UdfError::ShortRead),
        off + TAG_LEN <= data@.len() && spec_tag(data@, off as int).tagid != expected ==> r
            == Err::<Tag, UdfError>(UdfError::TagMismatch),
        off + TAG_LEN <= data@.len() && spec_tag(data@, off as int).tagid == expected ==> r
            == Ok::<Tag, UdfError>(spec_tag(data@, off as int)),
{
    match read_tag(data, off) {
        Err(e) => Err(e),
        Ok(t) => {
            if t.tagid == expected {
                Ok(t)
            } else {
                Err(UdfError::TagMismatch)
            }
        },
    }
}

} // verus!
