use vstd::prelude::*;
use crate::bytes::{le16, le32, le64, read_u16_at, read_u32_at, read_u64_at, has_bytes};
use crate::errors::UdfError;
use crate::tag::{spec_tag, read_tag, Tag, TAG_LEN, TAGID_FE, TAGID_EFE};

verus! {

/// Size in bytes of a short allocation descriptor on disk.
pub const SHORT_AD_LEN: u64 = 8;

/// Size in bytes of a long allocation descriptor on disk.
pub const LONG_AD_LEN: u64 = 16;

/// Size in bytes of the fixed part of a File Entry on disk.
pub const FE_LEN: u64 = 176;

/// Size in bytes of the fixed part of an Extended File Entry on disk.
pub const EFE_LEN: u64 = 216;

/// A short allocation descriptor: extent length and start block.
#[derive(Clone, Copy, Debug, PartialEq, Eq, Structural)]
pub struct Short_ad {
    pub ext_len: u32,
    pub ext_pos: u32,
}

/// A recorded logical block address: block number and partition reference.
#[derive(Clone, Copy, Debug, PartialEq, Eq, Structural)]
pub struct LB_addr {
    pub lbn: u32,
    pub prn: u16,
}

/// A long allocation descriptor: extent length and recorded address.
/// The trailing six implementation-use bytes carry no meaning here and are
/// not kept.
#[derive(Clone, Copy, Debug, PartialEq, Eq, Structural)]
pub struct Long_ad {
    pub ext_len: u32,
    pub ext_pos: LB_addr,
}

/// A logical block address paired with the index of a partition map entry.
/// It is meaningful only against the partition map table it was made for.
#[derive(Clone, Copy, Debug, PartialEq, Eq, Structural)]
pub struct LBA {
    pub lbn: u32,
    pub prn: u16,
}

impl From<LB_addr> for LBA {
    /// The address recorded on disk, taken as an address into the map table.
    fn from(x: LB_addr) -> (r: LBA) {
        LBA { prn: x.prn, lbn: x.lbn }
    }
}

impl vstd::std_specs::convert::FromSpecImpl<LB_addr> for LBA {
    open spec fn obeys_from_spec() -> bool {
        true
    }

    open spec fn from_spec(x: LB_addr) -> LBA {
        LBA { prn: x.prn, lbn: x.lbn }
    }
}

/// The short allocation descriptor held at byte offset `i` of `s`.
pub open spec fn spec_short_ad(s: Seq<u8>, i: int) -> Short_ad {
    Short_ad { ext_len: le32(s, i), ext_pos: le32(s, i + 4) }
}

/// The recorded logical block address held at byte offset `i` of `s`.
pub open spec fn spec_lb_addr(s: Seq<u8>, i: int) -> LB_addr {
    LB_addr { lbn: le32(s, i), prn: le16(s, i + 4) }
}

/// The long allocation descriptor held at byte offset `i` of `s`.
pub open spec fn spec_long_ad(s: Seq<u8>, i: int) -> Long_ad {
    Long_ad { ext_len: le32(s, i), ext_pos: spec_lb_addr(s, i + 4) }
}

/// Decodes the short allocation descriptor at byte address `off`.
pub fn read_short_ad(data: &[u8], off: u64) -> (r: Result<Short_ad, UdfError>)
    ensures
        off + SHORT_AD_LEN <= data@.len() ==> r == Ok::<Short_ad, UdfError>(
            spec_short_ad(data@, off as int),
        ),
        off + SHORT_AD_LEN > data@.len() ==> r == Err::<Short_ad, UdfError>(UdfError::ShortRead),
{
    if has_bytes(data, off, SHORT_AD_LEN) {
        let len: usize = data.len();
        proof {
            assert(off + 8 <= len);
        }
        Ok(Short_ad {
            ext_len: read_u32_at(data, off).unwrap(),
            ext_pos: read_u32_at(data, off + 4).unwrap(),
        })
    } else {
        Err(UdfError::ShortRead)
    }
}

/// Decodes the long allocation descriptor at byte address `off`.
pub fn read_long_ad(data: &[u8], off: u64) -> (r: Result<Long_ad, UdfError>)
    ensures
        off + LONG_AD_LEN <= data@.len() ==> r == Ok::<Long_ad, UdfError>(
            spec_long_ad(data@, off as int),
        ),
        off + LONG_AD_LEN > data@.len() ==> r == Err::<Long_ad, UdfError>(UdfError::ShortRead),
{
    if has_bytes(data, off, LONG_AD_LEN) {
        let len: usize = data.len();
        proof {
            assert(off + 16 <= len);
        }
        Ok(Long_ad {
            ext_len: read_u32_at(data, off).unwrap(),
            ext_pos: LB_addr {
                lbn: read_u32_at(data, off + 4).unwrap(),
                prn: read_u16_at(data, off + 8).unwrap(),
            },
        })
    } else {
        Err(UdfError::ShortRead)
    }
}

/// The fixed metadata of a File Entry that this reader needs: its tag, the
/// ICB tag flags, and the lengths locating the allocation descriptor area.
#[derive(Clone, Copy, Debug, PartialEq, Eq, Structural)]
pub struct FileEntry {
    pub tag: Tag,
    pub icb_flags: u16,
    pub info_len: u64,
    pub ea_len: u32,
    pub ad_len: u32,
}

/// The same fixed metadata taken from an Extended File Entry.
#[derive(Clone, Copy, Debug, PartialEq, Eq, Structural)]
pub struct ExtendedFileEntry {
    pub tag: Tag,
    pub icb_flags: u16,
    pub info_len: u64,
    pub ea_len: u32,
    pub ad_len: u32,
}

/// The File Entry fields held at byte offset `i` of `s`.
pub open spec fn spec_file_entry(s: Seq<u8>, i: int) -> FileEntry {
    FileEntry {
        tag: spec_tag(s, i),
        icb_flags: le16(s, i + 34),
        info_len: le64(s, i + 56),
        ea_len: le32(s, i + 168),
        ad_len: le32(s, i + 172),
    }
}

/// The Extended File Entry fields held at byte offset `i` of `s`.
pub open spec fn spec_extended_file_entry(s: Seq<u8>, i: int) -> ExtendedFileEntry {
    ExtendedFileEntry {
        tag: spec_tag(s, i),
        icb_flags: le16(s, i + 34),
        info_len: le64(s, i + 56),
        ea_len: le32(s, i + 208),
        ad_len: le32(s, i + 212),
    }
}

/// Decodes the fixed part of the File Entry at byte address `off`. The tag
/// is decoded, not checked: checking is the caller's step.
pub fn read_file_entry(data: &[u8], off: u64) -> (r: Result<FileEntry, UdfError>)
    ensures
        off + FE_LEN <= data@.len() ==> r == Ok::<FileEntry, UdfError>(
            spec_file_entry(data@, off as int),
        ),
        off + FE_LEN > data@.len() ==> r == Err::<FileEntry, UdfError>(UdfError::ShortRead),
{
    if has_bytes(data, off, FE_LEN) {
        let len: usize = data.len();
        proof {
            assert(off + 176 <= len);
        }
        Ok(FileEntry {
            tag: read_tag(data, off).unwrap(),
            icb_flags: read_u16_at(data, off + 34).unwrap(),
            info_len: read_u64_at(data, off + 56).unwrap(),
            ea_len: read_u32_at(data, off + 168).unwrap(),
            ad_len: read_u32_at(data, off + 172).unwrap(),
        })
    } else {
        Err(UdfError::ShortRead)
    }
}

/// Decodes the fixed part of the Extended File Entry at byte address `off`.
pub fn read_extended_file_entry(data: &[u8], off: u64) -> (r: Result<ExtendedFileEntry, UdfError>)
    ensures
        off + EFE_LEN <= data@.len() ==> r == Ok::<ExtendedFileEntry, UdfError>(
            spec_extended_file_entry(data@, off as int),
        ),
        off + EFE_LEN > data@.len() ==> r == Err::<ExtendedFileEntry, UdfError>(
            UdfError::ShortRead,
        ),
{
    if has_bytes(data, off, EFE_LEN) {
        let len: usize = data.len();
        proof {
            assert(off + 216 <= len);
        }
        Ok(ExtendedFileEntry {
            tag: read_tag(data, off).unwrap(),
            icb_flags: read_u16_at(data, off + 34).unwrap(),
            info_len: read_u64_at(data, off + 56).unwrap(),
            ea_len: read_u32_at(data, off + 208).unwrap(),
            ad_len: read_u32_at(data, off + 212).unwrap(),
        })
    } else {
        Err(UdfError::ShortRead)
    }
}

/// An ICB record: the shape shared by File Entry and Extended File Entry,
/// once decoded. `extended` records which of the two carried it and thereby
/// the size of the fixed part preceding the extended-attribute area.
#[derive(Clone, Copy, Debug, PartialEq, Eq, Structural)]
pub struct IcbRecord {
    pub extended: bool,
    pub icb_flags: u16,
    pub info_len: u64,
    pub ea_len: u32,
    pub ad_len: u32,
}

/// Size in bytes of the fixed part of the record `extended` stands for.
pub open spec fn spec_icb_fixed_len(extended: bool) -> u64 {
    if extended {
        216
    } else {
        176
    }
}

/// The allocation-descriptor type dictated by the low three ICB-tag flag
/// bits: 0 short descriptors, 1 long, 2 extended, 3 data embedded after the
/// extended-attribute area.
pub open spec fn spec_alloc_type(icb_flags: u16) -> u16 {
    icb_flags & 7
}

impl IcbRecord {
    /// Size in bytes of this record's fixed part.
    pub fn fixed_len(&self) -> (r: u64)
        ensures
            r == spec_icb_fixed_len(self.extended),
    {
        if self.extended {
            216
        } else {
            176
        }
    }

    /// The allocation-descriptor type of this record.
    pub fn alloc_type(&self) -> (r: u16)
        ensures
            r == spec_alloc_type(self.icb_flags),
    {
        self.icb_flags & 7
    }
}

/// The ICB record at byte offset `i` of `s`: a File Entry or an Extended
/// File Entry, told apart by the tag; any other tag is a mismatch, and a
/// record cut off by the end of `s` is a short read.
pub open spec fn spec_read_icb(s: Seq<u8>, i: int) -> Result<IcbRecord, UdfError> {
    if i + TAG_LEN > s.len() {
        Err(UdfError::ShortRead)
    } else if spec_tag(s, i).tagid == TAGID_FE {
        if i + FE_LEN > s.len() {
            Err(UdfError::ShortRead)
        } else {
            let fe = spec_file_entry(s, i);
            Ok(
                IcbRecord {
                    extended: false,
                    icb_flags: fe.icb_flags,
                    info_len: fe.info_len,
                    ea_len: fe.ea_len,
                    ad_len: fe.ad_len,
                },
            )
        }
    } else if spec_tag(s, i).tagid == TAGID_EFE {
        if i + EFE_LEN > s.len() {
            Err(UdfError::ShortRead)
        } else {
            let efe = spec_extended_file_entry(s, i);
            Ok(
                IcbRecord {
                    extended: true,
                    icb_flags: efe.icb_flags,
                    info_len: efe.info_len,
                    ea_len: efe.ea_len,
                    ad_len: efe.ad_len,
                },
            )
        }
    } else {
        Err(UdfError::TagMismatch)
    }
}

/// Validates and decodes the ICB record at byte address `off`: a File Entry
/// or an Extended File Entry.
pub fn read_icb(data: &[u8], off: u64) -> (r: Result<IcbRecord, UdfError>)
    ensures
        r == spec_read_icb(data@, off as int),
{
    let t = match read_tag(data, off) {
        Ok(t) => t,
        Err(e) => {
            return Err(e);
        },
    };
    if t.tagid == TAGID_FE {
        match read_file_entry(data, off) {
            Ok(fe) => Ok(
                IcbRecord {
                    extended: false,
                    icb_flags: fe.icb_flags,
                    info_len: fe.info_len,
                    ea_len: fe.ea_len,
                    ad_len: fe.ad_len,
                },
            ),
            Err(e) => Err(e),
        }
    } else if t.tagid == TAGID_EFE {
        match read_extended_file_entry(data, off) {
            Ok(efe) => Ok(
                IcbRecord {
                    extended: true,
                    icb_flags: efe.icb_flags,
                    info_len: efe.info_len,
                    ea_len: efe.ea_len,
                    ad_len: efe.ad_len,
                },
            ),
            Err(e) => Err(e),
        }
    } else {
        Err(UdfError::TagMismatch)
    }
}

} // verus!
