use vstd::prelude::*;
use crate::bytes::{le16, le32};
use crate::errors::UdfError;
use crate::partmap::Type1Part;
use crate::records::Long_ad;
use crate::tag::{spec_tag, read_tag, TAG_LEN, TAGID_PD, TAGID_LVD};

verus! {

/// Size in bytes of a Partition Descriptor on disk.
pub const PD_LEN: u64 = 512;

/// Size in bytes of the fixed part of a Logical Volume Descriptor on disk;
/// the partition map table follows it at once.
pub const LVD_LEN: u64 = 440;

/// Byte address of the sector `i` sectors past block `pos`.
pub open spec fn sector_off(pos: u32, i: int, sector: u32) -> int {
    (pos + i) * sector
}

/// The direct-partition fields held in the Partition Descriptor at byte
/// offset `off` of `s`.
pub open spec fn spec_type1_part(s: Seq<u8>, off: int) -> Type1Part {
    Type1Part {
        part_start: le32(s, off + 188),
        part_len: le32(s, off + 192),
        part_num: le16(s, off + 22),
    }
}

/// The result of scanning the volume descriptor sequence, sector by sector
/// from the `i`th on, for the Partition Descriptor numbered `part_num`.
/// Sectors holding other record types are skipped; a sector that cannot be
/// read whole is a short read; a sequence without the wanted descriptor
/// leaves the partition number unresolved.
pub open spec fn scan_type1_from(
    s: Seq<u8>,
    vds_pos: u32,
    vds_len: u32,
    sector: u32,
    part_num: u16,
    i: int,
) -> Result<Type1Part, UdfError>
    decreases vds_len - i,
{
    if i < 0 || i >= vds_len {
        Err(UdfError::UnresolvedReference)
    } else {
        let off = sector_off(vds_pos, i, sector);
        if off + TAG_LEN > s.len() {
            Err(UdfError::ShortRead)
        } else if spec_tag(s, off).tagid == TAGID_PD {
            if off + PD_LEN > s.len() {
                Err(UdfError::ShortRead)
            } else {
                let pd = spec_type1_part(s, off);
                if pd.part_num == part_num {
                    Ok(pd)
                } else {
                    scan_type1_from(s, vds_pos, vds_len, sector, part_num, i + 1)
                }
            }
        } else {
            scan_type1_from(s, vds_pos, vds_len, sector, part_num, i + 1)
        }
    }
}

/// The Logical Volume Descriptor fields this reader needs.
#[derive(Clone, Copy, Debug, PartialEq, Eq, Structural)]
pub struct Lvd {
    pub lb_size: u32,
    pub lv_use: Long_ad,
    pub maptable_len: u32,
    pub n_partition_maps: u32,
}

/// The Logical Volume Descriptor fields held at byte offset `off` of `s`.
pub open spec fn spec_lvd(s: Seq<u8>, off: int) -> Lvd {
    Lvd {
        lb_size: le32(s, off + 212),
        lv_use: crate::records::spec_long_ad(s, off + 248),
        maptable_len: le32(s, off + 264),
        n_partition_maps: le32(s, off + 268),
    }
}

/// The result of scanning the volume descriptor sequence, sector by sector
/// from the `i`th on, for the Logical Volume Descriptor: the byte address of
/// the first one found. A sequence without one is fatal for the parse and
/// reported as the tag mismatch it ends in.
pub open spec fn scan_lvd_from(
    s: Seq<u8>,
    vds_pos: u32,
    vds_len: u32,
    sector: u32,
    i: int,
) -> Result<int, UdfError>
    decreases vds_len - i,
{
    if i < 0 || i >= vds_len {
        Err(UdfError::TagMismatch)
    } else {
        let off = sector_off(vds_pos, i, sector);
        if off + TAG_LEN > s.len() {
            Err(UdfError::ShortRead)
        } else if spec_tag(s, off).tagid == TAGID_LVD {
            if off + LVD_LEN > s.len() {
                Err(UdfError::ShortRead)
            } else {
                Ok(off)
            }
        } else {
            scan_lvd_from(s, vds_pos, vds_len, sector, i + 1)
        }
    }
}

/// A found Logical Volume Descriptor lies whole inside the image.
pub proof fn lemma_scan_lvd_bounds(s: Seq<u8>, vds_pos: u32, vds_len: u32, sector: u32, i: int)
    ensures
        scan_lvd_from(s, vds_pos, vds_len, sector, i) matches Ok(off) ==> 0 <= off && off + LVD_LEN
            <= s.len(),
    decreases vds_len - i,
{
    if 0 <= i < vds_len {
        lemma_scan_lvd_bounds(s, vds_pos, vds_len, sector, i + 1);
    }
}

/// Byte address of sector `pos + i`, or `ShortRead` where the address
/// cannot lie inside any byte source.
fn checked_sector_off(data: &[u8], pos: u32, i: u32, sector: u32) -> (r: Result<u64, UdfError>)
    ensures
        sector_off(pos, i as int, sector) <= u64::MAX ==> r == Ok::<u64, UdfError>(
            sector_off(pos, i as int, sector) as u64,
        ),
        sector_off(pos, i as int, sector) > u64::MAX ==> r == Err::<u64, UdfError>(
            UdfError::ShortRead,
        ),
{
    let base: u64 = pos as u64 + i as u64;
    match base.checked_mul(sector as u64) {
        Some(off) => Ok(off),
        None => Err(UdfError::ShortRead),
    }
}

/// Scans the volume descriptor sequence for the Partition Descriptor that
/// declares partition `part_num`.
pub fn load_type1_map(
    data: &[u8],
    vds_pos: u32,
    vds_len: u32,
    sector: u32,
    part_num: u16,
) -> (r: Result<Type1Part, UdfError>)
    ensures
        r == scan_type1_from(data@, vds_pos, vds_len, sector, part_num, 0),
{
    let mut i: u32 = 0;
    while i < vds_len
        invariant
            0 <= i <= vds_len,
            scan_type1_from(data@, vds_pos, vds_len, sector, part_num, 0) == scan_type1_from(
                data@,
                vds_pos,
                vds_len,
                sector,
                part_num,
                i as int,
            ),
        decreases vds_len - i,
    {
        let dlen: usize = data.len();
        let off = match checked_sector_off(data, vds_pos, i, sector) {
            Ok(o) => o,
            Err(e) => {
                proof {
                    assert(dlen as u64 <= u64::MAX);
                    assert(sector_off(vds_pos, i as int, sector) + TAG_LEN > data@.len());
                }
                return Err(e);
            },
        };
        let t = match read_tag(data, off) {
            Ok(t) => t,
            Err(e) => {
                return Err(e);
            },
        };
        if t.tagid == TAGID_PD {
            if !crate::bytes::has_bytes(data, off, PD_LEN) {
                return Err(UdfError::ShortRead);
            }
            let len: usize = data.len();
            proof {
                assert(off + 512 <= len);
            }
            let pd = Type1Part {
                part_start: crate::bytes::read_u32_at(data, off + 188).unwrap(),
                part_len: crate::bytes::read_u32_at(data, off + 192).unwrap(),
                part_num: crate::bytes::read_u16_at(data, off + 22).unwrap(),
            };
            proof {
                assert(pd == spec_type1_part(data@, off as int));
            }
            if pd.part_num == part_num {
                return Ok(pd);
            }
        }
        i = i + 1;
    }
    Err(UdfError::UnresolvedReference)
}

/// Scans the volume descriptor sequence for the Logical Volume Descriptor
/// and decodes its fields; the returned address locates the descriptor, so
/// that the partition map table following it can be read.
pub fn load_logical_vol(data: &[u8], vds_pos: u32, vds_len: u32, sector: u32) -> (r: Result<
    (u64, Lvd),
    UdfError,
>)
    ensures
        scan_lvd_from(data@, vds_pos, vds_len, sector, 0) matches Ok(off) ==> (r matches Ok(p)
            && p.0 == off && p.1 == spec_lvd(data@, off)),
        scan_lvd_from(data@, vds_pos, vds_len, sector, 0) matches Err(e) ==> r == Err::<
            (u64, Lvd),
            UdfError,
        >(e),
{
    let mut i: u32 = 0;
    while i < vds_len
        invariant
            0 <= i <= vds_len,
            scan_lvd_from(data@, vds_pos, vds_len, sector, 0) == scan_lvd_from(
                data@,
                vds_pos,
                vds_len,
                sector,
                i as int,
            ),
        decreases vds_len - i,
    {
        let dlen: usize = data.len();
        let off = match checked_sector_off(data, vds_pos, i, sector) {
            Ok(o) => o,
            Err(e) => {
                proof {
                    assert(dlen as u64 <= u64::MAX);
                    assert(sector_off(vds_pos, i as int, sector) + TAG_LEN > data@.len());
                }
                return Err(e);
            },
        };
        let t = match read_tag(data, off) {
            Ok(t) => t,
            Err(e) => {
                return Err(e);
            },
        };
        if t.tagid == TAGID_LVD {
            if !crate::bytes::has_bytes(data, off, LVD_LEN) {
                return Err(UdfError::ShortRead);
            }
            let len: usize = data.len();
            proof {
                assert(off + 440 <= len);
            }
            let lvd = Lvd {
                lb_size: crate::bytes::read_u32_at(data, off + 212).unwrap(),
                lv_use: crate::records::read_long_ad(data, off + 248).unwrap(),
                maptable_len: crate::bytes::read_u32_at(data, off + 264).unwrap(),
                n_partition_maps: crate::bytes::read_u32_at(data, off + 268).unwrap(),
            };
            proof {
                assert(lvd == spec_lvd(data@, off as int));
            }
            return Ok((off, lvd));
        }
        i = i + 1;
    }
    Err(UdfError::TagMismatch)
}

} // verus!
