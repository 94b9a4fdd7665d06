use vstd::prelude::*;
use crate::errors::UdfError;
use crate::partmap::{MetadataPart, PartMap, Type1Part};
use crate::records::{
    read_icb, read_short_ad, spec_icb_fixed_len, spec_read_icb, spec_short_ad, IcbRecord, LBA,
    SHORT_AD_LEN,
};
use crate::volume::UDFstruct;

verus! {

/// Absolute byte address of block `start + block` under the given sector
/// size: direct translation against a direct partition entry.
pub open spec fn spec_direct_off(start: u32, block: int, sector: u32) -> int {
    (start + block) * sector
}

/// What translating block `block` of a metadata-indirect partition yields:
/// the metadata file's own ICB is read on the base partition, its
/// extended-attribute area skipped, and its first (short, contiguous)
/// allocation descriptor names the extent start; the block then translates
/// directly against the base partition after that start is added. An
/// address beyond any byte source is a short read.
pub open spec fn spec_get_metadata(
    base: Type1Part,
    m: MetadataPart,
    block: u32,
    sector: u32,
    s: Seq<u8>,
) -> Result<u64, UdfError> {
    let icb_off = spec_direct_off(base.part_start, m.meta_pos.lbn as int, sector);
    match spec_read_icb(s, icb_off) {
        Err(e) => Err(e),
        Ok(icb) => {
            let ad_off = icb_off + spec_icb_fixed_len(icb.extended) + icb.ea_len;
            if ad_off + SHORT_AD_LEN > s.len() {
                Err(UdfError::ShortRead)
            } else {
                let ad = spec_short_ad(s, ad_off);
                let off = spec_direct_off(base.part_start, ad.ext_pos + block, sector);
                if off > u64::MAX {
                    Err(UdfError::ShortRead)
                } else {
                    Ok(off as u64)
                }
            }
        },
    }
}

/// What translating `(prn, lbn)` through the partition map table yields.
/// A reference outside the table is unresolved; a direct entry translates
/// in place; a metadata entry translates through its base partition, which
/// must be a direct entry of the table — a base that is out of bounds or
/// itself metadata-indirect is rejected as unresolved, never followed.
pub open spec fn spec_to_phy(
    maps: Seq<PartMap>,
    sector: u32,
    s: Seq<u8>,
    prn: int,
    lbn: u32,
) -> Result<u64, UdfError> {
    if prn < 0 || prn >= maps.len() {
        Err(UdfError::UnresolvedReference)
    } else {
        match maps[prn] {
            PartMap::Type1(t) => {
                let off = spec_direct_off(t.part_start, lbn as int, sector);
                if off > u64::MAX {
                    Err(UdfError::ShortRead)
                } else {
                    Ok(off as u64)
                }
            },
            PartMap::Metadata(m) => {
                if m.base_part >= maps.len() {
                    Err(UdfError::UnresolvedReference)
                } else {
                    match maps[m.base_part as int] {
                        PartMap::Type1(base) => spec_get_metadata(base, m, lbn, sector, s),
                        PartMap::Metadata(_) => Err(UdfError::UnresolvedReference),
                    }
                }
            },
        }
    }
}

/// Byte address of block `extra + block` of a partition starting at block
/// `start`, or `ShortRead` where the address exceeds every byte source.
fn direct_off(start: u32, extra: u32, block: u32, sector: u32) -> (r: Result<u64, UdfError>)
    ensures
        spec_direct_off(start, extra + block, sector) <= u64::MAX ==> r == Ok::<u64, UdfError>(
            spec_direct_off(start, extra + block, sector) as u64,
        ),
        spec_direct_off(start, extra + block, sector) > u64::MAX ==> r == Err::<u64, UdfError>(
            UdfError::ShortRead,
        ),
{
    let base: u64 = start as u64 + extra as u64 + block as u64;
    match base.checked_mul(sector as u64) {
        Some(off) => Ok(off),
        None => Err(UdfError::ShortRead),
    }
}

/// Translates block `offset` of the metadata-indirect partition `m` into an
/// absolute byte address, through its base partition's entry of `u`'s table.
pub fn get_metadata(m: &MetadataPart, offset: u32, u: &UDFstruct, data: &[u8]) -> (r: Result<
    u64,
    UdfError,
>)
    requires
        m.base_part < u.maps@.len(),
        u.maps@[m.base_part as int] is Type1,
    ensures
        ({
            let base = u.maps@[m.base_part as int]->Type1_0;
            r == spec_get_metadata(base, *m, offset, u.sector_size, data@)
        }),
{
    let base = match u.maps[m.base_part] {
        PartMap::Type1(t) => t,
        PartMap::Metadata(_) => {
            return Err(UdfError::UnresolvedReference);
        },
    };
    let dlen: usize = data.len();
    let icb_off = match direct_off(base.part_start, 0, m.meta_pos.lbn, u.sector_size) {
        Ok(o) => o,
        Err(e) => {
            proof {
                assert(spec_direct_off(base.part_start, m.meta_pos.lbn as int, u.sector_size) + 16
                    > data@.len());
            }
            return Err(UdfError::ShortRead);
        },
    };
    let icb = match read_icb(data, icb_off) {
        Ok(icb) => icb,
        Err(e) => {
            return Err(e);
        },
    };
    let ad_off = match icb_off.checked_add(icb.fixed_len()) {
        Some(x) => match x.checked_add(icb.ea_len as u64) {
            Some(y) => y,
            None => {
                return Err(UdfError::ShortRead);
            },
        },
        None => {
            return Err(UdfError::ShortRead);
        },
    };
    let ad = match read_short_ad(data, ad_off) {
        Ok(ad) => ad,
        Err(e) => {
            return Err(e);
        },
    };
    match direct_off(base.part_start, ad.ext_pos, offset, u.sector_size) {
        Ok(o) => Ok(o),
        Err(e) => Err(e),
    }
}

impl LBA {
    /// Translates this logical block address into an absolute byte address
    /// through the partition map table of `u`.
    pub fn to_phy(&self, u: &UDFstruct, data: &[u8]) -> (r: Result<u64, UdfError>)
        ensures
            r == spec_to_phy(u.maps@, u.sector_size, data@, self.prn as int, self.lbn),
    {
        if (self.prn as usize) < u.maps.len() {
            match u.maps[self.prn as usize] {
                PartMap::Type1(t) => direct_off(t.part_start, 0, self.lbn, u.sector_size),
                PartMap::Metadata(m) => {
                    if m.base_part < u.maps.len() {
                        match u.maps[m.base_part] {
                            PartMap::Type1(_) => get_metadata(&m, self.lbn, u, data),
                            PartMap::Metadata(_) => Err(UdfError::UnresolvedReference),
                        }
                    } else {
                        Err(UdfError::UnresolvedReference)
                    }
                },
            }
        } else {
            Err(UdfError::UnresolvedReference)
        }
    }
}

/// Direct translation law: for a direct entry and any block number, the
/// translated address is exactly `(startBlock + block) * sectorSize`,
/// whenever that product fits a 64-bit address.
pub proof fn lemma_resolve_direct(
    maps: Seq<PartMap>,
    sector: u32,
    s: Seq<u8>,
    prn: int,
    b: u32,
    t: Type1Part,
)
    requires
        0 <= prn < maps.len(),
        maps[prn] == PartMap::Type1(t),
        (t.part_start + b) * sector <= u64::MAX,
    ensures
        spec_to_phy(maps, sector, s, prn, b) == Ok::<u64, UdfError>(
            ((t.part_start + b) * sector) as u64,
        ),
{
}

/// Metadata translation law: translating a block through a metadata entry
/// equals translating it through the base partition's direct entry after
/// the metadata file's extent start block is added.
pub proof fn lemma_resolve_metadata(
    maps: Seq<PartMap>,
    sector: u32,
    s: Seq<u8>,
    prn: int,
    b: u32,
    m: MetadataPart,
    base: Type1Part,
    icb: IcbRecord,
)
    requires
        0 <= prn < maps.len(),
        maps[prn] == PartMap::Metadata(m),
        m.base_part < maps.len(),
        maps[m.base_part as int] == PartMap::Type1(base),
        spec_read_icb(s, spec_direct_off(base.part_start, m.meta_pos.lbn as int, sector)) == Ok::<
            IcbRecord,
            UdfError,
        >(icb),
        ({
            let icb_off = spec_direct_off(base.part_start, m.meta_pos.lbn as int, sector);
            let ad_off = icb_off + spec_icb_fixed_len(icb.extended) + icb.ea_len;
            &&& ad_off + SHORT_AD_LEN <= s.len()
            &&& spec_short_ad(s, ad_off).ext_pos + b <= u32::MAX
        }),
    ensures
        ({
            let icb_off = spec_direct_off(base.part_start, m.meta_pos.lbn as int, sector);
            let ad_off = icb_off + spec_icb_fixed_len(icb.extended) + icb.ea_len;
            let ext_start = spec_short_ad(s, ad_off).ext_pos;
            spec_to_phy(maps, sector, s, prn, b) == spec_to_phy(
                maps,
                sector,
                s,
                m.base_part as int,
                (ext_start + b) as u32,
            )
        }),
{
}

/// No-cycle law: a metadata entry whose base reference is out of bounds or
/// names another metadata entry is rejected as unresolved; translation
/// never chains two metadata indirections.
pub proof fn lemma_metadata_no_cycle(
    maps: Seq<PartMap>,
    sector: u32,
    s: Seq<u8>,
    prn: int,
    b: u32,
    m: MetadataPart,
)
    requires
        0 <= prn < maps.len(),
        maps[prn] == PartMap::Metadata(m),
        m.base_part >= maps.len() || !(maps[m.base_part as int] is Type1),
    ensures
        spec_to_phy(maps, sector, s, prn, b) == Err::<u64, UdfError>(UdfError::UnresolvedReference),
{
}

} // verus!
