use vstd::prelude::*;
use crate::bytes::has_bytes;
use crate::errors::UdfError;
use crate::partmap::{
    build_maps, find_map_from, lemma_find_map_from, load_meta_map, MetadataPM, PartMap,
    META_PM_LEN, TYPE1_PM_LEN,
};
use crate::records::LBA;
use crate::vds::{scan_lvd_from, spec_lvd, LVD_LEN};

verus! {

/// The state of one volume-parse session: the partition map table, the
/// sector size and volume-descriptor-sequence extent the anchor declared,
/// and the location of the File Set Descriptor once the Logical Volume
/// Descriptor has named it.
pub struct UDFstruct {
    pub maps: Vec<PartMap>,
    pub sector_size: u32,
    pub anchor_pos: u32,
    pub anchor_len: u32,
    pub root_fe: LBA,
}

impl UDFstruct {
    /// Well-formedness: every metadata entry's base indexes an earlier,
    /// direct entry, so address translation never recurses more than once.
    pub open spec fn wf(&self) -> bool {
        crate::partmap::wf_maps(self.maps@)
    }
}

/// The index of the first direct entry of the table declaring partition
/// number `part_num`.
pub fn find_map(u: &UDFstruct, part_num: u16) -> (r: Option<usize>)
    ensures
        r is Some <==> find_map_from(u.maps@, part_num, 0) is Some,
        r matches Some(i) ==> find_map_from(u.maps@, part_num, 0) == Some(i as int),
{
    let mut i: usize = 0;
    while i < u.maps.len()
        invariant
            0 <= i <= u.maps@.len(),
            find_map_from(u.maps@, part_num, 0) == find_map_from(u.maps@, part_num, i as int),
        decreases u.maps@.len() - i,
    {
        match u.maps[i] {
            PartMap::Type1(t) => {
                if t.part_num == part_num {
                    return Some(i);
                }
            },
            PartMap::Metadata(_) => {},
        }
        i = i + 1;
    }
    None
}

/// Decodes the partition map table held in `table` and appends its `n_pm`
/// entries to `u.maps` in table order; `data` is the whole volume image,
/// consulted for the Partition Descriptors that direct entries resolve
/// against.
pub fn load_part_maps(table: &[u8], n_pm: u32, u: &mut UDFstruct, data: &[u8]) -> (r: Result<
    (),
    UdfError,
>)
    ensures
        final(u).sector_size == old(u).sector_size,
        final(u).anchor_pos == old(u).anchor_pos,
        final(u).anchor_len == old(u).anchor_len,
        final(u).root_fe == old(u).root_fe,
        ({
            let built = build_maps(
                table@,
                0,
                n_pm as int,
                old(u).maps@,
                data@,
                old(u).anchor_pos,
                old(u).anchor_len,
                old(u).sector_size,
            );
            &&& (built matches Ok(maps) ==> r is Ok && final(u).maps@ == maps)
            &&& (built matches Err(e) ==> r == Err::<(), UdfError>(e))
        }),
{
    let mut k: u32 = 0;
    let mut pos: u64 = 0;
    while k < n_pm
        invariant
            0 <= k <= n_pm,
            0 <= pos <= table@.len(),
            u.sector_size == old(u).sector_size,
            u.anchor_pos == old(u).anchor_pos,
            u.anchor_len == old(u).anchor_len,
            u.root_fe == old(u).root_fe,
            build_maps(
                table@,
                0,
                n_pm as int,
                old(u).maps@,
                data@,
                old(u).anchor_pos,
                old(u).anchor_len,
                old(u).sector_size,
            ) == build_maps(
                table@,
                pos as int,
                n_pm - k,
                u.maps@,
                data@,
                old(u).anchor_pos,
                old(u).anchor_len,
                old(u).sector_size,
            ),
        decreases n_pm - k,
    {
        if !has_bytes(table, pos, 2) {
            return Err(UdfError::ShortRead);
        }
        let tlen: usize = table.len();
        proof {
            assert(pos + 2 <= tlen);
        }
        let pm_type = crate::bytes::read_u8_at(table, pos).unwrap();
        let pm_len = crate::bytes::read_u8_at(table, pos + 1).unwrap();
        if pm_type == 1 {
            if pm_len != TYPE1_PM_LEN {
                return Err(UdfError::UnsupportedFormat);
            }
            if !has_bytes(table, pos, 6) {
                return Err(UdfError::ShortRead);
            }
            proof {
                assert(pos + 6 <= tlen);
            }
            let part_num = crate::bytes::read_u16_at(table, pos + 4).unwrap();
            let t1 = match crate::vds::load_type1_map(
                data,
                u.anchor_pos,
                u.anchor_len,
                u.sector_size,
                part_num,
            ) {
                Ok(t1) => t1,
                Err(e) => {
                    return Err(e);
                },
            };
            u.maps.push(PartMap::Type1(t1));
            pos = pos + 6;
            k = k + 1;
        } else if pm_type == 2 {
            if pm_len != META_PM_LEN {
                return Err(UdfError::UnsupportedFormat);
            }
            if !has_bytes(table, pos, 64) {
                return Err(UdfError::ShortRead);
            }
            let len: usize = table.len();
            proof {
                assert(pos + 64 <= len);
            }
            let pm = MetadataPM {
                part_num: crate::bytes::read_u16_at(table, pos + 38).unwrap(),
                m_file_pos: crate::bytes::read_u32_at(table, pos + 40).unwrap(),
                m_mirror_pos: crate::bytes::read_u32_at(table, pos + 44).unwrap(),
                m_bitmap_pos: crate::bytes::read_u32_at(table, pos + 48).unwrap(),
                alloc_unit_size: crate::bytes::read_u32_at(table, pos + 52).unwrap(),
                align_unit_size: crate::bytes::read_u16_at(table, pos + 56).unwrap(),
            };
            proof {
                assert(pm == crate::partmap::spec_metadata_pm(table@, pos as int));
            }
            let idx = match find_map(u, pm.part_num) {
                Some(i) => i,
                None => {
                    return Err(UdfError::UnresolvedReference);
                },
            };
            proof {
                lemma_find_map_from(u.maps@, pm.part_num, 0);
            }
            if idx > 0xFFFF {
                return Err(UdfError::UnresolvedReference);
            }
            let m = load_meta_map(pm, idx).unwrap();
            u.maps.push(PartMap::Metadata(m));
            pos = pos + 64;
            k = k + 1;
        } else {
            return Err(UdfError::UnsupportedFormat);
        }
    }
    Ok(())
}

/// What walking the volume descriptor sequence yields: the partition map
/// table (appended to `maps0`) and the recorded location of the File Set
/// Descriptor, taken from the first Logical Volume Descriptor of the
/// sequence. A sequence without one, a map table extending past the image,
/// or a map entry that does not resolve, fails as its step says.
pub open spec fn spec_load_vds(
    s: Seq<u8>,
    sector: u32,
    vds_pos: u32,
    vds_len: u32,
    maps0: Seq<PartMap>,
) -> Result<(Seq<PartMap>, LBA), UdfError> {
    match scan_lvd_from(s, vds_pos, vds_len, sector, 0) {
        Err(e) => Err(e),
        Ok(off) => {
            let lvd = spec_lvd(s, off);
            if off + LVD_LEN + lvd.maptable_len > s.len() {
                Err(UdfError::ShortRead)
            } else {
                let table = s.subrange(off + LVD_LEN, off + LVD_LEN + lvd.maptable_len);
                let root_fe = LBA { lbn: lvd.lv_use.ext_pos.lbn, prn: lvd.lv_use.ext_pos.prn };
                match build_maps(
                    table,
                    0,
                    lvd.n_partition_maps as int,
                    maps0,
                    s,
                    vds_pos,
                    vds_len,
                    sector,
                ) {
                    Ok(maps) => Ok((maps, root_fe)),
                    Err(e) => Err(e),
                }
            }
        },
    }
}

/// Walks the volume descriptor sequence named by `u`'s anchor fields:
/// records where the File Set Descriptor lives and builds the partition map
/// table.
pub fn load_vds(data: &[u8], u: &mut UDFstruct) -> (r: Result<(), UdfError>)
    ensures
        final(u).sector_size == old(u).sector_size,
        final(u).anchor_pos == old(u).anchor_pos,
        final(u).anchor_len == old(u).anchor_len,
        ({
            let loaded = spec_load_vds(
                data@,
                old(u).sector_size,
                old(u).anchor_pos,
                old(u).anchor_len,
                old(u).maps@,
            );
            &&& (loaded matches Ok(p) ==> r is Ok && final(u).maps@ == p.0 && final(u).root_fe
                == p.1)
            &&& (loaded matches Err(e) ==> r == Err::<(), UdfError>(e))
        }),
        crate::partmap::wf_maps(old(u).maps@) && r is Ok ==> final(u).wf(),
{
    let (off, lvd) = match crate::vds::load_logical_vol(
        data,
        u.anchor_pos,
        u.anchor_len,
        u.sector_size,
    ) {
        Ok(p) => p,
        Err(e) => {
            return Err(e);
        },
    };
    let dlen: usize = data.len();
    proof {
        crate::vds::lemma_scan_lvd_bounds(data@, u.anchor_pos, u.anchor_len, u.sector_size, 0);
        assert(off + LVD_LEN <= dlen);
    }
    let table = match crate::bytes::sub_slice(data, off + LVD_LEN, lvd.maptable_len as u64) {
        Ok(t) => t,
        Err(e) => {
            return Err(e);
        },
    };
    u.root_fe = LBA::from(lvd.lv_use.ext_pos);
    let r = load_part_maps(table, lvd.n_partition_maps, u, data);
    proof {
        if crate::partmap::wf_maps(old(u).maps@) {
            crate::partmap::lemma_build_maps_wf(
                table@,
                0,
                lvd.n_partition_maps as int,
                old(u).maps@,
                data@,
                old(u).anchor_pos,
                old(u).anchor_len,
                old(u).sector_size,
            );
        }
    }
    r
}

} // verus!
