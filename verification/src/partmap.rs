use vstd::prelude::*;
use crate::bytes::{le16, le32};
use crate::errors::UdfError;
use crate::records::LBA;
use crate::vds::scan_type1_from;

verus! {

/// Declared size in bytes of a Type-1 (direct) partition map entry.
pub const TYPE1_PM_LEN: u8 = 6;

/// Declared size in bytes of a Type-2 metadata partition map entry.
pub const META_PM_LEN: u8 = 64;

/// A direct partition: a contiguous block range declared by a Partition
/// Descriptor.
#[derive(Clone, Copy, Debug, PartialEq, Eq, Structural)]
pub struct Type1Part {
    pub part_start: u32,
    pub part_len: u32,
    pub part_num: u16,
}

/// A metadata-indirect partition: its data lives inside a metadata file on
/// the base partition, whose entry `base_part` indexes in the map table.
#[derive(Clone, Copy, Debug, PartialEq, Eq, Structural)]
pub struct MetadataPart {
    pub meta_pos: LBA,
    pub meta_mirror_pos: LBA,
    pub meta_bitmap_pos: LBA,
    pub base_part: usize,
    pub alloc_unit_size: u32,
    pub align_unit_size: u16,
}

/// One entry of the partition map table. An entry's index in the table is
/// the partition reference every logical block address names.
#[derive(Clone, Copy, Debug, PartialEq, Eq, Structural)]
pub enum PartMap {
    Type1(Type1Part),
    Metadata(MetadataPart),
}

/// The fields of a Type-2 metadata partition map entry.
#[derive(Clone, Copy, Debug, PartialEq, Eq, Structural)]
pub struct MetadataPM {
    pub part_num: u16,
    pub m_file_pos: u32,
    pub m_mirror_pos: u32,
    pub m_bitmap_pos: u32,
    pub alloc_unit_size: u32,
    pub align_unit_size: u16,
}

/// The metadata partition map entry held at byte offset `i` of `table`.
pub open spec fn spec_metadata_pm(table: Seq<u8>, i: int) -> MetadataPM {
    MetadataPM {
        part_num: le16(table, i + 38),
        m_file_pos: le32(table, i + 40),
        m_mirror_pos: le32(table, i + 44),
        m_bitmap_pos: le32(table, i + 48),
        alloc_unit_size: le32(table, i + 52),
        align_unit_size: le16(table, i + 56),
    }
}

/// The index of the first Type-1 entry of `maps` from the `i`th on that
/// declares partition number `part_num`.
pub open spec fn find_map_from(maps: Seq<PartMap>, part_num: u16, i: int) -> Option<int>
    decreases maps.len() - i,
{
    if i < 0 || i >= maps.len() {
        None
    } else if maps[i] matches PartMap::Type1(t) && t.part_num == part_num {
        Some(i)
    } else {
        find_map_from(maps, part_num, i + 1)
    }
}

/// What a found index means: it lies in the table and names a Type-1 entry
/// with the wanted partition number.
pub proof fn lemma_find_map_from(maps: Seq<PartMap>, part_num: u16, i: int)
    ensures
        find_map_from(maps, part_num, i) matches Some(j) ==> i <= j < maps.len() && (maps[j]
            matches PartMap::Type1(t) && t.part_num == part_num),
    decreases maps.len() - i,
{
    if 0 <= i < maps.len() {
        lemma_find_map_from(maps, part_num, i + 1);
    }
}

/// Builds the metadata-indirect entry for the Type-2 map `pm`, whose base
/// partition stands at index `idx` of the table.
pub fn load_meta_map(pm: MetadataPM, idx: usize) -> (r: Option<MetadataPart>)
    requires
        idx <= u16::MAX,
    ensures
        r == Some(
            MetadataPart {
                meta_pos: LBA { prn: idx as u16, lbn: pm.m_file_pos },
                meta_mirror_pos: LBA { prn: idx as u16, lbn: pm.m_mirror_pos },
                meta_bitmap_pos: LBA { prn: idx as u16, lbn: pm.m_bitmap_pos },
                base_part: idx,
                alloc_unit_size: pm.alloc_unit_size,
                align_unit_size: pm.align_unit_size,
            },
        ),
{
    let m = MetadataPart {
        meta_pos: LBA { prn: idx as u16, lbn: pm.m_file_pos },
        meta_mirror_pos: LBA { prn: idx as u16, lbn: pm.m_mirror_pos },
        meta_bitmap_pos: LBA { prn: idx as u16, lbn: pm.m_bitmap_pos },
        base_part: idx,
        alloc_unit_size: pm.alloc_unit_size,
        align_unit_size: pm.align_unit_size,
    };
    Some(m)
}

/// The partition map table built from the raw table bytes: `n` entries
/// decoded from `table` at offset `pos` on, appended to `acc` in table
/// order. A direct entry resolves its partition number against the volume
/// descriptor sequence of `s`; a metadata entry resolves its base partition
/// among the entries already built, so a base can never itself be
/// metadata-indirect. A declared entry length other than the fixed one, or
/// an entry type other than direct and metadata, is unsupported.
pub open spec fn build_maps(
    table: Seq<u8>,
    pos: int,
    n: int,
    acc: Seq<PartMap>,
    s: Seq<u8>,
    vds_pos: u32,
    vds_len: u32,
    sector: u32,
) -> Result<Seq<PartMap>, UdfError>
    decreases n,
{
    if n <= 0 {
        Ok(acc)
    } else if pos < 0 || pos + 2 > table.len() {
        Err(UdfError::ShortRead)
    } else {
        let pm_type = table[pos];
        let pm_len = table[pos + 1];
        if pm_type == 1 {
            if pm_len != TYPE1_PM_LEN {
                Err(UdfError::UnsupportedFormat)
            } else if pos + 6 > table.len() {
                Err(UdfError::ShortRead)
            } else {
                let part_num = le16(table, pos + 4);
                match scan_type1_from(s, vds_pos, vds_len, sector, part_num, 0) {
                    Ok(t) => build_maps(
                        table,
                        pos + 6,
                        n - 1,
                        acc.push(PartMap::Type1(t)),
                        s,
                        vds_pos,
                        vds_len,
                        sector,
                    ),
                    Err(e) => Err(e),
                }
            }
        } else if pm_type == 2 {
            if pm_len != META_PM_LEN {
                Err(UdfError::UnsupportedFormat)
            } else if pos + 64 > table.len() {
                Err(UdfError::ShortRead)
            } else {
                let pm = spec_metadata_pm(table, pos);
                match find_map_from(acc, pm.part_num, 0) {
                    None => Err(UdfError::UnresolvedReference),
                    Some(idx) => if idx > u16::MAX {
                        Err(UdfError::UnresolvedReference)
                    } else {
                        build_maps(
                            table,
                            pos + 64,
                            n - 1,
                            acc.push(
                                PartMap::Metadata(
                                    MetadataPart {
                                        meta_pos: LBA { prn: idx as u16, lbn: pm.m_file_pos },
                                        meta_mirror_pos: LBA {
                                            prn: idx as u16,
                                            lbn: pm.m_mirror_pos,
                                        },
                                        meta_bitmap_pos: LBA {
                                            prn: idx as u16,
                                            lbn: pm.m_bitmap_pos,
                                        },
                                        base_part: idx as usize,
                                        alloc_unit_size: pm.alloc_unit_size,
                                        align_unit_size: pm.align_unit_size,
                                    },
                                ),
                            ),
                            s,
                            vds_pos,
                            vds_len,
                            sector,
                        )
                    },
                }
            }
        } else {
            Err(UdfError::UnsupportedFormat)
        }
    }
}

/// Well-formedness of a partition map table: every metadata entry's base
/// partition indexes an earlier, direct entry of the same table.
pub open spec fn wf_maps(maps: Seq<PartMap>) -> bool {
    forall|i: int|
        0 <= i < maps.len() ==> (#[trigger] maps[i] matches PartMap::Metadata(m) ==> m.base_part
            < i && maps[m.base_part as int] is Type1)
}

/// Appending entries never breaks well-formedness: a direct entry is
/// harmless, and a metadata entry built from a found base index keeps the
/// invariant because the found entry is direct.
pub proof fn lemma_build_maps_wf(
    table: Seq<u8>,
    pos: int,
    n: int,
    acc: Seq<PartMap>,
    s: Seq<u8>,
    vds_pos: u32,
    vds_len: u32,
    sector: u32,
)
    requires
        wf_maps(acc),
    ensures
        build_maps(table, pos, n, acc, s, vds_pos, vds_len, sector) matches Ok(maps) ==> wf_maps(
            maps,
        ),
    decreases n,
{
    if n <= 0 {
    } else if pos < 0 || pos + 2 > table.len() {
    } else {
        let pm_type = table[pos];
        let pm_len = table[pos + 1];
        if pm_type == 1 && pm_len == TYPE1_PM_LEN && pos + 6 <= table.len() {
            let part_num = le16(table, pos + 4);
            match scan_type1_from(s, vds_pos, vds_len, sector, part_num, 0) {
                Ok(t) => {
                    let acc2 = acc.push(PartMap::Type1(t));
                    assert(wf_maps(acc2));
                    lemma_build_maps_wf(table, pos + 6, n - 1, acc2, s, vds_pos, vds_len, sector);
                },
                Err(_) => {},
            }
        } else if pm_type == 2 && pm_len == META_PM_LEN && pos + 64 <= table.len() {
            let pm = spec_metadata_pm(table, pos);
            lemma_find_map_from(acc, pm.part_num, 0);
            match find_map_from(acc, pm.part_num, 0) {
                Some(idx) => {
                    if idx <= u16::MAX {
                        let m = MetadataPart {
                            meta_pos: LBA { prn: idx as u16, lbn: pm.m_file_pos },
                            meta_mirror_pos: LBA { prn: idx as u16, lbn: pm.m_mirror_pos },
                            meta_bitmap_pos: LBA { prn: idx as u16, lbn: pm.m_bitmap_pos },
                            base_part: idx as usize,
                            alloc_unit_size: pm.alloc_unit_size,
                            align_unit_size: pm.align_unit_size,
                        };
                        let acc2 = acc.push(PartMap::Metadata(m));
                        assert(wf_maps(acc2));
                        lemma_build_maps_wf(
                            table,
                            pos + 64,
                            n - 1,
                            acc2,
                            s,
                            vds_pos,
                            vds_len,
                            sector,
                        );
                    }
                },
                None => {},
            }
        }
    }
}

} // verus!
