use udfread::anchor::find_anchor;
use udfread::dir::list_root;
use udfread::errors::UdfError;
use udfread::partmap::{MetadataPart, PartMap, Type1Part};
use udfread::records::LBA;
use udfread::vds::load_type1_map;
use udfread::volume::{find_map, load_vds, UDFstruct};

fn put16(img: &mut Vec<u8>, off: usize, v: u16) {
    img[off] = v as u8;
    img[off + 1] = (v >> 8) as u8;
}

fn put32(img: &mut Vec<u8>, off: usize, v: u32) {
    img[off] = v as u8;
    img[off + 1] = (v >> 8) as u8;
    img[off + 2] = (v >> 16) as u8;
    img[off + 3] = (v >> 24) as u8;
}

/// Writes an Anchor Volume Descriptor Pointer at `sector_size * 256`.
fn put_avdp(img: &mut Vec<u8>, sector_size: u32, vds_pos: u32, vds_bytes: u32) {
    let off = sector_size as usize * 256;
    put16(img, off, 2);
    put32(img, off + 16, vds_bytes);
    put32(img, off + 20, vds_pos);
}

/// Writes a Partition Descriptor in the sector `vds_pos + i`.
fn put_pd(img: &mut Vec<u8>, sector: u32, vds_pos: u32, i: u32, part_num: u16, start: u32) {
    let off = ((vds_pos + i) * sector) as usize;
    put16(img, off, 5);
    put16(img, off + 22, part_num);
    put32(img, off + 188, start);
    put32(img, off + 192, 50);
}

/// Writes a Logical Volume Descriptor in the sector `vds_pos + i`, with a
/// partition map table of `table` bytes and `n_pm` entries, pointing the
/// File Set Descriptor at `(fsd_prn, fsd_lbn)`.
fn put_lvd(
    img: &mut Vec<u8>,
    sector: u32,
    vds_pos: u32,
    i: u32,
    fsd_prn: u16,
    fsd_lbn: u32,
    n_pm: u32,
    table: &[u8],
) {
    let off = ((vds_pos + i) * sector) as usize;
    put16(img, off, 6);
    put32(img, off + 212, sector);
    put32(img, off + 248, sector);
    put32(img, off + 252, fsd_lbn);
    put16(img, off + 256, fsd_prn);
    put32(img, off + 264, table.len() as u32);
    put32(img, off + 268, n_pm);
    for (k, b) in table.iter().enumerate() {
        img[off + 440 + k] = *b;
    }
}

/// A direct (type 1) partition map entry referencing `part_num`.
fn type1_entry(part_num: u16) -> Vec<u8> {
    let mut e = vec![0u8; 6];
    e[0] = 1;
    e[1] = 6;
    put16(&mut e, 4, part_num);
    e
}

/// A metadata (type 2) partition map entry referencing `part_num`, whose
/// metadata file starts at block `m_file_pos` of the base partition.
fn meta_entry(part_num: u16, m_file_pos: u32) -> Vec<u8> {
    let mut e = vec![0u8; 64];
    e[0] = 2;
    e[1] = 64;
    put16(&mut e, 38, part_num);
    put32(&mut e, 40, m_file_pos);
    e
}

/// Writes a File Set Descriptor at block `(100 + lbn)` naming the root ICB.
fn put_fsd(img: &mut Vec<u8>, off: usize, root_lbn: u32, root_prn: u16) {
    put16(img, off, 256);
    put32(img, off + 400, 2048);
    put32(img, off + 404, root_lbn);
    put16(img, off + 408, root_prn);
}

/// Writes an Extended File Entry with a single short allocation descriptor.
fn put_efe_short_ad(img: &mut Vec<u8>, off: usize, ea_len: u32, ext_len: u32, ext_pos: u32) {
    put16(img, off, 266);
    put16(img, off + 34, 0);
    put32(img, off + 208, ea_len);
    put32(img, off + 212, 8);
    let ad = off + 216 + ea_len as usize;
    put32(img, ad, ext_len);
    put32(img, ad + 4, ext_pos);
}

fn put_fid(img: &mut Vec<u8>, off: usize, flags: u8, name: &[u8], lbn: u32) {
    put16(img, off, 257);
    put16(img, off + 16, 1);
    img[off + 18] = flags;
    img[off + 19] = name.len() as u8;
    put32(img, off + 24, lbn);
    put16(img, off + 28, 0);
    put16(img, off + 36, 0);
    for (i, b) in name.iter().enumerate() {
        img[off + 38 + i] = *b;
    }
}

/// The synthetic minimal volume: sector size 2048, one direct partition
/// starting at block 100, a root directory with a parent entry and one
/// plain file named "A".
fn minimal_volume() -> Vec<u8> {
    let sector = 2048u32;
    let mut img = vec![0u8; 620_000];
    put_avdp(&mut img, sector, 300, 2 * sector);
    put_pd(&mut img, sector, 300, 0, 7, 100);
    put_lvd(&mut img, sector, 300, 1, 0, 4, 1, &type1_entry(7));
    put_fsd(&mut img, (100 + 4) * sector as usize, 5, 0);
    put_efe_short_ad(&mut img, (100 + 5) * sector as usize, 0, sector, 6);
    let dir = (100 + 6) * sector as usize;
    put_fid(&mut img, dir, 6, &[], 5);
    put_fid(&mut img, dir + 40, 0, &[8, b'A'], 9);
    img
}

#[test]
fn anchor_found_at_2048() {
    let img = minimal_volume();
    assert_eq!(find_anchor(&img), Ok((2048, 300, 2)));
}

#[test]
fn anchor_priority_order_prefers_2048() {
    // valid at 512 and also at 2048: the fixed order must pick 2048.
    let mut img = vec![0u8; 620_000];
    put_avdp(&mut img, 512, 270, 2 * 512);
    put_avdp(&mut img, 2048, 999, 7 * 2048);
    assert_eq!(find_anchor(&img), Ok((2048, 999, 7)));
}

#[test]
fn anchor_found_at_512_when_2048_fails() {
    let mut img = vec![0u8; 200_000];
    put_avdp(&mut img, 512, 270, 2 * 512);
    assert_eq!(find_anchor(&img), Ok((512, 270, 2)));
}

#[test]
fn anchor_found_at_4096_last() {
    let mut img = vec![0u8; 4096 * 256 + 512];
    put_avdp(&mut img, 4096, 280, 3 * 4096);
    assert_eq!(find_anchor(&img), Ok((4096, 280, 3)));
}

#[test]
fn map_table_past_image_end_is_a_short_read() {
    let sector = 512u32;
    let mut img = vec![0u8; 200_000];
    put_avdp(&mut img, sector, 270, 2 * sector);
    put_pd(&mut img, sector, 270, 0, 3, 200);
    put_lvd(&mut img, sector, 270, 1, 0, 0, 1, &type1_entry(3));
    // declare a map table far longer than the image
    put32(&mut img, (271 * sector) as usize + 264, 1_000_000);
    let mut u = fresh_state(sector, 270, 2);
    assert_eq!(load_vds(&img, &mut u), Err(UdfError::ShortRead));
}

#[test]
fn empty_partition_map_table() {
    let sector = 512u32;
    let mut img = vec![0u8; 200_000];
    put_avdp(&mut img, sector, 270, 2 * sector);
    put_lvd(&mut img, sector, 270, 1, 0, 9, 0, &[]);
    let mut u = fresh_state(sector, 270, 2);
    load_vds(&img, &mut u).unwrap();
    assert_eq!(u.maps.len(), 0);
    assert_eq!(u.root_fe, LBA { lbn: 9, prn: 0 });
}

#[test]
fn truncated_volume_is_a_short_read() {
    // ends 10 bytes before the expected anchor offset: never a zero-filled record.
    let img = vec![0u8; 2048 * 256 - 10];
    assert_eq!(find_anchor(&img), Err(UdfError::ShortRead));
}

#[test]
fn no_anchor_anywhere_is_a_tag_mismatch() {
    let img = vec![0u8; 4096 * 256 + 512];
    assert_eq!(find_anchor(&img), Err(UdfError::TagMismatch));
}

fn fresh_state(sector: u32, vds_pos: u32, vds_len: u32) -> UDFstruct {
    UDFstruct {
        maps: vec![],
        sector_size: sector,
        anchor_pos: vds_pos,
        anchor_len: vds_len,
        root_fe: LBA { lbn: 0, prn: 0 },
    }
}

#[test]
fn vds_builds_direct_map_and_fsd_location() {
    let img = minimal_volume();
    let mut u = fresh_state(2048, 300, 2);
    load_vds(&img, &mut u).unwrap();
    assert_eq!(u.root_fe, LBA { lbn: 4, prn: 0 });
    assert_eq!(u.maps.len(), 1);
    match u.maps[0] {
        PartMap::Type1(t) => {
            assert_eq!(t.part_start, 100);
            assert_eq!(t.part_num, 7);
        },
        PartMap::Metadata(_) => panic!("expected a direct entry"),
    }
}

#[test]
fn scan_skips_unrelated_sectors() {
    let img = minimal_volume();
    // sector 300 holds the PD, sector 301 the LVD; the scan for the PD must
    // skip neither-matching sectors and find it wherever it stands.
    let t = load_type1_map(&img, 300, 2, 2048, 7).unwrap();
    assert_eq!(t, Type1Part { part_start: 100, part_len: 50, part_num: 7 });
    assert_eq!(load_type1_map(&img, 300, 2, 2048, 8), Err(UdfError::UnresolvedReference));
}

#[test]
fn missing_lvd_is_a_tag_mismatch() {
    let sector = 2048u32;
    let mut img = vec![0u8; 620_000];
    put_avdp(&mut img, sector, 300, 2 * sector);
    put_pd(&mut img, sector, 300, 0, 7, 100);
    let mut u = fresh_state(sector, 300, 2);
    assert_eq!(load_vds(&img, &mut u), Err(UdfError::TagMismatch));
}

#[test]
fn unknown_partition_number_is_unresolved() {
    let sector = 2048u32;
    let mut img = vec![0u8; 620_000];
    put_avdp(&mut img, sector, 300, 2 * sector);
    put_pd(&mut img, sector, 300, 0, 7, 100);
    put_lvd(&mut img, sector, 300, 1, 0, 4, 1, &type1_entry(9));
    let mut u = fresh_state(sector, 300, 2);
    assert_eq!(load_vds(&img, &mut u), Err(UdfError::UnresolvedReference));
}

#[test]
fn unknown_map_type_is_unsupported() {
    let sector = 2048u32;
    let mut img = vec![0u8; 620_000];
    put_avdp(&mut img, sector, 300, 2 * sector);
    put_pd(&mut img, sector, 300, 0, 7, 100);
    let mut bad = type1_entry(7);
    bad[0] = 3;
    put_lvd(&mut img, sector, 300, 1, 0, 4, 1, &bad);
    let mut u = fresh_state(sector, 300, 2);
    assert_eq!(load_vds(&img, &mut u), Err(UdfError::UnsupportedFormat));
}

#[test]
fn wrong_map_length_is_unsupported() {
    let sector = 2048u32;
    let mut img = vec![0u8; 620_000];
    put_avdp(&mut img, sector, 300, 2 * sector);
    put_pd(&mut img, sector, 300, 0, 7, 100);
    let mut bad = type1_entry(7);
    bad[1] = 8;
    put_lvd(&mut img, sector, 300, 1, 0, 4, 1, &bad);
    let mut u = fresh_state(sector, 300, 2);
    assert_eq!(load_vds(&img, &mut u), Err(UdfError::UnsupportedFormat));
}

#[test]
fn direct_translation_formula() {
    let img = minimal_volume();
    let mut u = fresh_state(2048, 300, 2);
    load_vds(&img, &mut u).unwrap();
    // (startBlock + b) * sectorSize
    let addr = LBA { lbn: 5, prn: 0 }.to_phy(&u, &img).unwrap();
    assert_eq!(addr, (100 + 5) * 2048);
    let addr0 = LBA { lbn: 0, prn: 0 }.to_phy(&u, &img).unwrap();
    assert_eq!(addr0, 100 * 2048);
}

#[test]
fn out_of_table_reference_is_unresolved() {
    let img = minimal_volume();
    let mut u = fresh_state(2048, 300, 2);
    load_vds(&img, &mut u).unwrap();
    assert_eq!(LBA { lbn: 0, prn: 1 }.to_phy(&u, &img), Err(UdfError::UnresolvedReference));
}

#[test]
fn metadata_translation_adds_extent_start() {
    let sector = 512u32;
    let mut img = vec![0u8; 200_000];
    put_avdp(&mut img, sector, 270, 2 * sector);
    put_pd(&mut img, sector, 270, 0, 3, 200);
    let mut table = type1_entry(3);
    table.extend_from_slice(&meta_entry(3, 10));
    put_lvd(&mut img, sector, 270, 1, 0, 0, 2, &table);
    // metadata file ICB on the base partition at block 10, with an
    // extended-attribute area of 4 bytes; its extent starts at block 50.
    put_efe_short_ad(&mut img, ((200 + 10) * sector) as usize, 4, 8 * sector, 50);
    let mut u = fresh_state(sector, 270, 2);
    load_vds(&img, &mut u).unwrap();
    assert_eq!(u.maps.len(), 2);
    match u.maps[1] {
        PartMap::Metadata(m) => {
            assert_eq!(m.base_part, 0);
            assert_eq!(m.meta_pos, LBA { lbn: 10, prn: 0 });
        },
        PartMap::Type1(_) => panic!("expected a metadata entry"),
    }
    // block 7 of the metadata partition lies at base block 50 + 7.
    let indirect = LBA { lbn: 7, prn: 1 }.to_phy(&u, &img).unwrap();
    let direct = LBA { lbn: 50 + 7, prn: 0 }.to_phy(&u, &img).unwrap();
    assert_eq!(indirect, direct);
    assert_eq!(indirect, (200 + 50 + 7) as u64 * 512);
}

#[test]
fn metadata_base_must_be_direct() {
    // a metadata entry referencing a partition number only declared by
    // another metadata entry cannot be built: the reference stays unresolved.
    let sector = 512u32;
    let mut img = vec![0u8; 200_000];
    put_avdp(&mut img, sector, 270, 2 * sector);
    put_pd(&mut img, sector, 270, 0, 3, 200);
    let mut table = meta_entry(3, 10).to_vec();
    table.extend_from_slice(&meta_entry(3, 11));
    put_lvd(&mut img, sector, 270, 1, 0, 0, 2, &table);
    let mut u = fresh_state(sector, 270, 2);
    assert_eq!(load_vds(&img, &mut u), Err(UdfError::UnresolvedReference));
}

#[test]
fn find_map_first_direct_match_wins() {
    let u = UDFstruct {
        maps: vec![
            PartMap::Type1(Type1Part { part_start: 10, part_len: 5, part_num: 4 }),
            PartMap::Metadata(MetadataPart {
                meta_pos: LBA { lbn: 1, prn: 0 },
                meta_mirror_pos: LBA { lbn: 2, prn: 0 },
                meta_bitmap_pos: LBA { lbn: 3, prn: 0 },
                base_part: 0,
                alloc_unit_size: 32,
                align_unit_size: 8,
            }),
            PartMap::Type1(Type1Part { part_start: 20, part_len: 5, part_num: 8 }),
        ],
        sector_size: 2048,
        anchor_pos: 0,
        anchor_len: 0,
        root_fe: LBA { lbn: 0, prn: 0 },
    };
    assert_eq!(find_map(&u, 4), Some(0));
    assert_eq!(find_map(&u, 8), Some(2));
    assert_eq!(find_map(&u, 9), None);
}

#[test]
fn load_meta_map_carries_fields_over() {
    let pm = udfread::partmap::MetadataPM {
        part_num: 3,
        m_file_pos: 10,
        m_mirror_pos: 11,
        m_bitmap_pos: 12,
        alloc_unit_size: 32,
        align_unit_size: 8,
    };
    let m = udfread::partmap::load_meta_map(pm, 2).unwrap();
    assert_eq!(m.base_part, 2);
    assert_eq!(m.meta_pos, LBA { lbn: 10, prn: 2 });
    assert_eq!(m.meta_mirror_pos, LBA { lbn: 11, prn: 2 });
    assert_eq!(m.meta_bitmap_pos, LBA { lbn: 12, prn: 2 });
    assert_eq!(m.alloc_unit_size, 32);
    assert_eq!(m.align_unit_size, 8);
}

#[test]
fn end_to_end_minimal_volume() {
    let img = minimal_volume();
    // the resolved root ICB must lie at (100 + 5) * 2048
    let mut u = fresh_state(2048, 300, 2);
    load_vds(&img, &mut u).unwrap();
    let icb_addr = LBA { lbn: 5, prn: 0 }.to_phy(&u, &img).unwrap();
    assert_eq!(icb_addr, (100 + 5) * 2048);
    let entries = list_root(&img).unwrap();
    assert_eq!(entries.len(), 2);
    assert!(entries[0].is_parent);
    assert!(entries[0].name.is_none());
    assert_eq!(entries[1].name.as_deref(), Some("A"));
    assert!(!entries[1].is_dir);
    assert!(!entries[1].is_parent);
    assert_eq!(entries[1].icb, LBA { lbn: 9, prn: 0 });
}

#[test]
fn long_allocation_descriptors_are_unsupported() {
    let mut img = minimal_volume();
    // switch the root ICB's allocation type to 1 (long descriptors)
    put16(&mut img, (100 + 5) * 2048 + 34, 1);
    assert_eq!(list_root(&img), Err(UdfError::UnsupportedFormat));
}

#[test]
fn embedded_directory_data_is_read() {
    let mut img = minimal_volume();
    let icb = (100 + 5) * 2048;
    // allocation type 3: the directory records follow the fixed part directly
    put16(&mut img, icb + 34, 3);
    put32(&mut img, icb + 208, 0);
    put32(&mut img, icb + 212, 80);
    put_fid(&mut img, icb + 216, 0, &[8, b'E'], 14);
    let entries = list_root(&img).unwrap();
    assert_eq!(entries.len(), 1);
    assert_eq!(entries[0].name.as_deref(), Some("E"));
    assert_eq!(entries[0].icb, LBA { lbn: 14, prn: 0 });
}

#[test]
fn scan_stops_at_the_declared_extent_end() {
    let sector = 2048u32;
    let mut img = vec![0u8; 640_000];
    // the PD stands one sector past the two-sector extent: never visited.
    put_pd(&mut img, sector, 300, 2, 7, 100);
    assert_eq!(load_type1_map(&img, 300, 2, sector, 7), Err(UdfError::UnresolvedReference));
    assert_eq!(load_type1_map(&img, 300, 3, sector, 7).unwrap().part_start, 100);
}

#[test]
fn scan_past_image_end_is_a_short_read() {
    let sector = 2048u32;
    let img = vec![0u8; (301 * sector) as usize + 8];
    // the second sector's tag is cut off by the end of the image.
    assert_eq!(load_type1_map(&img, 300, 2, sector, 7), Err(UdfError::ShortRead));
}

#[test]
fn truncated_file_set_descriptor_is_a_short_read() {
    let sector = 512u32;
    // the image ends inside the File Set Descriptor's block at (400 + 4) * 512
    let mut img = vec![0u8; (400 + 4) * 512 + 100];
    put_avdp(&mut img, sector, 270, 2 * sector);
    put_pd(&mut img, sector, 270, 0, 3, 400);
    put_lvd(&mut img, sector, 270, 1, 0, 4, 1, &type1_entry(3));
    assert_eq!(list_root(&img), Err(UdfError::ShortRead));
}

#[test]
fn file_set_descriptor_with_wrong_tag_is_rejected() {
    let mut img = minimal_volume();
    put16(&mut img, (100 + 4) * 2048, 261);
    assert_eq!(list_root(&img), Err(UdfError::TagMismatch));
}
