use vstd::prelude::*;
use crate::bytes::{has_bytes, le16, sub_slice};
use crate::errors::UdfError;
use crate::names::{decode_cs0, spec_decode_cs0};
use crate::records::{
    read_long_ad, read_short_ad, spec_icb_fixed_len, spec_long_ad, spec_read_icb, spec_short_ad,
    spec_alloc_type, Long_ad, LBA, SHORT_AD_LEN,
};
use crate::resolve::spec_to_phy;
use crate::tag::{read_tag, spec_tag, validate_tag, Tag, TAG_LEN, TAGID_FID, TAGID_FSD};
use crate::volume::{spec_load_vds, UDFstruct};

verus! {

/// Size in bytes of the fixed header of a File Identifier Descriptor: the
/// tag and the fixed fields, before the name and implementation-use bytes.
pub const FID_HEADER_LEN: u64 = 38;

/// Size in bytes of a File Set Descriptor on disk.
pub const FSD_LEN: u64 = 512;

/// The next multiple of 4 at or above `n`.
pub open spec fn align4(n: int) -> int {
    ((n + 3) / 4) * 4
}

/// The padding that brings a record of `n` bytes to the next 4-byte
/// boundary.
pub open spec fn pad4(n: int) -> int {
    align4(n) - n
}

/// Padding law: after a record of `n` bytes the applied padding makes the
/// total a multiple of 4, and no more than 3 bytes are ever added.
pub proof fn lemma_pad4(n: int)
    requires
        n >= 0,
    ensures
        (n + pad4(n)) % 4 == 0,
        0 <= pad4(n) < 4,
        n + pad4(n) == align4(n),
{
    vstd::arithmetic::div_mod::lemma_fundamental_div_mod(n + 3, 4);
    assert(align4(n) % 4 == 0) by {
        vstd::arithmetic::div_mod::lemma_mod_multiples_basic((n + 3) / 4, 4);
    };
}

/// The fixed header of a File Identifier Descriptor.
#[derive(Clone, Copy, Debug, PartialEq, Eq, Structural)]
pub struct FidHeader {
    pub tag: Tag,
    pub file_ver: u16,
    pub file_characteristics: u8,
    pub file_id_len: u8,
    pub icb: Long_ad,
    pub impl_len: u16,
}

/// The File Identifier Descriptor header held at byte offset `i` of `s`.
pub open spec fn spec_fid(s: Seq<u8>, i: int) -> FidHeader {
    FidHeader {
        tag: spec_tag(s, i),
        file_ver: le16(s, i + 16),
        file_characteristics: s[i + 18],
        file_id_len: s[i + 19],
        icb: spec_long_ad(s, i + 20),
        impl_len: le16(s, i + 36),
    }
}

/// Decodes the File Identifier Descriptor header at byte address `off`.
pub fn read_fid(data: &[u8], off: u64) -> (r: Result<FidHeader, UdfError>)
    ensures
        off + FID_HEADER_LEN <= data@.len() ==> r == Ok::<FidHeader, UdfError>(
            spec_fid(data@, off as int),
        ),
        off + FID_HEADER_LEN > data@.len() ==> r == Err::<FidHeader, UdfError>(
            UdfError::ShortRead,
        ),
{
    if has_bytes(data, off, FID_HEADER_LEN) {
        let len: usize = data.len();
        proof {
            assert(off + 38 <= len);
        }
        Ok(FidHeader {
            tag: read_tag(data, off).unwrap(),
            file_ver: crate::bytes::read_u16_at(data, off + 16).unwrap(),
            file_characteristics: crate::bytes::read_u8_at(data, off + 18).unwrap(),
            file_id_len: crate::bytes::read_u8_at(data, off + 19).unwrap(),
            icb: read_long_ad(data, off + 20).unwrap(),
            impl_len: crate::bytes::read_u16_at(data, off + 36).unwrap(),
        })
    } else {
        Err(UdfError::ShortRead)
    }
}

/// One decoded directory entry: the name (absent for the parent entry and
/// for a name whose bytes do not decode), the classification bits, and the
/// child's ICB location.
#[derive(Debug, PartialEq, Eq)]
pub struct DirEntry {
    pub name: Option<String>,
    pub is_dir: bool,
    pub is_parent: bool,
    pub icb: LBA,
}

/// The mathematical shape of a directory entry.
pub struct DirEntryS {
    pub name: Option<Seq<char>>,
    pub is_dir: bool,
    pub is_parent: bool,
    pub icb: LBA,
}

impl View for DirEntry {
    type V = DirEntryS;

    open spec fn view(&self) -> DirEntryS {
        DirEntryS {
            name: match self.name {
                Some(n) => Some(n@),
                None => None,
            },
            is_dir: self.is_dir,
            is_parent: self.is_parent,
            icb: self.icb,
        }
    }
}

/// What one File Identifier Descriptor contributes to the listing: nothing
/// when its deleted/invisible bit is set; the specially-marked parent entry
/// without a name; otherwise an entry whose name is decoded from the bytes
/// after the header, kept absent when they do not decode.
pub open spec fn spec_entry(s: Seq<u8>, pos: int, fid: FidHeader) -> Option<DirEntryS> {
    if fid.file_characteristics & 1 != 0 {
        None
    } else {
        let icb = LBA { lbn: fid.icb.ext_pos.lbn, prn: fid.icb.ext_pos.prn };
        let is_dir = fid.file_characteristics & 2 != 0;
        if fid.file_characteristics & 4 != 0 {
            Some(DirEntryS { name: None, is_dir, is_parent: true, icb })
        } else if fid.file_id_len == 0 {
            Some(DirEntryS { name: None, is_dir, is_parent: false, icb })
        } else {
            let nb = s.subrange(pos + FID_HEADER_LEN, pos + FID_HEADER_LEN + fid.file_id_len);
            let name = match spec_decode_cs0(nb) {
                Ok(cs) => Some(cs),
                Err(_) => None,
            };
            Some(DirEntryS { name, is_dir, is_parent: false, icb })
        }
    }
}

/// The listing decoded from the record stream of a directory extent, from
/// byte offset `pos` on. Iteration ends where a tag fails to validate or
/// the extent has no room for another header; a record whose declared name
/// and implementation-use bytes run past the extent is a short read. Each
/// following record starts 4-byte aligned relative to this record's start.
pub open spec fn spec_fids(s: Seq<u8>, pos: int) -> Result<Seq<DirEntryS>, UdfError>
    decreases s.len() - pos,
{
    if pos < 0 || pos + FID_HEADER_LEN > s.len() {
        Ok(Seq::empty())
    } else if spec_tag(s, pos).tagid != TAGID_FID {
        Ok(Seq::empty())
    } else {
        let fid = spec_fid(s, pos);
        let l_fi = fid.file_id_len as int;
        let l_iu = fid.impl_len as int;
        if pos + FID_HEADER_LEN + l_fi + l_iu > s.len() {
            Err(UdfError::ShortRead)
        } else {
            let this = match spec_entry(s, pos, fid) {
                Some(e) => seq![e],
                None => Seq::empty(),
            };
            let next = pos + align4(FID_HEADER_LEN + l_fi + l_iu);
            if next > s.len() {
                Ok(this)
            } else {
                match spec_fids(s, next) {
                    Ok(rest) => Ok(this + rest),
                    Err(e) => Err(e),
                }
            }
        }
    }
}

/// Decodes the File Identifier Descriptor stream of a directory extent
/// into the listing it names.
pub fn read_fileids(extent: &[u8]) -> (r: Result<Vec<DirEntry>, UdfError>)
    ensures
        spec_fids(extent@, 0) matches Ok(es) ==> (r matches Ok(v) && v@.map_values(
            |e: DirEntry| e@,
        ) == es),
        spec_fids(extent@, 0) matches Err(e) ==> r == Err::<Vec<DirEntry>, UdfError>(e),
{
    let mut out: Vec<DirEntry> = Vec::new();
    let mut pos: u64 = 0;
    let elen: usize = extent.len();
    proof {
        assert(out@.map_values(|e: DirEntry| e@) =~= Seq::<DirEntryS>::empty());
        assert(forall|r0: Seq<DirEntryS>| Seq::<DirEntryS>::empty() + r0 =~= r0);
    }
    while elen as u64 - pos >= FID_HEADER_LEN
        invariant
            0 <= pos <= extent@.len(),
            elen == extent@.len(),
            ({
                let full = spec_fids(extent@, 0);
                let rest = spec_fids(extent@, pos as int);
                full == match rest {
                    Ok(r0) => Ok::<Seq<DirEntryS>, UdfError>(
                        out@.map_values(|e: DirEntry| e@) + r0,
                    ),
                    Err(e) => Err::<Seq<DirEntryS>, UdfError>(e),
                }
            }),
        decreases extent@.len() - pos,
    {
        let t = read_tag(extent, pos).unwrap();
        if t.tagid != TAGID_FID {
            proof {
                assert(spec_fids(extent@, pos as int) == Ok::<Seq<DirEntryS>, UdfError>(
                    Seq::empty(),
                ));
                assert(out@.map_values(|e: DirEntry| e@) + Seq::<DirEntryS>::empty() =~= out@
                    .map_values(|e: DirEntry| e@));
            }
            return Ok(out);
        }
        let fid = read_fid(extent, pos).unwrap();
        let l_fi = fid.file_id_len as u64;
        let l_iu = fid.impl_len as u64;
        if !has_bytes(extent, pos, FID_HEADER_LEN + l_fi + l_iu) {
            return Err(UdfError::ShortRead);
        }
        let ghost old_out = out@;
        let flags = fid.file_characteristics;
        if flags & 1 == 0 {
            let icb = LBA::from(fid.icb.ext_pos);
            let is_dir = flags & 2 != 0;
            if flags & 4 != 0 {
                out.push(DirEntry { name: None, is_dir, is_parent: true, icb });
            } else if fid.file_id_len == 0 {
                out.push(DirEntry { name: None, is_dir, is_parent: false, icb });
            } else {
                let name_bytes = sub_slice(extent, pos + FID_HEADER_LEN, l_fi).unwrap();
                let name = match decode_cs0(name_bytes) {
                    Ok(n) => Some(n),
                    Err(_) => None,
                };
                out.push(DirEntry { name, is_dir, is_parent: false, icb });
            }
            proof {
                let e = out@[out@.len() - 1];
                assert(Some(e@) == spec_entry(extent@, pos as int, fid));
                assert(out@.map_values(|x: DirEntry| x@) =~= old_out.map_values(|x: DirEntry| x@)
                    + seq![e@]);
            }
        } else {
            proof {
                assert(spec_entry(extent@, pos as int, fid) is None);
            }
        }
        let ghost this = (match spec_entry(extent@, pos as int, fid) {
            Some(e) => seq![e],
            None => Seq::<DirEntryS>::empty(),
        });
        let ghost mv_old = old_out.map_values(|x: DirEntry| x@);
        let ghost mv_new = out@.map_values(|x: DirEntry| x@);
        proof {
            assert(mv_new =~= mv_old + this);
        }
        let rec: u64 = FID_HEADER_LEN + l_fi + l_iu;
        let adv: u64 = (rec + 3) / 4 * 4;
        proof {
            lemma_pad4(rec as int);
            assert(adv == align4(rec as int));
        }
        let next_over: bool = match pos.checked_add(adv) {
            Some(n) => n > elen as u64,
            None => true,
        };
        if next_over {
            proof {
                assert(pos + align4(rec as int) > extent@.len());
                assert(spec_fids(extent@, pos as int) == Ok::<Seq<DirEntryS>, UdfError>(this));
                assert(mv_old + this =~= mv_new);
            }
            return Ok(out);
        }
        let next = pos + adv;
        proof {
            assert(spec_fids(extent@, pos as int) == (match spec_fids(extent@, next as int) {
                Ok(rest) => Ok::<Seq<DirEntryS>, UdfError>(this + rest),
                Err(e) => Err::<Seq<DirEntryS>, UdfError>(e),
            }));
            assert(forall|rest: Seq<DirEntryS>| (mv_old + this) + rest =~= mv_old + (this + rest));
        }
        pos = next;
    }
    proof {
        assert(spec_fids(extent@, pos as int) == Ok::<Seq<DirEntryS>, UdfError>(Seq::empty()));
        assert(out@.map_values(|e: DirEntry| e@) + Seq::<DirEntryS>::empty() =~= out@.map_values(
            |e: DirEntry| e@,
        ));
    }
    Ok(out)
}

/// The root directory listing of the whole volume image: the anchor names
/// the volume descriptor sequence; the sequence yields the partition map
/// table and the File Set Descriptor's address; the File Set Descriptor
/// names the root directory's ICB; that ICB locates the directory extent —
/// held in a single short allocation descriptor or embedded in the record —
/// whose File Identifier Descriptors are the listing. Allocation-descriptor
/// types other than short and embedded are unsupported.
pub open spec fn spec_list_root(s: Seq<u8>) -> Result<Seq<DirEntryS>, UdfError> {
    match crate::anchor::spec_find_anchor(s) {
        Err(e) => Err(e),
        Ok(anchor) => {
            let sector = anchor.0;
            match spec_load_vds(s, sector, anchor.1, anchor.2, Seq::empty()) {
                Err(e) => Err(e),
                Ok(p) => {
                    let maps = p.0;
                    let root_fe = p.1;
                    match spec_to_phy(maps, sector, s, root_fe.prn as int, root_fe.lbn) {
                        Err(e) => Err(e),
                        Ok(fsd_off) => {
                            if fsd_off + FSD_LEN > s.len() {
                                Err(UdfError::ShortRead)
                            } else if spec_tag(s, fsd_off as int).tagid != TAGID_FSD {
                                Err(UdfError::TagMismatch)
                            } else {
                                let root_icb = spec_long_ad(s, fsd_off + 400);
                                spec_list_from_icb(s, maps, sector, root_fe, root_icb)
                            }
                        },
                    }
                },
            }
        },
    }
}

/// The listing reached from the root directory's ICB address, once the
/// File Set Descriptor has named it.
pub open spec fn spec_list_from_icb(
    s: Seq<u8>,
    maps: Seq<crate::partmap::PartMap>,
    sector: u32,
    root_fe: LBA,
    root_icb: Long_ad,
) -> Result<Seq<DirEntryS>, UdfError> {
    match spec_to_phy(maps, sector, s, root_icb.ext_pos.prn as int, root_icb.ext_pos.lbn) {
        Err(e) => Err(e),
        Ok(icb_off) => {
            match spec_read_icb(s, icb_off as int) {
                Err(e) => Err(e),
                Ok(icb) => {
                    let at = spec_alloc_type(icb.icb_flags);
                    let area = icb_off + spec_icb_fixed_len(icb.extended) + icb.ea_len;
                    if at == 0 {
                        if area + SHORT_AD_LEN > s.len() {
                            Err(UdfError::ShortRead)
                        } else {
                            let ad = spec_short_ad(s, area);
                            match spec_to_phy(maps, sector, s, root_fe.prn as int, ad.ext_pos) {
                                Err(e) => Err(e),
                                Ok(ext_off) => {
                                    if ext_off + ad.ext_len > s.len() {
                                        Err(UdfError::ShortRead)
                                    } else {
                                        spec_fids(
                                            s.subrange(ext_off as int, ext_off + ad.ext_len),
                                            0,
                                        )
                                    }
                                },
                            }
                        }
                    } else if at == 3 {
                        if area + icb.ad_len > s.len() {
                            Err(UdfError::ShortRead)
                        } else {
                            spec_fids(s.subrange(area, area + icb.ad_len), 0)
                        }
                    } else {
                        Err(UdfError::UnsupportedFormat)
                    }
                },
            }
        },
    }
}

/// Parses the whole volume image and decodes the root directory listing.
#[verifier::rlimit(100)]
pub fn list_root(data: &[u8]) -> (r: Result<Vec<DirEntry>, UdfError>)
    ensures
        spec_list_root(data@) matches Ok(es) ==> (r matches Ok(v) && v@.map_values(
            |e: DirEntry| e@,
        ) == es),
        spec_list_root(data@) matches Err(e) ==> r == Err::<Vec<DirEntry>, UdfError>(e),
{
    let (sector, vds_pos, vds_len) = match crate::anchor::find_anchor(data) {
        Ok(a) => a,
        Err(e) => {
            return Err(e);
        },
    };
    let mut u = UDFstruct {
        maps: Vec::new(),
        sector_size: sector,
        anchor_pos: vds_pos,
        anchor_len: vds_len,
        root_fe: LBA { lbn: 0, prn: 0 },
    };
    match crate::volume::load_vds(data, &mut u) {
        Ok(_) => {},
        Err(e) => {
            return Err(e);
        },
    }
    let root_fe = u.root_fe;
    let fsd_off = match root_fe.to_phy(&u, data) {
        Ok(o) => o,
        Err(e) => {
            return Err(e);
        },
    };
    if !has_bytes(data, fsd_off, FSD_LEN) {
        return Err(UdfError::ShortRead);
    }
    let dlen: usize = data.len();
    proof {
        assert(fsd_off + 512 <= dlen);
    }
    match validate_tag(data, fsd_off, TAGID_FSD) {
        Ok(_) => {},
        Err(e) => {
            return Err(e);
        },
    }
    let root_icb = read_long_ad(data, fsd_off + 400).unwrap();
    let root_lba = LBA::from(root_icb.ext_pos);
    let icb_off = match root_lba.to_phy(&u, data) {
        Ok(o) => o,
        Err(e) => {
            return Err(e);
        },
    };
    let icb = match crate::records::read_icb(data, icb_off) {
        Ok(i) => i,
        Err(e) => {
            return Err(e);
        },
    };
    let at = icb.alloc_type();
    if at == 0 {
        let area = match checked_area(icb_off, icb.fixed_len(), icb.ea_len) {
            Some(a) => a,
            None => {
                return Err(UdfError::ShortRead);
            },
        };
        let ad = match read_short_ad(data, area) {
            Ok(ad) => ad,
            Err(e) => {
                return Err(e);
            },
        };
        let ext_lba = LBA { lbn: ad.ext_pos, prn: root_fe.prn };
        let ext_off = match ext_lba.to_phy(&u, data) {
            Ok(o) => o,
            Err(e) => {
                return Err(e);
            },
        };
        if !has_bytes(data, ext_off, ad.ext_len as u64) {
            return Err(UdfError::ShortRead);
        }
        let extent = sub_slice(data, ext_off, ad.ext_len as u64).unwrap();
        read_fileids(extent)
    } else if at == 3 {
        let area = match checked_area(icb_off, icb.fixed_len(), icb.ea_len) {
            Some(a) => a,
            None => {
                return Err(UdfError::ShortRead);
            },
        };
        if !has_bytes(data, area, icb.ad_len as u64) {
            return Err(UdfError::ShortRead);
        }
        let extent = sub_slice(data, area, icb.ad_len as u64).unwrap();
        read_fileids(extent)
    } else {
        Err(UdfError::UnsupportedFormat)
    }
}

/// Byte address of the allocation-descriptor area: the ICB's fixed part and
/// extended-attribute area both skipped. None where it exceeds any address.
fn checked_area(icb_off: u64, fixed: u64, ea_len: u32) -> (r: Option<u64>)
    ensures
        icb_off + fixed + ea_len <= u64::MAX ==> r == Some((icb_off + fixed + ea_len) as u64),
        icb_off + fixed + ea_len > u64::MAX ==> r is None,
{
    match icb_off.checked_add(fixed) {
        Some(x) => x.checked_add(ea_len as u64),
        None => None,
    }
}

} // verus!
