use vstd::prelude::*;
use vstd::utf8::{char_is_scalar, char_u32_cast};
use crate::errors::UdfError;

verus! {

/// Relies on char::from_u32 of std: it returns the char with scalar value
/// `v`, and None exactly when `v` is a surrogate or above the Unicode range.
pub assume_specification[ char::from_u32 ](v: u32) -> (r: Option<char>)
    ensures
        r is Some <==> vstd::utf8::is_scalar(v),
        r matches Some(c) ==> c as u32 == v,
;

/// Relies on String::push of std: it appends the given char to the string.
pub assume_specification[ String::push ](s: &mut String, c: char)
    ensures
        final(s)@ == old(s)@.push(c),
;

/// The big-endian 16-bit code unit held at `s[i]`, `s[i + 1]`.
pub open spec fn be16(s: Seq<u8>, i: int) -> u16 {
    (s[i] * 0x100 + s[i + 1]) as u16
}

/// The characters named by the single-byte payload `s[i..]`: each byte is
/// one character with that code point (direct Latin-1 reading).
pub open spec fn decode8_from(s: Seq<u8>, i: int) -> Seq<char>
    decreases s.len() - i,
{
    if i < 0 || i >= s.len() {
        Seq::empty()
    } else {
        seq![(s[i] as u32) as char] + decode8_from(s, i + 1)
    }
}

/// The characters named by the 2-byte big-endian payload `s[i..]`, read as
/// UTF-16: a code unit outside the surrogate range is one character; a high
/// surrogate followed by a low surrogate is one supplementary character; a
/// lone surrogate, or a payload cut mid-unit, is a charset error.
pub open spec fn decode16_from(s: Seq<u8>, i: int) -> Result<Seq<char>, UdfError>
    decreases s.len() - i,
{
    if i < 0 {
        Err(UdfError::CharsetError)
    } else if i >= s.len() {
        Ok(Seq::empty())
    } else if i + 2 > s.len() {
        Err(UdfError::CharsetError)
    } else {
        let u0 = be16(s, i);
        if u0 < 0xD800 || u0 >= 0xE000 {
            match decode16_from(s, i + 2) {
                Ok(cs) => Ok(seq![(u0 as u32) as char] + cs),
                Err(e) => Err(e),
            }
        } else if u0 < 0xDC00 {
            if i + 4 > s.len() {
                Err(UdfError::CharsetError)
            } else {
                let u1 = be16(s, i + 2);
                if 0xDC00 <= u1 < 0xE000 {
                    let cp = 0x10000 + (u0 - 0xD800) * 0x400 + (u1 - 0xDC00);
                    match decode16_from(s, i + 4) {
                        Ok(cs) => Ok(seq![(cp as u32) as char] + cs),
                        Err(e) => Err(e),
                    }
                } else {
                    Err(UdfError::CharsetError)
                }
            }
        } else {
            Err(UdfError::CharsetError)
        }
    }
}

/// The single-byte encoding of `name` from its `j`th character on: each
/// character's code point as one byte.
pub open spec fn encode8_from(name: Seq<char>, j: int) -> Seq<u8>
    decreases name.len() - j,
{
    if j < 0 || j >= name.len() {
        Seq::empty()
    } else {
        seq![(name[j] as u32) as u8] + encode8_from(name, j + 1)
    }
}

/// The compressed identifier carrying `name` under compression id 8.
pub open spec fn spec_encode_cs0_8(name: Seq<char>) -> Seq<u8> {
    seq![8u8] + encode8_from(name, 0)
}

/// The big-endian UTF-16 encoding of `name` from its `j`th character on: a
/// character below the supplementary planes is one code unit, any other is
/// a surrogate pair; each unit is two big-endian bytes.
pub open spec fn encode16_from(name: Seq<char>, j: int) -> Seq<u8>
    decreases name.len() - j,
{
    if j < 0 || j >= name.len() {
        Seq::empty()
    } else {
        let v = name[j] as u32;
        if v < 0x10000 {
            seq![(v / 0x100) as u8, (v % 0x100) as u8] + encode16_from(name, j + 1)
        } else {
            let d = v - 0x10000;
            let hi = 0xD800 + d / 0x400;
            let lo = 0xDC00 + d % 0x400;
            seq![
                (hi / 0x100) as u8,
                (hi % 0x100) as u8,
                (lo / 0x100) as u8,
                (lo % 0x100) as u8,
            ] + encode16_from(name, j + 1)
        }
    }
}

/// The compressed identifier carrying `name` under compression id 16.
pub open spec fn spec_encode_cs0_16(name: Seq<char>) -> Seq<u8> {
    seq![16u8] + encode16_from(name, 0)
}

/// Length and bytes of the single-byte encoding.
proof fn lemma_encode8_from_index(name: Seq<char>, j: int)
    requires
        0 <= j <= name.len(),
    ensures
        encode8_from(name, j).len() == name.len() - j,
        forall|t: int|
            j <= t < name.len() ==> encode8_from(name, j)[t - j] == ((name[t] as u32) as u8),
    decreases name.len() - j,
{
    if j < name.len() {
        lemma_encode8_from_index(name, j + 1);
    }
}

/// Decoding inverts the single-byte encoding, byte for byte.
proof fn lemma_decode8_of_encode(s: Seq<u8>, k: int, name: Seq<char>, j: int)
    requires
        0 <= j <= name.len(),
        0 <= k <= s.len(),
        s.len() - k == name.len() - j,
        forall|t: int| j <= t < name.len() ==> (name[t] as u32) < 256,
        forall|t: int| j <= t < name.len() ==> s[k + (t - j)] == ((name[t] as u32) as u8),
    ensures
        decode8_from(s, k) == name.subrange(j, name.len() as int),
    decreases name.len() - j,
{
    if j == name.len() {
        assert(decode8_from(s, k) =~= Seq::<char>::empty());
        assert(name.subrange(j, name.len() as int) =~= Seq::<char>::empty());
    } else {
        let v = name[j] as u32;
        assert(s[k] == ((name[j] as u32) as u8));
        assert(((v as u8) as u32) == v);
        char_u32_cast(name[j], v);
        lemma_decode8_of_encode(s, k + 1, name, j + 1);
        assert(decode8_from(s, k) == seq![(s[k] as u32) as char] + decode8_from(s, k + 1));
        assert(seq![name[j]] + name.subrange(j + 1, name.len() as int) =~= name.subrange(
            j,
            name.len() as int,
        ));
    }
}

/// Round-trip law for single-byte compression: a string of characters with
/// code points below 256, encoded under compression id 8, decodes to the
/// same string.
pub proof fn lemma_cs0_8_round_trip(name: Seq<char>)
    requires
        forall|t: int| 0 <= t < name.len() ==> (name[t] as u32) < 256,
    ensures
        spec_decode_cs0(spec_encode_cs0_8(name)) == Ok::<Seq<char>, UdfError>(name),
{
    let s = spec_encode_cs0_8(name);
    lemma_encode8_from_index(name, 0);
    assert(s[0] == 8);
    assert(forall|t: int|
        0 <= t < name.len() ==> s[1 + t] == #[trigger] encode8_from(name, 0)[t]);
    lemma_decode8_of_encode(s, 1, name, 0);
    assert(name.subrange(0, name.len() as int) =~= name);
}

/// Decoding inverts the UTF-16 encoding, unit for unit.
proof fn lemma_decode16_of_encode(name: Seq<char>, j: int, s: Seq<u8>, k: int)
    requires
        0 <= j <= name.len(),
        0 <= k <= s.len(),
        s.subrange(k, s.len() as int) == encode16_from(name, j),
    ensures
        decode16_from(s, k) == Ok::<Seq<char>, UdfError>(name.subrange(j, name.len() as int)),
    decreases name.len() - j,
{
    assert(s.subrange(k, s.len() as int).len() == s.len() - k);
    if j == name.len() {
        assert(s.len() == k);
        assert(decode16_from(s, k) == Ok::<Seq<char>, UdfError>(Seq::empty()));
        assert(name.subrange(j, name.len() as int) =~= Seq::<char>::empty());
    } else {
        let v = name[j] as u32;
        char_is_scalar(name[j]);
        let tail = encode16_from(name, j + 1);
        if v < 0x10000 {
            let b0 = (v / 0x100) as u8;
            let b1 = (v % 0x100) as u8;
            vstd::arithmetic::div_mod::lemma_fundamental_div_mod(v as int, 0x100);
            assert(s.len() - k == 2 + tail.len());
            assert(s.subrange(k, s.len() as int)[0] == b0);
            assert(s.subrange(k, s.len() as int)[1] == b1);
            assert(s.subrange(k, s.len() as int)[0] == s[k]);
            assert(s.subrange(k, s.len() as int)[1] == s[k + 1]);
            assert(s[k] == b0 && s[k + 1] == b1);
            assert(be16(s, k) == v);
            let u0 = be16(s, k);
            assert(u0 < 0xD800 || u0 >= 0xE000);
            char_u32_cast(name[j], v);
            assert((u0 as u32) as char == name[j]);
            assert forall|t: int| 0 <= t < tail.len() implies s.subrange(k + 2, s.len() as int)[t]
                == tail[t] by {
                assert(s.subrange(k, s.len() as int)[t + 2] == s[k + 2 + t]);
                assert(s.subrange(k + 2, s.len() as int)[t] == s[k + 2 + t]);
            }
            assert(s.subrange(k + 2, s.len() as int) =~= tail);
            lemma_decode16_of_encode(name, j + 1, s, k + 2);
            assert(seq![name[j]] + name.subrange(j + 1, name.len() as int) =~= name.subrange(
                j,
                name.len() as int,
            ));
        } else {
            let d = v - 0x10000;
            assert(d <= 0xFFFFF);
            vstd::arithmetic::div_mod::lemma_div_is_ordered(d, 0xFFFFF, 0x400);
            assert(0xFFFFF as int / 0x400 == 0x3FF);
            let hi = 0xD800 + d / 0x400;
            let lo = 0xDC00 + d % 0x400;
            assert(0xD800 <= hi < 0xDC00);
            assert(0xDC00 <= lo < 0xE000);
            vstd::arithmetic::div_mod::lemma_fundamental_div_mod(hi, 0x100);
            vstd::arithmetic::div_mod::lemma_fundamental_div_mod(lo, 0x100);
            assert(s.len() - k == 4 + tail.len());
            assert(s.subrange(k, s.len() as int)[0] == (hi / 0x100) as u8);
            assert(s.subrange(k, s.len() as int)[1] == (hi % 0x100) as u8);
            assert(s.subrange(k, s.len() as int)[2] == (lo / 0x100) as u8);
            assert(s.subrange(k, s.len() as int)[3] == (lo % 0x100) as u8);
            assert(s.subrange(k, s.len() as int)[0] == s[k]);
            assert(s.subrange(k, s.len() as int)[1] == s[k + 1]);
            assert(s.subrange(k, s.len() as int)[2] == s[k + 2]);
            assert(s.subrange(k, s.len() as int)[3] == s[k + 3]);
            let u0 = be16(s, k);
            let u1 = be16(s, k + 2);
            assert(u0 == hi);
            assert(u1 == lo);
            vstd::arithmetic::div_mod::lemma_fundamental_div_mod(d, 0x400);
            assert(0x10000 + (u0 - 0xD800) * 0x400 + (u1 - 0xDC00) == v);
            char_u32_cast(name[j], v);
            assert forall|t: int| 0 <= t < tail.len() implies s.subrange(k + 4, s.len() as int)[t]
                == tail[t] by {
                assert(s.subrange(k, s.len() as int)[t + 4] == s[k + 4 + t]);
                assert(s.subrange(k + 4, s.len() as int)[t] == s[k + 4 + t]);
            }
            assert(s.subrange(k + 4, s.len() as int) =~= tail);
            lemma_decode16_of_encode(name, j + 1, s, k + 4);
            assert(seq![name[j]] + name.subrange(j + 1, name.len() as int) =~= name.subrange(
                j,
                name.len() as int,
            ));
        }
    }
}

/// Round-trip law for 16-bit compression: any string, encoded as big-endian
/// UTF-16 code units under compression id 16, decodes to the same string;
/// supplementary characters travel as surrogate pairs.
pub proof fn lemma_cs0_16_round_trip(name: Seq<char>)
    ensures
        spec_decode_cs0(spec_encode_cs0_16(name)) == Ok::<Seq<char>, UdfError>(name),
{
    let s = spec_encode_cs0_16(name);
    assert(s[0] == 16);
    assert(s.subrange(1, s.len() as int) =~= encode16_from(name, 0));
    lemma_decode16_of_encode(name, 0, s, 1);
    assert(name.subrange(0, name.len() as int) =~= name);
}

/// The string named by a compressed identifier: a compression-id byte, then
/// the payload. Ids 8 and 254 carry single-byte characters, ids 16 and 255
/// carry 2-byte big-endian UTF-16 code units; anything else, an empty
/// identifier included, is a charset error.
pub open spec fn spec_decode_cs0(b: Seq<u8>) -> Result<Seq<char>, UdfError> {
    if b.len() == 0 {
        Err(UdfError::CharsetError)
    } else if b[0] == 8 || b[0] == 254 {
        Ok(decode8_from(b, 1))
    } else if b[0] == 16 || b[0] == 255 {
        decode16_from(b, 1)
    } else {
        Err(UdfError::CharsetError)
    }
}

/// Decodes a compressed identifier into the string it names.
pub fn decode_cs0(input: &[u8]) -> (r: Result<String, UdfError>)
    ensures
        spec_decode_cs0(input@) matches Ok(cs) ==> (r matches Ok(s) && s@ == cs),
        spec_decode_cs0(input@) matches Err(e) ==> r == Err::<String, UdfError>(e),
{
    if input.len() == 0 {
        return Err(UdfError::CharsetError);
    }
    let comp_id = input[0];
    if comp_id == 8 || comp_id == 254 {
        decode_latin1(input)
    } else if comp_id == 16 || comp_id == 255 {
        decode_utf16(input)
    } else {
        Err(UdfError::CharsetError)
    }
}

/// Decodes the payload of a single-byte-compressed identifier.
fn decode_latin1(input: &[u8]) -> (r: Result<String, UdfError>)
    requires
        input@.len() >= 1,
    ensures
        r matches Ok(s) && s@ == decode8_from(input@, 1),
{
    let mut out = String::new();
    let mut i: usize = 1;
    while i < input.len()
        invariant
            1 <= i <= input@.len(),
            decode8_from(input@, 1) == out@ + decode8_from(input@, i as int),
        decreases input@.len() - i,
    {
        let b = input[i];
        proof {
            assert(vstd::utf8::is_scalar(b as u32));
        }
        let c = char::from_u32(b as u32).unwrap();
        proof {
            vstd::utf8::char_u32_cast(c, b as u32);
            assert(decode8_from(input@, i as int) == seq![(input@[i as int] as u32) as char]
                + decode8_from(input@, i + 1));
        }
        let ghost old_out = out@;
        out.push(c);
        proof {
            assert(out@ + decode8_from(input@, i + 1) == (old_out + seq![c]) + decode8_from(
                input@,
                i + 1,
            ));
            assert((old_out + seq![c]) + decode8_from(input@, i + 1) =~= old_out + (seq![c]
                + decode8_from(input@, i + 1)));
        }
        i = i + 1;
    }
    proof {
        assert(decode8_from(input@, i as int) =~= Seq::<char>::empty());
        assert(out@ + Seq::<char>::empty() =~= out@);
    }
    Ok(out)
}

/// Decodes the payload of a 16-bit-compressed identifier.
fn decode_utf16(input: &[u8]) -> (r: Result<String, UdfError>)
    requires
        input@.len() >= 1,
    ensures
        decode16_from(input@, 1) matches Ok(cs) ==> (r matches Ok(s) && s@ == cs),
        decode16_from(input@, 1) matches Err(e) ==> r == Err::<String, UdfError>(e),
{
    let mut out = String::new();
    let mut i: usize = 1;
    proof {
        assert(forall|r0: Seq<char>| Seq::<char>::empty() + r0 =~= r0);
    }
    while i < input.len()
        invariant
            1 <= i <= input@.len(),
            ({
                let full = decode16_from(input@, 1);
                let rest = decode16_from(input@, i as int);
                full == match rest {
                    Ok(r0) => Ok::<Seq<char>, UdfError>(out@ + r0),
                    Err(e) => Err::<Seq<char>, UdfError>(e),
                }
            }),
        decreases input@.len() - i,
    {
        if input.len() - i < 2 {
            return Err(UdfError::CharsetError);
        }
        let u0: u16 = input[i] as u16 * 0x100 + input[i + 1] as u16;
        proof {
            assert(u0 == be16(input@, i as int));
        }
        if u0 < 0xD800 || u0 >= 0xE000 {
            proof {
                assert(vstd::utf8::is_scalar(u0 as u32));
            }
            let c = char::from_u32(u0 as u32).unwrap();
            let ghost old_out = out@;
            out.push(c);
            proof {
                vstd::utf8::char_u32_cast(c, u0 as u32);
                assert(decode16_from(input@, i as int) == (match decode16_from(input@, i + 2) {
                    Ok(cs) => Ok::<Seq<char>, UdfError>(seq![(u0 as u32) as char] + cs),
                    Err(e) => Err::<Seq<char>, UdfError>(e),
                }));
                assert(out@ =~= old_out + seq![c]);
                assert(forall|rest: Seq<char>|
                    (old_out + seq![c]) + rest =~= old_out + (seq![c] + rest));
            }
            i = i + 2;
        } else if u0 < 0xDC00 {
            if input.len() - i < 4 {
                return Err(UdfError::CharsetError);
            }
            let u1: u16 = input[i + 2] as u16 * 0x100 + input[i + 3] as u16;
            proof {
                assert(u1 == be16(input@, i + 2));
            }
            if 0xDC00 <= u1 && u1 < 0xE000 {
                let cp: u32 = 0x10000 + (u0 - 0xD800) as u32 * 0x400 + (u1 - 0xDC00) as u32;
                proof {
                    assert(vstd::utf8::is_scalar(cp));
                }
                let c = char::from_u32(cp).unwrap();
                let ghost old_out = out@;
                out.push(c);
                proof {
                    vstd::utf8::char_u32_cast(c, cp);
                    assert(decode16_from(input@, i as int) == (match decode16_from(
                        input@,
                        i + 4,
                    ) {
                        Ok(cs) => Ok::<Seq<char>, UdfError>(
                            seq![((0x10000 + (u0 - 0xD800) * 0x400 + (u1 - 0xDC00)) as u32) as char]
                                + cs,
                        ),
                        Err(e) => Err::<Seq<char>, UdfError>(e),
                    }));
                    assert(cp == (0x10000 + (u0 - 0xD800) * 0x400 + (u1 - 0xDC00)) as u32);
                    assert(out@ =~= old_out + seq![c]);
                    assert(forall|rest: Seq<char>|
                        (old_out + seq![c]) + rest =~= old_out + (seq![c] + rest));
                }
                i = i + 4;
            } else {
                return Err(UdfError::CharsetError);
            }
        } else {
            return Err(UdfError::CharsetError);
        }
    }
    proof {
        assert(decode16_from(input@, i as int) == Ok::<Seq<char>, UdfError>(Seq::empty()));
        assert(out@ + Seq::<char>::empty() =~= out@);
    }
    Ok(out)
}

} // verus!
