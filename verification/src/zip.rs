//! The stored-layout zip records a bundle archive is written from: the
//! CRC-32 of an entry's bytes, the local and central file headers and the
//! end-of-central-directory record, each an exact byte function. The
//! worker that streams files through these stays outside the library;
//! only the bytes it writes are specified here.

use vstd::prelude::*;

use vstd::bytes::{lemma_auto_spec_u16_to_from_le_bytes, lemma_auto_spec_u32_to_from_le_bytes,
    spec_u16_to_le_bytes, spec_u32_to_le_bytes, u16_to_le_bytes, u32_to_le_bytes};

verus! {

/// One shift-and-conditional-xor round of the reflected CRC-32 update.
pub open spec fn spec_crc32_round(crc: u32) -> u32 {
    if crc & 1 == 1 {
        (crc >> 1) ^ 0xEDB8_8320u32
    } else {
        crc >> 1
    }
}

/// The CRC-32 state after the given number of rounds.
pub open spec fn spec_crc32_rounds(crc: u32, n: nat) -> u32
    decreases n,
{
    if n == 0 {
        crc
    } else {
        spec_crc32_round(spec_crc32_rounds(crc, (n - 1) as nat))
    }
}

/// The CRC-32 state after absorbing one byte: xor it in, then eight
/// rounds.
pub open spec fn spec_crc32_byte(crc: u32, b: u8) -> u32 {
    spec_crc32_rounds(crc ^ (b as u32), 8)
}

/// The CRC-32 state after absorbing a byte sequence.
pub open spec fn spec_crc32_fold(crc: u32, data: Seq<u8>) -> u32
    decreases data.len(),
{
    if data.len() == 0 {
        crc
    } else {
        spec_crc32_fold(spec_crc32_byte(crc, data[0]), data.drop_first())
    }
}

/// The CRC-32 checksum of a byte sequence — IEEE polynomial, reflected,
/// all-ones initial value and final complement — as the zip format
/// requires of each entry.
pub open spec fn spec_crc32(data: Seq<u8>) -> u32 {
    spec_crc32_fold(0xFFFF_FFFFu32, data) ^ 0xFFFF_FFFFu32
}

proof fn lemma_crc32_fold_snoc(crc: u32, s: Seq<u8>, b: u8)
    ensures
        spec_crc32_fold(crc, s.push(b)) == spec_crc32_byte(spec_crc32_fold(crc, s), b),
    decreases s.len(),
{
    let e = s.push(b);
    assert(e.len() == s.len() + 1);
    if s.len() == 0 {
        assert(e[0] == b);
        assert(e.drop_first() =~= Seq::<u8>::empty());
        assert(spec_crc32_fold(crc, e) == spec_crc32_fold(spec_crc32_byte(crc, b), e.drop_first()));
    } else {
        assert(e[0] == s[0]);
        assert(e.drop_first() =~= s.drop_first().push(b));
        assert(spec_crc32_fold(crc, e) == spec_crc32_fold(
            spec_crc32_byte(crc, s[0]),
            e.drop_first(),
        ));
        lemma_crc32_fold_snoc(spec_crc32_byte(crc, s[0]), s.drop_first(), b);
        assert(spec_crc32_fold(crc, s) == spec_crc32_fold(
            spec_crc32_byte(crc, s[0]),
            s.drop_first(),
        ));
    }
}

/// Compute the CRC-32 checksum of a byte slice.
pub fn crc32(data: &[u8]) -> (r: u32)
    ensures
        r == spec_crc32(data@),
{
    let n = data.len();
    let mut crc: u32 = 0xFFFF_FFFF;
    let mut i: usize = 0;
    while i < n
        invariant
            i <= n,
            n == data@.len(),
            crc == spec_crc32_fold(0xFFFF_FFFFu32, data@.take(i as int)),
        decreases n - i,
    {
        let b = data[i];
        let mut cur: u32 = crc ^ (b as u32);
        let mut j: usize = 0;
        while j < 8
            invariant
                j <= 8,
                cur == spec_crc32_rounds(crc ^ (b as u32), j as nat),
            decreases 8 - j,
        {
            cur = if cur & 1 == 1 {
                (cur >> 1) ^ 0xEDB8_8320
            } else {
                cur >> 1
            };
            j += 1;
        }
        proof {
            assert(cur == spec_crc32_byte(crc, data@[i as int]));
            lemma_crc32_fold_snoc(0xFFFF_FFFFu32, data@.take(i as int), data@[i as int]);
            assert(data@.take(i + 1) =~= data@.take(i as int).push(data@[i as int]));
        }
        crc = cur;
        i += 1;
    }
    proof {
        assert(data@.take(n as int) =~= data@);
    }
    crc ^ 0xFFFF_FFFF
}

/// Append a value in little-endian to a record under construction.
fn push_u16(out: &mut Vec<u8>, v: u16)
    ensures
        final(out)@ == old(out)@ + spec_u16_to_le_bytes(v),
{
    let b = u16_to_le_bytes(v);
    out.extend_from_slice(b.as_slice());
}

fn push_u32(out: &mut Vec<u8>, v: u32)
    ensures
        final(out)@ == old(out)@ + spec_u32_to_le_bytes(v),
{
    let b = u32_to_le_bytes(v);
    out.extend_from_slice(b.as_slice());
}

/// The local file header of one stored entry: magic, version 2.0, no
/// flags, the stored method, zeroed time and date, the CRC, equal
/// compressed and uncompressed sizes, the name length, no extra field,
/// then the name.
pub open spec fn spec_zip_local_header(name: Seq<u8>, crc: u32, size: u32) -> Seq<u8> {
    spec_u32_to_le_bytes(0x0403_4B50u32) + spec_u16_to_le_bytes(20u16) + spec_u16_to_le_bytes(0u16)
        + spec_u16_to_le_bytes(0u16) + spec_u16_to_le_bytes(0u16) + spec_u16_to_le_bytes(0u16)
        + spec_u32_to_le_bytes(crc) + spec_u32_to_le_bytes(size) + spec_u32_to_le_bytes(size)
        + spec_u16_to_le_bytes(name.len() as u16) + spec_u16_to_le_bytes(0u16) + name
}

/// Build the local file header of one stored entry.
pub fn zip_local_header(name: &[u8], crc: u32, size: u32) -> (r: Vec<u8>)
    requires
        name@.len() <= 0xFFFF,
    ensures
        r@ == spec_zip_local_header(name@, crc, size),
        r@.len() == 30 + name@.len(),
{
    let mut out: Vec<u8> = Vec::new();
    push_u32(&mut out, 0x0403_4B50);
    push_u16(&mut out, 20);
    push_u16(&mut out, 0);
    push_u16(&mut out, 0);
    push_u16(&mut out, 0);
    push_u16(&mut out, 0);
    push_u32(&mut out, crc);
    push_u32(&mut out, size);
    push_u32(&mut out, size);
    push_u16(&mut out, name.len() as u16);
    push_u16(&mut out, 0);
    out.extend_from_slice(name);
    proof {
        lemma_auto_spec_u16_to_from_le_bytes();
        lemma_auto_spec_u32_to_from_le_bytes();
        assert(out@ =~= spec_zip_local_header(name@, crc, size));
    }
    out
}

/// The central-directory header of one stored entry: magic, made-by and
/// needed versions 2.0, no flags, the stored method, zeroed time and
/// date, the CRC and sizes, the name length, no extra field or comment,
/// first disk, zeroed attributes, the local header's offset, then the
/// name.
pub open spec fn spec_zip_central_header(name: Seq<u8>, crc: u32, size: u32, offset: u32) -> Seq<
    u8,
> {
    spec_u32_to_le_bytes(0x0201_4B50u32) + spec_u16_to_le_bytes(20u16) + spec_u16_to_le_bytes(
        20u16,
    ) + spec_u16_to_le_bytes(0u16) + spec_u16_to_le_bytes(0u16) + spec_u16_to_le_bytes(0u16)
        + spec_u16_to_le_bytes(0u16) + spec_u32_to_le_bytes(crc) + spec_u32_to_le_bytes(size)
        + spec_u32_to_le_bytes(size) + spec_u16_to_le_bytes(name.len() as u16)
        + spec_u16_to_le_bytes(0u16) + spec_u16_to_le_bytes(0u16) + spec_u16_to_le_bytes(0u16)
        + spec_u16_to_le_bytes(0u16) + spec_u32_to_le_bytes(0u32) + spec_u32_to_le_bytes(offset)
        + name
}

/// Build the central-directory header of one stored entry.
pub fn zip_central_header(name: &[u8], crc: u32, size: u32, offset: u32) -> (r: Vec<u8>)
    requires
        name@.len() <= 0xFFFF,
    ensures
        r@ == spec_zip_central_header(name@, crc, size, offset),
        r@.len() == 46 + name@.len(),
{
    let mut out: Vec<u8> = Vec::new();
    push_u32(&mut out, 0x0201_4B50);
    push_u16(&mut out, 20);
    push_u16(&mut out, 20);
    push_u16(&mut out, 0);
    push_u16(&mut out, 0);
    push_u16(&mut out, 0);
    push_u16(&mut out, 0);
    push_u32(&mut out, crc);
    push_u32(&mut out, size);
    push_u32(&mut out, size);
    push_u16(&mut out, name.len() as u16);
    push_u16(&mut out, 0);
    push_u16(&mut out, 0);
    push_u16(&mut out, 0);
    push_u16(&mut out, 0);
    push_u32(&mut out, 0);
    push_u32(&mut out, offset);
    out.extend_from_slice(name);
    proof {
        lemma_auto_spec_u16_to_from_le_bytes();
        lemma_auto_spec_u32_to_from_le_bytes();
        assert(out@ =~= spec_zip_central_header(name@, crc, size, offset));
    }
    out
}

/// The end-of-central-directory record: magic, single disk, the entry
/// count twice, the central directory's size and offset, and no comment.
pub open spec fn spec_zip_end_of_central(count: u16, central_size: u32, central_offset: u32) -> Seq<
    u8,
> {
    spec_u32_to_le_bytes(0x0605_4B50u32) + spec_u16_to_le_bytes(0u16) + spec_u16_to_le_bytes(0u16)
        + spec_u16_to_le_bytes(count) + spec_u16_to_le_bytes(count) + spec_u32_to_le_bytes(
        central_size,
    ) + spec_u32_to_le_bytes(central_offset) + spec_u16_to_le_bytes(0u16)
}

/// Build the end-of-central-directory record.
pub fn zip_end_of_central(count: u16, central_size: u32, central_offset: u32) -> (r: Vec<u8>)
    ensures
        r@ == spec_zip_end_of_central(count, central_size, central_offset),
        r@.len() == 22,
{
    let mut out: Vec<u8> = Vec::new();
    push_u32(&mut out, 0x0605_4B50);
    push_u16(&mut out, 0);
    push_u16(&mut out, 0);
    push_u16(&mut out, count);
    push_u16(&mut out, count);
    push_u32(&mut out, central_size);
    push_u32(&mut out, central_offset);
    push_u16(&mut out, 0);
    proof {
        lemma_auto_spec_u16_to_from_le_bytes();
        lemma_auto_spec_u32_to_from_le_bytes();
        assert(out@ =~= spec_zip_end_of_central(count, central_size, central_offset));
    }
    out
}

} // verus!
