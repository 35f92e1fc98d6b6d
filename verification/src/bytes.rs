//! Byte-level helpers shared by the wire codecs and the crypto layer:
//! comparison, zeroing, the offer-id hex codec and ASCII utilities.

use vstd::prelude::*;

verus! {

/// Compare two byte slices for equality.
pub fn bytes_eq(a: &[u8], b: &[u8]) -> (r: bool)
    ensures
        r == (a@ == b@),
{
    if a.len() != b.len() {
        return false;
    }
    let mut i: usize = 0;
    while i < a.len()
        invariant
            i <= a@.len(),
            a@.len() == b@.len(),
            forall|j: int| 0 <= j < i ==> a@[j] == b@[j],
        decreases a@.len() - i,
    {
        if a[i] != b[i] {
            return false;
        }
        i += 1;
    }
    proof {
        assert(a@ =~= b@);
    }
    true
}

/// Overwrite every byte of a buffer with zero.
pub fn zero_bytes(buf: &mut Vec<u8>)
    ensures
        final(buf)@.len() == old(buf)@.len(),
        forall|j: int| 0 <= j < final(buf)@.len() ==> final(buf)@[j] == 0u8,
{
    let n = buf.len();
    let mut i: usize = 0;
    while i < n
        invariant
            i <= n,
            buf@.len() == n,
            forall|j: int| 0 <= j < i ==> buf@[j] == 0u8,
        decreases n - i,
    {
        buf.set(i, 0u8);
        i += 1;
    }
}

/// Copy a byte slice into a fresh vector.
pub fn copy_bytes(src: &[u8]) -> (r: Vec<u8>)
    ensures
        r@ == src@,
{
    let mut out: Vec<u8> = Vec::new();
    let mut i: usize = 0;
    while i < src.len()
        invariant
            i <= src@.len(),
            out@ == src@.take(i as int),
        decreases src@.len() - i,
    {
        out.push(src[i]);
        proof {
            assert(src@.take(i + 1) =~= src@.take(i as int).push(src@[i as int]));
        }
        i += 1;
    }
    proof {
        assert(src@.take(src@.len() as int) =~= src@);
    }
    out
}

/// The lowercase hex character (as an ASCII byte) for a value below 16.
pub open spec fn spec_hex_digit(v: u8) -> u8
    recommends
        v < 16,
{
    if v < 10 {
        (0x30 + v) as u8
    } else {
        (0x57 + v) as u8
    }
}

/// Whether an ASCII byte is a lowercase hex digit (`0-9` or `a-f`).
pub open spec fn spec_is_hex_char(c: u8) -> bool {
    (0x30 <= c && c <= 0x39) || (0x61 <= c && c <= 0x66)
}

/// The value of a lowercase hex digit.
pub open spec fn spec_hex_val(c: u8) -> u8
    recommends
        spec_is_hex_char(c),
{
    if c <= 0x39 {
        (c - 0x30) as u8
    } else {
        ((c - 0x61) + 10) as u8
    }
}

/// The lowercase hex encoding of a byte sequence: two digits per byte.
pub open spec fn spec_hex_of(b: Seq<u8>) -> Seq<u8>
    decreases b.len(),
{
    if b.len() == 0 {
        Seq::empty()
    } else {
        seq![spec_hex_digit(b[0] / 16), spec_hex_digit(b[0] % 16)] + spec_hex_of(b.drop_first())
    }
}

/// Whether a byte sequence is a well-formed lowercase hex string of the
/// given number of digits.
pub open spec fn spec_is_hex(h: Seq<u8>, digits: nat) -> bool {
    h.len() == digits && forall|j: int| 0 <= j < h.len() ==> spec_is_hex_char(#[trigger] h[j])
}

/// The bytes denoted by a well-formed lowercase hex string of even length.
pub open spec fn spec_hex_to_bytes(h: Seq<u8>) -> Seq<u8>
    decreases h.len(),
{
    if h.len() < 2 {
        Seq::empty()
    } else {
        seq![(spec_hex_val(h[0]) * 16 + spec_hex_val(h[1])) as u8] + spec_hex_to_bytes(
            h.skip(2),
        )
    }
}

proof fn lemma_hex_of_len(b: Seq<u8>)
    ensures
        spec_hex_of(b).len() == 2 * b.len(),
    decreases b.len(),
{
    if b.len() > 0 {
        lemma_hex_of_len(b.drop_first());
    }
}

proof fn lemma_hex_of_is_hex(b: Seq<u8>)
    ensures
        spec_is_hex(spec_hex_of(b), 2 * b.len()),
    decreases b.len(),
{
    lemma_hex_of_len(b);
    if b.len() > 0 {
        lemma_hex_of_is_hex(b.drop_first());
        assert forall|j: int| 0 <= j < spec_hex_of(b).len() implies spec_is_hex_char(
            #[trigger] spec_hex_of(b)[j],
        ) by {
            if j >= 2 {
                assert(spec_hex_of(b)[j] == spec_hex_of(b.drop_first())[j - 2]);
            }
        }
    }
}

/// Decoding inverts encoding: reading the hex form of `b` back gives `b`.
pub proof fn lemma_hex_round_trip(b: Seq<u8>)
    ensures
        spec_hex_of(b).len() == 2 * b.len(),
        spec_is_hex(spec_hex_of(b), 2 * b.len()),
        spec_hex_to_bytes(spec_hex_of(b)) == b,
    decreases b.len(),
{
    lemma_hex_of_len(b);
    lemma_hex_of_is_hex(b);
    if b.len() == 0 {
        assert(spec_hex_to_bytes(spec_hex_of(b)) =~= b);
    } else {
        lemma_hex_round_trip(b.drop_first());
        let h = spec_hex_of(b);
        assert(h.skip(2) =~= spec_hex_of(b.drop_first()));
        assert(spec_hex_val(h[0]) == b[0] / 16 && spec_hex_val(h[1]) == b[0] % 16);
        assert((spec_hex_val(h[0]) * 16 + spec_hex_val(h[1])) as u8 == b[0]);
        assert(spec_hex_to_bytes(h) =~= b);
    }
}

/// Encoding inverts decoding: a well-formed even-length hex string is the
/// hex form of the bytes it denotes.
pub proof fn lemma_hex_inverse(h: Seq<u8>, digits: nat)
    requires
        spec_is_hex(h, digits),
        digits % 2 == 0,
    ensures
        spec_hex_to_bytes(h).len() == digits / 2,
        spec_hex_of(spec_hex_to_bytes(h)) == h,
    decreases h.len(),
{
    if h.len() == 0 {
        assert(spec_hex_of(spec_hex_to_bytes(h)) =~= h);
    } else {
        assert(spec_is_hex_char(h[0]) && spec_is_hex_char(h[1]));
        lemma_hex_inverse(h.skip(2), (digits - 2) as nat);
        let b = spec_hex_to_bytes(h);
        assert(b[0] == (spec_hex_val(h[0]) * 16 + spec_hex_val(h[1])) as u8);
        assert(b.drop_first() =~= spec_hex_to_bytes(h.skip(2)));
        assert(b[0] / 16 == spec_hex_val(h[0]) && b[0] % 16 == spec_hex_val(h[1]));
        assert(spec_hex_digit(b[0] / 16) == h[0] && spec_hex_digit(b[0] % 16) == h[1]);
        assert(spec_hex_of(b) =~= h);
    }
}

/// Encode a 16-byte offer id as its 32-character lowercase hex form.
pub fn offer_id_to_hex(id: &[u8]) -> (r: Vec<u8>)
    requires
        id@.len() == 16,
    ensures
        r@ == spec_hex_of(id@),
        r@.len() == 32,
{
    let mut out: Vec<u8> = Vec::new();
    let mut i: usize = 0;
    while i < id.len()
        invariant
            i <= id@.len(),
            id@.len() == 16,
            out@ == spec_hex_of(id@.take(i as int)),
            out@.len() == 2 * i,
        decreases id@.len() - i,
    {
        let b = id[i];
        let hi = b / 16;
        let lo = b % 16;
        let hi_c: u8 = if hi < 10 {
            0x30 + hi
        } else {
            0x57 + hi
        };
        let lo_c: u8 = if lo < 10 {
            0x30 + lo
        } else {
            0x57 + lo
        };
        out.push(hi_c);
        out.push(lo_c);
        proof {
            let t1 = id@.take(i + 1);
            lemma_hex_of_take_push(id@, i as int);
        }
        i += 1;
    }
    proof {
        assert(id@.take(16) =~= id@);
        lemma_hex_of_len(id@);
    }
    out
}

proof fn lemma_hex_of_take_push(b: Seq<u8>, i: int)
    requires
        0 <= i < b.len(),
    ensures
        spec_hex_of(b.take(i + 1)) == spec_hex_of(b.take(i)) + seq![
            spec_hex_digit(b[i] / 16),
            spec_hex_digit(b[i] % 16),
        ],
    decreases i,
{
    if i == 0 {
        assert(b.take(1) =~= seq![b[0]]);
        assert(b.take(1).drop_first() =~= Seq::<u8>::empty());
        assert(b.take(0) =~= Seq::<u8>::empty());
        assert(spec_hex_of(b.take(1)) =~= spec_hex_of(b.take(0)) + seq![
            spec_hex_digit(b[0] / 16),
            spec_hex_digit(b[0] % 16),
        ]);
    } else {
        lemma_hex_of_take_push(b.drop_first(), i - 1);
        assert(b.take(i + 1).drop_first() =~= b.drop_first().take(i));
        assert(b.take(i).drop_first() =~= b.drop_first().take(i - 1));
        assert(b.drop_first()[i - 1] == b[i]);
        assert(spec_hex_of(b.take(i + 1)) =~= spec_hex_of(b.take(i)) + seq![
            spec_hex_digit(b[i] / 16),
            spec_hex_digit(b[i] % 16),
        ]);
    }
}

/// Decode a 32-character lowercase hex string into the 16-byte offer id it
/// denotes; any other length or any non-hex character is rejected.
pub fn hex_to_offer_id(h: &[u8]) -> (r: Option<Vec<u8>>)
    ensures
        spec_is_hex(h@, 32) ==> (r is Some && r.unwrap()@ == spec_hex_to_bytes(h@)
            && r.unwrap()@.len() == 16),
        !spec_is_hex(h@, 32) ==> r is None,
{
    if h.len() != 32 {
        return None;
    }
    let mut out: Vec<u8> = Vec::new();
    let mut i: usize = 0;
    while i < 32
        invariant
            i <= 32,
            i % 2 == 0,
            h@.len() == 32,
            forall|j: int| 0 <= j < i ==> spec_is_hex_char(#[trigger] h@[j]),
            out@ == spec_hex_to_bytes(h@.take(i as int)),
            out@.len() == i / 2,
        decreases 32 - i,
    {
        let c0 = h[i];
        let c1 = h[i + 1];
        let v0 = match hex_char_val(c0) {
            Some(v) => v,
            None => {
                return None;
            },
        };
        let v1 = match hex_char_val(c1) {
            Some(v) => v,
            None => {
                return None;
            },
        };
        out.push(v0 * 16 + v1);
        proof {
            lemma_hex_to_bytes_take_push(h@, i as int);
        }
        i += 2;
    }
    proof {
        assert(h@.take(32) =~= h@);
    }
    Some(out)
}

proof fn lemma_hex_to_bytes_take_push(h: Seq<u8>, i: int)
    requires
        0 <= i,
        i + 2 <= h.len(),
        i % 2 == 0,
    ensures
        spec_hex_to_bytes(h.take(i + 2)) == spec_hex_to_bytes(h.take(i)) + seq![
            (spec_hex_val(h[i]) * 16 + spec_hex_val(h[i + 1])) as u8,
        ],
    decreases i,
{
    if i == 0 {
        assert(h.take(0) =~= Seq::<u8>::empty());
        assert(h.take(2).skip(2) =~= Seq::<u8>::empty());
        assert(h.take(2)[0] == h[0] && h.take(2)[1] == h[1]);
        assert(spec_hex_to_bytes(h.take(2)) =~= spec_hex_to_bytes(h.take(0)) + seq![
            (spec_hex_val(h[0]) * 16 + spec_hex_val(h[1])) as u8,
        ]);
    } else {
        lemma_hex_to_bytes_take_push(h.skip(2), i - 2);
        assert(h.take(i + 2).skip(2) =~= h.skip(2).take(i));
        assert(h.take(i).skip(2) =~= h.skip(2).take(i - 2));
        assert(h.skip(2)[i - 2] == h[i] && h.skip(2)[i - 1] == h[i + 1]);
        assert(spec_hex_to_bytes(h.take(i + 2)) =~= spec_hex_to_bytes(h.take(i)) + seq![
            (spec_hex_val(h[i]) * 16 + spec_hex_val(h[i + 1])) as u8,
        ]);
    }
}

/// An ASCII byte folded to lower case.
pub open spec fn spec_lower(b: u8) -> u8 {
    if 65 <= b && b <= 90 {
        (b + 32) as u8
    } else {
        b
    }
}

/// A byte sequence folded to ASCII lower case.
pub open spec fn spec_to_lower(s: Seq<u8>) -> Seq<u8> {
    Seq::new(s.len(), |i: int| spec_lower(s[i]))
}

/// Whether two byte sequences are equal up to ASCII case.
pub open spec fn spec_eq_ignore_case(a: Seq<u8>, b: Seq<u8>) -> bool {
    spec_to_lower(a) == spec_to_lower(b)
}

/// Whether a sequence occurs as a contiguous part of another.
pub open spec fn spec_contains_bytes(hay: Seq<u8>, needle: Seq<u8>) -> bool {
    exists|i: int|
        0 <= i <= hay.len() - needle.len() && #[trigger] hay.subrange(i, i + needle.len())
            == needle
}

/// An ASCII byte folded to lower case.
pub fn lower_byte(b: u8) -> (r: u8)
    ensures
        r == spec_lower(b),
{
    if 65 <= b && b <= 90 {
        b + 32
    } else {
        b
    }
}

/// Fold a byte slice to ASCII lower case.
pub fn to_lower_bytes(s: &[u8]) -> (r: Vec<u8>)
    ensures
        r@ == spec_to_lower(s@),
{
    let mut out: Vec<u8> = Vec::new();
    let mut i: usize = 0;
    while i < s.len()
        invariant
            i <= s@.len(),
            out@.len() == i,
            forall|j: int| 0 <= j < i ==> out@[j] == spec_lower(s@[j]),
        decreases s@.len() - i,
    {
        out.push(lower_byte(s[i]));
        i += 1;
    }
    proof {
        assert(out@ =~= spec_to_lower(s@));
    }
    out
}

/// Compare two byte slices for equality up to ASCII case.
pub fn eq_ignore_case_bytes(a: &[u8], b: &[u8]) -> (r: bool)
    ensures
        r == spec_eq_ignore_case(a@, b@),
{
    if a.len() != b.len() {
        proof {
            assert(spec_to_lower(a@).len() != spec_to_lower(b@).len());
        }
        return false;
    }
    let mut i: usize = 0;
    while i < a.len()
        invariant
            i <= a@.len(),
            a@.len() == b@.len(),
            forall|j: int| 0 <= j < i ==> spec_lower(a@[j]) == spec_lower(b@[j]),
        decreases a@.len() - i,
    {
        if lower_byte(a[i]) != lower_byte(b[i]) {
            proof {
                assert(spec_to_lower(a@)[i as int] != spec_to_lower(b@)[i as int]);
            }
            return false;
        }
        i += 1;
    }
    proof {
        assert(spec_to_lower(a@) =~= spec_to_lower(b@));
    }
    true
}

/// Whether the needle occurs at the given position of the haystack.
fn matches_at(hay: &[u8], needle: &[u8], at: usize) -> (r: bool)
    requires
        at + needle@.len() <= hay@.len(),
    ensures
        r == (hay@.subrange(at as int, at + needle@.len()) == needle@),
{
    let hn = hay.len();
    let nn = needle.len();
    let mut j: usize = 0;
    while j < nn
        invariant
            j <= nn,
            nn == needle@.len(),
            hn == hay@.len(),
            at + nn <= hn,
            forall|l: int| 0 <= l < j ==> hay@[at + l] == needle@[l],
        decreases nn - j,
    {
        if hay[at + j] != needle[j] {
            proof {
                assert(hay@.subrange(at as int, at + needle@.len())[j as int] != needle@[j as int]);
            }
            return false;
        }
        j += 1;
    }
    proof {
        assert(hay@.subrange(at as int, at + needle@.len()) =~= needle@);
    }
    true
}

/// Whether a byte slice contains another as a contiguous part.
pub fn contains_bytes(hay: &[u8], needle: &[u8]) -> (r: bool)
    ensures
        r == spec_contains_bytes(hay@, needle@),
{
    if needle.len() > hay.len() {
        return false;
    }
    if needle.len() == 0 {
        proof {
            assert(hay@.subrange(0, 0 + needle@.len() as int) =~= needle@);
            assert(spec_contains_bytes(hay@, needle@));
        }
        return true;
    }
    let hn = hay.len();
    let last = hn - needle.len();
    let mut i: usize = 0;
    while i <= last
        invariant
            i <= last + 1,
            hn == hay@.len(),
            needle@.len() >= 1,
            last == hay@.len() - needle@.len(),
            forall|l: int| 0 <= l < i ==> #[trigger] hay@.subrange(l, l + needle@.len())
                != needle@,
        decreases last + 1 - i,
    {
        if matches_at(hay, needle, i) {
            return true;
        }
        i += 1;
    }
    false
}

/// Whether a byte slice starts with the given prefix.
pub fn starts_with_bytes(s: &[u8], prefix: &[u8]) -> (r: bool)
    ensures
        r == (s@.len() >= prefix@.len() && s@.take(prefix@.len() as int) == prefix@),
{
    if prefix.len() > s.len() {
        return false;
    }
    let r = matches_at(s, prefix, 0);
    proof {
        assert(s@.subrange(0, prefix@.len() as int) =~= s@.take(prefix@.len() as int));
    }
    r
}

/// The value of a lowercase hex character, or `None` for any other byte.
pub fn hex_char_val(c: u8) -> (r: Option<u8>)
    ensures
        spec_is_hex_char(c) ==> r == Some(spec_hex_val(c)),
        !spec_is_hex_char(c) ==> r is None,
{
    if 0x30 <= c && c <= 0x39 {
        Some(c - 0x30)
    } else if 0x61 <= c && c <= 0x66 {
        Some(c - 0x61 + 10)
    } else {
        None
    }
}

} // verus!
