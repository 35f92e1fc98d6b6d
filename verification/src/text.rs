//! Text helpers: whitespace trimming, decimal parsing of a candidate PIN,
//! and the decimal display forms of a host PIN.

use vstd::prelude::*;

use vstd::string::StrSliceExecFns;
use vstd::string::StringExecFns;

verus! {

/// Whether a character has the White_Space property, as `str::trim`
/// understands it.
pub open spec fn spec_is_space(c: char) -> bool {
    ||| c == '\u{0009}'
    ||| c == '\u{000A}'
    ||| c == '\u{000B}'
    ||| c == '\u{000C}'
    ||| c == '\u{000D}'
    ||| c == ' '
    ||| c == '\u{0085}'
    ||| c == '\u{00A0}'
    ||| c == '\u{1680}'
    ||| ('\u{2000}' <= c && c <= '\u{200A}')
    ||| c == '\u{2028}'
    ||| c == '\u{2029}'
    ||| c == '\u{202F}'
    ||| c == '\u{205F}'
    ||| c == '\u{3000}'
}

/// A sequence with its leading whitespace removed.
pub open spec fn spec_trim_front(s: Seq<char>) -> Seq<char>
    decreases s.len(),
{
    if s.len() > 0 && spec_is_space(s[0]) {
        spec_trim_front(s.drop_first())
    } else {
        s
    }
}

/// A sequence with its trailing whitespace removed.
pub open spec fn spec_trim_back(s: Seq<char>) -> Seq<char>
    decreases s.len(),
{
    if s.len() > 0 && spec_is_space(s[s.len() - 1]) {
        spec_trim_back(s.drop_last())
    } else {
        s
    }
}

/// A sequence with leading and trailing whitespace removed.
pub open spec fn spec_trim(s: Seq<char>) -> Seq<char> {
    spec_trim_back(spec_trim_front(s))
}

/// Whether a character is a decimal digit.
pub open spec fn spec_is_digit(c: char) -> bool {
    '0' <= c && c <= '9'
}

/// The value of a decimal digit character.
pub open spec fn spec_digit_val(c: char) -> int {
    c as u8 - 0x30
}

/// Whether every character of a sequence is a decimal digit.
pub open spec fn spec_all_digits(s: Seq<char>) -> bool {
    forall|j: int| 0 <= j < s.len() ==> spec_is_digit(#[trigger] s[j])
}

/// The value of a sequence of decimal digits.
pub open spec fn spec_dec_val(s: Seq<char>) -> int
    decreases s.len(),
{
    if s.len() == 0 {
        0
    } else {
        spec_dec_val(s.drop_last()) * 10 + spec_digit_val(s[s.len() - 1])
    }
}

/// What parsing a string as an `i32` yields: optional whitespace around an
/// optional sign followed by one or more digits, provided the value fits.
pub open spec fn spec_parse_i32(s: Seq<char>) -> Option<i32> {
    let t = spec_trim(s);
    let neg = t.len() > 0 && t[0] == '-';
    let ds = if t.len() > 0 && (t[0] == '-' || t[0] == '+') {
        t.drop_first()
    } else {
        t
    };
    if ds.len() == 0 || !spec_all_digits(ds) {
        None
    } else {
        let v = if neg {
            -spec_dec_val(ds)
        } else {
            spec_dec_val(ds)
        };
        if -0x8000_0000 <= v <= 0x7fff_ffff {
            Some(v as i32)
        } else {
            None
        }
    }
}

proof fn lemma_dec_val_nonneg(s: Seq<char>)
    requires
        spec_all_digits(s),
    ensures
        spec_dec_val(s) >= 0,
    decreases s.len(),
{
    if s.len() > 0 {
        assert(spec_all_digits(s.drop_last()));
        lemma_dec_val_nonneg(s.drop_last());
    }
}

proof fn lemma_dec_val_take_step(s: Seq<char>, k: int)
    requires
        0 <= k < s.len(),
    ensures
        spec_dec_val(s.take(k + 1)) == spec_dec_val(s.take(k)) * 10 + spec_digit_val(s[k]),
{
    assert(s.take(k + 1).drop_last() =~= s.take(k));
    assert(s.take(k + 1)[k] == s[k]);
}

proof fn lemma_dec_val_prefix_bound(s: Seq<char>, k: int)
    requires
        spec_all_digits(s),
        0 <= k <= s.len(),
    ensures
        spec_dec_val(s) >= spec_dec_val(s.take(k)),
    decreases s.len() - k,
{
    if k < s.len() {
        lemma_dec_val_take_step(s, k);
        assert(spec_all_digits(s.take(k)));
        lemma_dec_val_nonneg(s.take(k));
        lemma_dec_val_prefix_bound(s, k + 1);
        assert(s[k] as u8 >= 0x30);
    } else {
        assert(s.take(k) =~= s);
    }
}

proof fn lemma_trim_front_skip(s: Seq<char>, a: int)
    requires
        0 <= a <= s.len(),
        forall|j: int| 0 <= j < a ==> spec_is_space(#[trigger] s[j]),
        a == s.len() || !spec_is_space(s[a]),
    ensures
        spec_trim_front(s) == s.skip(a),
    decreases a,
{
    if a == 0 {
        assert(s.skip(0) =~= s);
    } else {
        lemma_trim_front_skip(s.drop_first(), a - 1);
        assert(s.drop_first().skip(a - 1) =~= s.skip(a));
    }
}

proof fn lemma_trim_back_take(t: Seq<char>, b: int)
    requires
        0 <= b <= t.len(),
        forall|j: int| b <= j < t.len() ==> spec_is_space(#[trigger] t[j]),
        b == 0 || !spec_is_space(t[b - 1]),
    ensures
        spec_trim_back(t) == t.take(b),
    decreases t.len(),
{
    if b == t.len() {
        assert(t.take(b) =~= t);
    } else {
        lemma_trim_back_take(t.drop_last(), b);
        assert(t.drop_last().take(b) =~= t.take(b));
    }
}

/// Whether a character has the White_Space property.
pub fn is_space_char(c: char) -> (r: bool)
    ensures
        r == spec_is_space(c),
{
    c == '\u{0009}' || c == '\u{000A}' || c == '\u{000B}' || c == '\u{000C}' || c == '\u{000D}'
        || c == ' ' || c == '\u{0085}' || c == '\u{00A0}' || c == '\u{1680}' || ('\u{2000}' <= c
        && c <= '\u{200A}') || c == '\u{2028}' || c == '\u{2029}' || c == '\u{202F}' || c
        == '\u{205F}' || c == '\u{3000}'
}

/// Parse a string as an `i32`, accepting optional surrounding whitespace
/// and an optional leading sign, exactly when the digits fit the type.
pub fn parse_i32(s: &str) -> (r: Option<i32>)
    ensures
        r == spec_parse_i32(s@),
{
    let n = s.unicode_len();
    let ghost sv = s@;

    // Strip leading whitespace.
    let mut a: usize = 0;
    while a < n && is_space_char(s.get_char(a))
        invariant
            sv == s@,
            0 <= a <= n,
            n == sv.len(),
            forall|j: int| 0 <= j < a ==> spec_is_space(#[trigger] sv[j]),
        decreases n - a,
    {
        a += 1;
    }
    proof {
        lemma_trim_front_skip(sv, a as int);
    }
    let ghost t = sv.skip(a as int);

    // Strip trailing whitespace.
    let mut b: usize = n;
    while b > a && is_space_char(s.get_char(b - 1))
        invariant
            sv == s@,
            a <= b <= n,
            n == sv.len(),
            spec_trim_front(sv) == t,
            t == sv.skip(a as int),
            forall|j: int| b <= j < n ==> spec_is_space(#[trigger] sv[j]),
        decreases b,
    {
        b -= 1;
    }
    proof {
        assert(forall|j: int| #![auto] (b - a) <= j < t.len() ==> t[j] == sv[j + a]);
        lemma_trim_back_take(t, b - a);
    }
    let ghost tr = t.take(b - a);
    proof {
        assert(spec_trim(sv) == tr);
    }

    // Optional sign.
    let mut neg = false;
    let mut i: usize = a;
    if b > a {
        let c0 = s.get_char(a);
        if c0 == '-' {
            neg = true;
            i = a + 1;
        } else if c0 == '+' {
            i = a + 1;
        }
    }
    let ghost ds = sv.subrange(i as int, b as int);
    proof {
        if tr.len() > 0 && (tr[0] == '-' || tr[0] == '+') {
            assert(ds =~= tr.drop_first());
        } else {
            assert(ds =~= tr);
        }
        assert(neg == (tr.len() > 0 && tr[0] == '-'));
    }

    if i == b {
        // No digits at all.
        return None;
    }

    // Accumulate the digit values; bail out once the value cannot fit.
    let mut acc: u64 = 0;
    let mut k: usize = i;
    while k < b
        invariant
            sv == s@,
            i <= k <= b <= n,
            i < b,
            n == sv.len(),
            tr == spec_trim(sv),
            neg == (tr.len() > 0 && tr[0] == '-'),
            ds == (if tr.len() > 0 && (tr[0] == '-' || tr[0] == '+') {
                tr.drop_first()
            } else {
                tr
            }),
            ds == sv.subrange(i as int, b as int),
            forall|j: int| i <= j < k ==> spec_is_digit(#[trigger] sv[j]),
            spec_all_digits(ds.take(k - i)),
            acc == spec_dec_val(ds.take(k - i)),
            acc <= 0xFFFF_FFFF,
        decreases b - k,
    {
        let c = s.get_char(k);
        if c < '0' || c > '9' {
            proof {
                assert(ds[k - i] == sv[k as int]);
                assert(!spec_is_digit(ds[k - i]));
            }
            return None;
        }
        let d: u64 = (c as u8 - 0x30) as u64;
        proof {
            assert(spec_is_digit(sv[k as int]));
            assert(ds[k - i] == sv[k as int]);
            lemma_dec_val_take_step(ds, k - i);
            assert(ds.take(k - i + 1).take(k - i) =~= ds.take(k - i));
        }
        acc = acc * 10 + d;
        k += 1;
        if acc > 0xFFFF_FFFF {
            proof {
                // The value can only grow with further digits, so parsing
                // is bound to overflow an i32 whatever follows.
                assert(spec_all_digits(ds.take(k - i)));
                if spec_all_digits(ds) {
                    lemma_dec_val_prefix_bound(ds, k - i);
                }
            }
            return None;
        }
    }
    proof {
        assert(ds.take(b - i) =~= ds);
        assert(spec_all_digits(ds));
        assert(acc == spec_dec_val(ds));
    }

    if neg {
        if acc > 0x8000_0000 {
            None
        } else {
            Some((-(acc as i64)) as i32)
        }
    } else {
        if acc > 0x7FFF_FFFF {
            None
        } else {
            Some(acc as i32)
        }
    }
}

/// The character for a decimal digit value.
pub open spec fn spec_digit_char(d: int) -> char {
    if d == 0 {
        '0'
    } else if d == 1 {
        '1'
    } else if d == 2 {
        '2'
    } else if d == 3 {
        '3'
    } else if d == 4 {
        '4'
    } else if d == 5 {
        '5'
    } else if d == 6 {
        '6'
    } else if d == 7 {
        '7'
    } else if d == 8 {
        '8'
    } else {
        '9'
    }
}

/// Append the character for a single decimal digit to a string.
pub fn append_digit(s: &mut String, d: u32)
    requires
        d < 10,
    ensures
        final(s)@ == old(s)@ + seq![spec_digit_char(d as int)],
{
    if d == 0 {
        s.append("0");
        proof {
            reveal_strlit("0");
            assert(old(s)@ + "0"@ =~= old(s)@ + seq!['0']);
        }
    } else if d == 1 {
        s.append("1");
        proof {
            reveal_strlit("1");
            assert(old(s)@ + "1"@ =~= old(s)@ + seq!['1']);
        }
    } else if d == 2 {
        s.append("2");
        proof {
            reveal_strlit("2");
            assert(old(s)@ + "2"@ =~= old(s)@ + seq!['2']);
        }
    } else if d == 3 {
        s.append("3");
        proof {
            reveal_strlit("3");
            assert(old(s)@ + "3"@ =~= old(s)@ + seq!['3']);
        }
    } else if d == 4 {
        s.append("4");
        proof {
            reveal_strlit("4");
            assert(old(s)@ + "4"@ =~= old(s)@ + seq!['4']);
        }
    } else if d == 5 {
        s.append("5");
        proof {
            reveal_strlit("5");
            assert(old(s)@ + "5"@ =~= old(s)@ + seq!['5']);
        }
    } else if d == 6 {
        s.append("6");
        proof {
            reveal_strlit("6");
            assert(old(s)@ + "6"@ =~= old(s)@ + seq!['6']);
        }
    } else if d == 7 {
        s.append("7");
        proof {
            reveal_strlit("7");
            assert(old(s)@ + "7"@ =~= old(s)@ + seq!['7']);
        }
    } else if d == 8 {
        s.append("8");
        proof {
            reveal_strlit("8");
            assert(old(s)@ + "8"@ =~= old(s)@ + seq!['8']);
        }
    } else {
        s.append("9");
        proof {
            reveal_strlit("9");
            assert(old(s)@ + "9"@ =~= old(s)@ + seq!['9']);
        }
    }
}

/// The eight decimal digits of a PIN in [10,000,000, 100,000,000).
pub open spec fn spec_pin_chars(n: int) -> Seq<char> {
    seq![
        spec_digit_char(n / 10000000 % 10),
        spec_digit_char(n / 1000000 % 10),
        spec_digit_char(n / 100000 % 10),
        spec_digit_char(n / 10000 % 10),
        spec_digit_char(n / 1000 % 10),
        spec_digit_char(n / 100 % 10),
        spec_digit_char(n / 10 % 10),
        spec_digit_char(n % 10),
    ]
}

/// The masked display of a PIN: four asterisks followed by its last four
/// decimal digits.
pub open spec fn spec_masked_pin_chars(n: int) -> Seq<char> {
    seq![
        '*',
        '*',
        '*',
        '*',
        spec_digit_char(n / 1000 % 10),
        spec_digit_char(n / 100 % 10),
        spec_digit_char(n / 10 % 10),
        spec_digit_char(n % 10),
    ]
}

/// The decimal display of an eight-digit PIN.
pub fn pin_to_string(pin: i32) -> (r: String)
    requires
        10_000_000 <= pin < 100_000_000,
    ensures
        r@ == spec_pin_chars(pin as int),
{
    let n = pin as u32;
    let mut s = String::new();
    append_digit(&mut s, n / 10000000 % 10);
    append_digit(&mut s, n / 1000000 % 10);
    append_digit(&mut s, n / 100000 % 10);
    append_digit(&mut s, n / 10000 % 10);
    append_digit(&mut s, n / 1000 % 10);
    append_digit(&mut s, n / 100 % 10);
    append_digit(&mut s, n / 10 % 10);
    append_digit(&mut s, n % 10);
    proof {
        assert(s@ =~= spec_pin_chars(pin as int));
    }
    s
}

/// The masked display of an eight-digit PIN.
pub fn masked_pin_string(pin: i32) -> (r: String)
    requires
        10_000_000 <= pin < 100_000_000,
    ensures
        r@ == spec_masked_pin_chars(pin as int),
{
    let n = pin as u32;
    let mut s = String::new();
    s.append("****");
    proof {
        reveal_strlit("****");
        assert(s@ =~= seq!['*', '*', '*', '*']);
    }
    append_digit(&mut s, n / 1000 % 10);
    append_digit(&mut s, n / 100 % 10);
    append_digit(&mut s, n / 10 % 10);
    append_digit(&mut s, n % 10);
    proof {
        assert(s@ =~= spec_masked_pin_chars(pin as int));
    }
    s
}

} // verus!
