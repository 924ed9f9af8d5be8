//! Small verified text utilities shared by the other modules.

use vstd::prelude::*;
use vstd::string::StrSliceExecFns;

verus! {

/// The character sequence spelled by a sequence of ASCII bytes.
pub open spec fn chars_of_bytes(s: Seq<u8>) -> Seq<char> {
    s.map_values(|b: u8| b as char)
}

/// Relies on String::from_utf8: a vector of ASCII bytes is valid UTF-8
/// and decodes to exactly one character per byte.
#[verifier::external_body]
pub fn ascii_string(bytes: Vec<u8>) -> (r: String)
    requires
        forall|i: int| 0 <= i < bytes@.len() ==> bytes@[i] < 128,
    ensures
        r@ == chars_of_bytes(bytes@),
{
    String::from_utf8(bytes).unwrap()
}

/// Character-by-character string comparison.
pub fn str_eq(a: &str, b: &str) -> (r: bool)
    ensures
        r == (a@ == b@),
{
    let alen = a.unicode_len();
    let blen = b.unicode_len();
    if alen != blen {
        return false;
    }
    let mut i: usize = 0;
    while i < alen
        invariant
            i <= alen,
            alen == a@.len(),
            blen == b@.len(),
            alen == blen,
            forall|j: int| 0 <= j < i ==> a@[j] == b@[j],
        decreases alen - i,
    {
        if a.get_char(i) != b.get_char(i) {
            return false;
        }
        i += 1;
    }
    proof {
        assert(a@ =~= b@);
    }
    true
}

} // verus!

verus! {

// ===== Decimal rendering and parsing of machine integers =====

/// The canonical decimal digit values of `n`.
pub open spec fn dec_digits(n: nat) -> Seq<u8>
    decreases n,
{
    if n < 10 {
        seq![n as u8]
    } else {
        dec_digits(n / 10).push((n % 10) as u8)
    }
}

pub proof fn lemma_dec_digits_ok(n: nat)
    ensures
        crate::amount::digits_ok(dec_digits(n)),
        crate::amount::canonical(dec_digits(n)),
        n > 0 ==> dec_digits(n)[0] != 0,
    decreases n,
{
    if n >= 10 {
        lemma_dec_digits_ok(n / 10);
        assert(dec_digits(n)[0] == dec_digits(n / 10)[0]);
    }
}

/// `dec_digits(n)` denotes `n`.
pub proof fn lemma_dec_digits_val(n: nat)
    ensures
        crate::amount::val(dec_digits(n)) == n,
    decreases n,
{
    if n < 10 {
        crate::amount::lemma_val_single(n as u8);
    } else {
        lemma_dec_digits_val(n / 10);
        assert(dec_digits(n).drop_last() =~= dec_digits(n / 10));
    }
}

/// The decimal digit values of `v`, most significant first.
pub fn u64_to_dec_digits(v: u64) -> (r: Vec<u8>)
    ensures
        r@ == dec_digits(v as nat),
    decreases v,
{
    if v < 10 {
        let mut r: Vec<u8> = Vec::new();
        r.push(v as u8);
        proof {
            assert(r@ =~= seq![v as u8]);
        }
        r
    } else {
        let mut r = u64_to_dec_digits(v / 10);
        r.push((v % 10) as u8);
        r
    }
}

/// Render `v` as a decimal numeral.
pub fn u64_to_string(v: u64) -> (r: String)
    ensures
        r@ == crate::amount::chars_of_digits(dec_digits(v as nat)),
{
    let digits = u64_to_dec_digits(v);
    proof {
        lemma_dec_digits_ok(v as nat);
    }
    crate::amount::digits_to_string(&digits)
}

/// Parse a decimal numeral as a `u64`: defined exactly for nonempty
/// all-digit strings whose value fits.
pub fn parse_u64(s: &str) -> (r: Option<u64>)
    ensures
        r is Some <==> s@.len() > 0 && crate::amount::all_digits(s@) && crate::amount::val(
            crate::amount::digit_vals(s@),
        ) < 0x1_0000_0000_0000_0000,
        r matches Some(v) ==> v == crate::amount::val(crate::amount::digit_vals(s@)),
{
    let n = s.unicode_len();
    if n == 0 {
        return None;
    }
    let mut acc: u128 = 0;
    let mut i: usize = 0;
    while i < n
        invariant
            i <= n,
            n == s@.len(),
            n > 0,
            forall|j: int| 0 <= j < i ==> crate::amount::is_digit_char(s@[j]),
            acc == crate::amount::val(crate::amount::digit_vals(s@.subrange(0, i as int))),
            acc <= 0xFFFF_FFFF_FFFF_FFFF,
        decreases n - i,
    {
        let c = s.get_char(i);
        let u = c as u32;
        if u < 48 || u > 57 {
            assert(!crate::amount::is_digit_char(s@[i as int]));
            return None;
        }
        let d = (u - 48) as u128;
        acc = acc * 10 + d;
        proof {
            let pre = crate::amount::digit_vals(s@.subrange(0, i as int));
            let cur = crate::amount::digit_vals(s@.subrange(0, (i + 1) as int));
            assert(cur.drop_last() =~= pre);
            assert(crate::amount::val(cur) == crate::amount::val(pre) * 10 + cur.last());
        }
        if acc > 0xFFFF_FFFF_FFFF_FFFF {
            proof {
                let cur = crate::amount::digit_vals(s@.subrange(0, (i + 1) as int));
                let whole = crate::amount::digit_vals(s@);
                assert(cur =~= whole.subrange(0, (i + 1) as int));
                crate::amount::lemma_val_prefix_le(whole, (i + 1) as int);
            }
            return None;
        }
        i += 1;
    }
    proof {
        assert(s@.subrange(0, n as int) =~= s@);
    }
    Some(acc as u64)
}

/// Parse a decimal numeral as a `u8`.
pub fn parse_u8(s: &str) -> (r: Option<u8>)
    ensures
        r is Some <==> s@.len() > 0 && crate::amount::all_digits(s@) && crate::amount::val(
            crate::amount::digit_vals(s@),
        ) < 256,
        r matches Some(v) ==> v == crate::amount::val(crate::amount::digit_vals(s@)),
{
    match parse_u64(s) {
        Some(v) => {
            if v <= 255 {
                Some(v as u8)
            } else {
                None
            }
        },
        None => None,
    }
}

// ===== Whitespace trimming =====

/// An ASCII whitespace character.
pub open spec fn is_space(c: char) -> bool {
    c == ' ' || c == '\t' || c == '\n' || c == '\r'
}

/// `s` with leading whitespace removed.
pub open spec fn trim_left(s: Seq<char>) -> Seq<char>
    decreases s.len(),
{
    if s.len() > 0 && is_space(s[0]) {
        trim_left(s.drop_first())
    } else {
        s
    }
}

/// `s` with trailing whitespace removed.
pub open spec fn trim_right(s: Seq<char>) -> Seq<char>
    decreases s.len(),
{
    if s.len() > 0 && is_space(s.last()) {
        trim_right(s.drop_last())
    } else {
        s
    }
}

/// `s` with surrounding whitespace removed.
pub open spec fn spec_trim(s: Seq<char>) -> Seq<char> {
    trim_right(trim_left(s))
}

pub proof fn lemma_trim_left_at(s: Seq<char>, a: int)
    requires
        0 <= a <= s.len(),
        forall|j: int| 0 <= j < a ==> is_space(s[j]),
        a < s.len() ==> !is_space(s[a]),
    ensures
        trim_left(s) =~= s.subrange(a, s.len() as int),
    decreases a,
{
    if a == 0 {
        assert(trim_left(s) =~= s.subrange(0, s.len() as int));
    } else {
        let rest = s.drop_first();
        assert(forall|j: int| 0 <= j < a - 1 ==> is_space(rest[j]));
        lemma_trim_left_at(rest, a - 1);
        assert(rest.subrange(a - 1, rest.len() as int) =~= s.subrange(a, s.len() as int));
    }
}

pub proof fn lemma_trim_right_at(s: Seq<char>, b: int)
    requires
        0 <= b <= s.len(),
        forall|j: int| b <= j < s.len() ==> is_space(s[j]),
        b > 0 ==> !is_space(s[b - 1]),
    ensures
        trim_right(s) =~= s.subrange(0, b),
    decreases s.len(),
{
    if s.len() > b {
        lemma_trim_right_at(s.drop_last(), b);
        assert(s.drop_last().subrange(0, b) =~= s.subrange(0, b));
    }
}

/// Whether `c` is ASCII whitespace.
fn is_space_char(c: char) -> (r: bool)
    ensures
        r == is_space(c),
{
    c == ' ' || c == '\t' || c == '\n' || c == '\r'
}

/// Remove surrounding ASCII whitespace.
pub fn trim_whitespace(s: &str) -> (r: String)
    ensures
        r@ == spec_trim(s@),
{
    let n = s.unicode_len();
    let mut a: usize = 0;
    while a < n && is_space_char(s.get_char(a))
        invariant
            a <= n,
            n == s@.len(),
            forall|j: int| 0 <= j < a ==> is_space(s@[j]),
        decreases n - a,
    {
        a += 1;
    }
    proof {
        lemma_trim_left_at(s@, a as int);
    }
    let mut b: usize = n;
    while b > a && is_space_char(s.get_char(b - 1))
        invariant
            a <= b <= n,
            n == s@.len(),
            a < n ==> !is_space(s@[a as int]),
            forall|j: int| b <= j < n ==> is_space(s@[j]),
        decreases b,
    {
        b -= 1;
    }
    let r = s.substring_char(a, b).to_owned();
    proof {
        let lt = trim_left(s@);
        assert(lt =~= s@.subrange(a as int, n as int));
        assert(forall|j: int| b - a <= j < lt.len() ==> is_space(lt[j]));
        if b > a {
            assert(!is_space(lt[b - a - 1]));
        }
        lemma_trim_right_at(lt, b - a);
        assert(lt.subrange(0, b - a) =~= s@.subrange(a as int, b as int));
    }
    r
}

} // verus!

verus! {

/// The lowercase form of an ASCII uppercase letter; other characters
/// are kept.
pub open spec fn lower_char(c: char) -> char {
    if 65 <= c as int <= 90 {
        ((c as int + 32) as u8) as char
    } else {
        c
    }
}

/// The sequence with every ASCII uppercase letter lowered.
pub open spec fn lower_chars(s: Seq<char>) -> Seq<char> {
    s.map_values(|c: char| lower_char(c))
}

/// Lower the ASCII uppercase letters of an ASCII string.
pub fn to_ascii_lowercase(s: &str) -> (r: String)
    requires
        vstd::string::is_ascii(s),
    ensures
        r@ == lower_chars(s@),
{
    let n = s.unicode_len();
    let mut bytes: Vec<u8> = Vec::new();
    let mut i: usize = 0;
    while i < n
        invariant
            i <= n,
            n == s@.len(),
            vstd::string::is_ascii(s),
            bytes@.len() == i,
            forall|j: int| 0 <= j < i ==> bytes@[j] < 128,
            forall|j: int| 0 <= j < i ==> #[trigger] bytes@[j] as char == lower_char(s@[j]),
        decreases n - i,
    {
        let c = s.get_char(i);
        let u = c as u32;
        proof {
            assert(vstd::utf8::is_ascii_chars(s@));
            assert(u < 128);
        }
        let b: u8 = if u >= 65 && u <= 90 {
            (u + 32) as u8
        } else {
            u as u8
        };
        bytes.push(b);
        i += 1;
    }
    let r = ascii_string(bytes);
    proof {
        assert(r@ =~= lower_chars(s@));
    }
    r
}

} // verus!
