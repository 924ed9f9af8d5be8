//! Conversion between human-readable decimal amounts and raw on-chain
//! integer units, together with verified decimal arithmetic on digit
//! strings. Raw amounts are unsigned 256-bit integers; they are kept as
//! sequences of decimal digit values so that parsing, comparison and
//! addition can be verified exactly.

use vstd::prelude::*;
use vstd::string::StrSliceExecFns;
use crate::text::{ascii_string, chars_of_bytes};

verus! {

// ===== The mathematical model: sequences of decimal digit values =====

/// `c` is an ASCII decimal digit.
pub open spec fn is_digit_char(c: char) -> bool {
    48 <= c as int <= 57
}

/// The numeric value of an ASCII digit character.
pub open spec fn digit_of_char(c: char) -> u8 {
    (c as int - 48) as u8
}

/// Every character of `s` is an ASCII decimal digit.
pub open spec fn all_digits(s: Seq<char>) -> bool {
    forall|i: int| 0 <= i < s.len() ==> is_digit_char(s[i])
}

/// The digit values spelled by a digit-character sequence.
pub open spec fn digit_vals(s: Seq<char>) -> Seq<u8> {
    s.map_values(|c: char| digit_of_char(c))
}

/// The ASCII digit character for a digit value.
pub open spec fn char_of_digit(d: u8) -> char {
    ((d + 48) as u8) as char
}

/// The character sequence spelled by a sequence of digit values.
pub open spec fn chars_of_digits(d: Seq<u8>) -> Seq<char> {
    d.map_values(|v: u8| char_of_digit(v))
}

/// Every element of `s` is a decimal digit value.
pub open spec fn digits_ok(s: Seq<u8>) -> bool {
    forall|i: int| 0 <= i < s.len() ==> s[i] < 10
}

/// The number denoted by a big-endian sequence of digit values.
pub open spec fn val(s: Seq<u8>) -> nat
    decreases s.len(),
{
    if s.len() == 0 {
        0
    } else {
        (val(s.drop_last()) * 10 + s.last()) as nat
    }
}

/// Powers of ten.
pub open spec fn pow10(n: nat) -> nat
    decreases n,
{
    if n == 0 {
        1
    } else {
        10 * pow10((n - 1) as nat)
    }
}

/// A digit sequence with no leading zero, except that zero itself is
/// written with a single digit.
pub open spec fn canonical(s: Seq<u8>) -> bool {
    s.len() > 0 && (s.len() > 1 ==> s[0] != 0)
}

/// `s` with its leading zeros removed.
pub open spec fn strip0(s: Seq<u8>) -> Seq<u8>
    decreases s.len(),
{
    if s.len() > 0 && s[0] == 0 {
        strip0(s.drop_first())
    } else {
        s
    }
}

/// `s` with its leading zeros removed, keeping at least one digit.
pub open spec fn strip_keep1(s: Seq<u8>) -> Seq<u8> {
    if strip0(s).len() == 0 {
        seq![0u8]
    } else {
        strip0(s)
    }
}

// ===== Lemmas about the value function =====

pub proof fn lemma_pow10_pos(n: nat)
    ensures
        pow10(n) >= 1,
    decreases n,
{
    if n > 0 {
        lemma_pow10_pos((n - 1) as nat);
    }
}

pub proof fn lemma_pow10_mono(m: nat, n: nat)
    requires
        m <= n,
    ensures
        pow10(m) <= pow10(n),
    decreases n,
{
    if m < n {
        lemma_pow10_mono(m, (n - 1) as nat);
        lemma_pow10_pos((n - 1) as nat);
    }
}

/// The value of a one-digit sequence.
pub proof fn lemma_val_single(d: u8)
    ensures
        val(seq![d]) == d,
{
    let s = seq![d];
    assert(s.drop_last() =~= Seq::<u8>::empty());
    assert(val(s.drop_last()) == 0);
}

/// The value of a concatenation.
pub proof fn lemma_val_concat(a: Seq<u8>, b: Seq<u8>)
    ensures
        val(a + b) == val(a) * pow10(b.len()) + val(b),
    decreases b.len(),
{
    if b.len() == 0 {
        assert(a + b =~= a);
        assert(val(b) == 0);
        assert(pow10(0) == 1);
    } else {
        let b0 = b.drop_last();
        lemma_val_concat(a, b0);
        assert((a + b).drop_last() =~= a + b0);
        assert(val(a + b) == val(a) * pow10(b.len()) + val(b)) by (nonlinear_arith)
            requires
                val(a + b) == (val(a) * pow10(b0.len()) + val(b0)) * 10 + b.last(),
                val(b) == val(b0) * 10 + b.last(),
                pow10(b.len()) == 10 * pow10(b0.len()),
        ;
    }
}

/// A digit sequence of length `n` denotes a number below `pow10(n)`.
pub proof fn lemma_val_bound(s: Seq<u8>)
    requires
        digits_ok(s),
    ensures
        val(s) < pow10(s.len()),
    decreases s.len(),
{
    if s.len() > 0 {
        let s0 = s.drop_last();
        assert(digits_ok(s0));
        lemma_val_bound(s0);
        assert(val(s0) * 10 + s.last() < pow10(s0.len()) * 10) by (nonlinear_arith)
            requires
                val(s0) < pow10(s0.len()),
                s.last() < 10,
        ;
    }
}

/// A digit sequence with a nonzero leading digit denotes at least
/// `pow10(len - 1)`.
pub proof fn lemma_val_lower(s: Seq<u8>)
    requires
        s.len() > 0,
        s[0] != 0,
    ensures
        val(s) >= pow10((s.len() - 1) as nat),
{
    let head = seq![s[0]];
    let rest = s.drop_first();
    assert(head + rest =~= s);
    lemma_val_concat(head, rest);
    lemma_val_single(s[0]);
    assert(val(head) * pow10(rest.len()) >= pow10(rest.len())) by (nonlinear_arith)
        requires
            val(head) >= 1,
    ;
}

/// Removing leading zeros keeps the value, shortens the sequence, and
/// leaves a suffix whose leading digit (if any) is nonzero.
pub proof fn lemma_strip0(s: Seq<u8>)
    ensures
        val(strip0(s)) == val(s),
        strip0(s).len() <= s.len(),
        strip0(s).len() > 0 ==> strip0(s)[0] != 0,
        strip0(s) =~= s.subrange(s.len() - strip0(s).len(), s.len() as int),
        forall|i: int| 0 <= i < s.len() - strip0(s).len() ==> s[i] == 0,
    decreases s.len(),
{
    if s.len() > 0 && s[0] == 0 {
        let rest = s.drop_first();
        lemma_strip0(rest);
        assert(seq![s[0]] + rest =~= s);
        lemma_val_concat(seq![s[0]], rest);
        lemma_val_single(s[0]);
        assert(strip0(s) =~= s.subrange(s.len() - strip0(s).len(), s.len() as int));
    }
}

/// `strip_keep1` keeps the value and yields a canonical sequence.
pub proof fn lemma_strip_keep1(s: Seq<u8>)
    requires
        digits_ok(s),
    ensures
        val(strip_keep1(s)) == val(s),
        canonical(strip_keep1(s)),
        digits_ok(strip_keep1(s)),
    decreases s.len(),
{
    lemma_strip0(s);
    if strip0(s).len() == 0 {
        assert(strip_keep1(s) =~= seq![0u8]);
        lemma_val_single(0);
    } else {
        assert(forall|i: int|
            0 <= i < strip0(s).len() ==> strip0(s)[i] == s[s.len() - strip0(s).len() + i]);
    }
}

/// `strip0` of a sequence whose first `j` digits are zero and whose
/// digit `j`, if present, is not.
pub proof fn lemma_strip0_prefix(s: Seq<u8>, j: int)
    requires
        0 <= j <= s.len(),
        forall|i: int| 0 <= i < j ==> s[i] == 0,
        j < s.len() ==> s[j] != 0,
    ensures
        strip0(s) =~= s.subrange(j, s.len() as int),
    decreases j,
{
    if j == 0 {
        assert(strip0(s) =~= s.subrange(0, s.len() as int));
    } else {
        let rest = s.drop_first();
        assert(forall|i: int| 0 <= i < j - 1 ==> rest[i] == 0);
        lemma_strip0_prefix(rest, j - 1);
        assert(rest.subrange(j - 1, rest.len() as int) =~= s.subrange(j, s.len() as int));
    }
}

// ===== Executable helpers on digit vectors =====

/// Parse a string of ASCII digits into digit values.
pub fn digits_from_str(s: &str) -> (r: Option<Vec<u8>>)
    ensures
        r is Some <==> all_digits(s@),
        r matches Some(v) ==> v@ == digit_vals(s@),
{
    let n = s.unicode_len();
    let mut out: Vec<u8> = Vec::new();
    let mut i: usize = 0;
    while i < n
        invariant
            i <= n,
            n == s@.len(),
            out@.len() == i,
            forall|j: int| 0 <= j < i ==> is_digit_char(s@[j]),
            forall|j: int| 0 <= j < i ==> out@[j] == digit_of_char(s@[j]),
        decreases n - i,
    {
        let c = s.get_char(i);
        let u = c as u32;
        if u < 48 || u > 57 {
            assert(!is_digit_char(s@[i as int]));
            return None;
        }
        out.push((u - 48) as u8);
        i += 1;
    }
    proof {
        assert(out@ =~= digit_vals(s@));
    }
    Some(out)
}

/// Remove leading zeros, keeping at least one digit.
pub fn strip_leading(v: &Vec<u8>) -> (r: Vec<u8>)
    ensures
        r@ == strip_keep1(v@),
{
    let mut j: usize = 0;
    while j < v.len() && v[j] == 0
        invariant
            j <= v@.len(),
            forall|i: int| 0 <= i < j ==> v@[i] == 0,
        decreases v@.len() - j,
    {
        j += 1;
    }
    proof {
        lemma_strip0_prefix(v@, j as int);
    }
    if j == v.len() {
        let mut r: Vec<u8> = Vec::new();
        r.push(0);
        proof {
            assert(r@ =~= seq![0u8]);
        }
        r
    } else {
        let mut r: Vec<u8> = Vec::new();
        let mut i: usize = j;
        while i < v.len()
            invariant
                j <= i <= v@.len(),
                r@ =~= v@.subrange(j as int, i as int),
            decreases v@.len() - i,
        {
            r.push(v[i]);
            i += 1;
        }
        proof {
            assert(r@ =~= v@.subrange(j as int, v@.len() as int));
        }
        r
    }
}

/// Render digit values as a string of ASCII digits.
pub fn digits_to_string(v: &Vec<u8>) -> (r: String)
    requires
        digits_ok(v@),
    ensures
        r@ == chars_of_digits(v@),
{
    let mut bytes: Vec<u8> = Vec::new();
    let mut i: usize = 0;
    while i < v.len()
        invariant
            i <= v@.len(),
            digits_ok(v@),
            bytes@.len() == i,
            forall|j: int| 0 <= j < i ==> bytes@[j] == v@[j] + 48,
        decreases v@.len() - i,
    {
        bytes.push(v[i] + 48);
        i += 1;
    }
    let r = ascii_string(bytes);
    proof {
        assert(r@ =~= chars_of_digits(v@));
    }
    r
}

/// Digit characters and digit values are inverse renderings.
pub proof fn lemma_chars_of_digits_inverse(v: Seq<u8>)
    requires
        digits_ok(v),
    ensures
        all_digits(chars_of_digits(v)),
        digit_vals(chars_of_digits(v)) =~= v,
{
    assert forall|i: int| 0 <= i < v.len() implies is_digit_char(chars_of_digits(v)[i]) by {
        assert(chars_of_digits(v)[i] == char_of_digit(v[i]));
    }
}

} // verus!

verus! {

// ===== Ordering =====

/// A sequence of zero digits.
pub open spec fn zeros(k: nat) -> Seq<u8> {
    Seq::new(k, |i: int| 0u8)
}

pub proof fn lemma_val_zeros(k: nat)
    ensures
        val(zeros(k)) == 0,
    decreases k,
{
    if k > 0 {
        assert(zeros(k).drop_last() =~= zeros((k - 1) as nat));
        lemma_val_zeros((k - 1) as nat);
    }
}

/// Decompose the value of a suffix at its first digit.
pub proof fn lemma_val_suffix_step(s: Seq<u8>, i: int)
    requires
        0 <= i < s.len(),
    ensures
        val(s.subrange(i, s.len() as int)) == s[i] * pow10((s.len() - i - 1) as nat) + val(
            s.subrange(i + 1, s.len() as int),
        ),
{
    let head = seq![s[i]];
    let rest = s.subrange(i + 1, s.len() as int);
    assert(head + rest =~= s.subrange(i, s.len() as int));
    lemma_val_concat(head, rest);
    lemma_val_single(s[i]);
}

/// For equal-length digit sequences, lexicographic order at the first
/// difference decides numeric order.
pub proof fn lemma_val_lex(a: Seq<u8>, b: Seq<u8>, i: int)
    requires
        digits_ok(a),
        digits_ok(b),
        a.len() == b.len(),
        0 <= i < a.len(),
        forall|j: int| 0 <= j < i ==> a[j] == b[j],
        a[i] < b[i],
    ensures
        val(a) < val(b),
{
    let n = a.len() as int;
    let m = (n - i - 1) as nat;
    let p = pow10(m);
    let c = a.subrange(0, i);
    assert(c =~= b.subrange(0, i));
    let pa = a.subrange(0, i + 1);
    let pb = b.subrange(0, i + 1);
    let ra = a.subrange(i + 1, n);
    let rb = b.subrange(i + 1, n);
    assert(pa + ra =~= a);
    assert(pb + rb =~= b);
    lemma_val_concat(pa, ra);
    lemma_val_concat(pb, rb);
    assert(c + seq![a[i]] =~= pa);
    assert(c + seq![b[i]] =~= pb);
    lemma_val_concat(c, seq![a[i]]);
    lemma_val_concat(c, seq![b[i]]);
    lemma_val_single(a[i]);
    lemma_val_single(b[i]);
    assert(pow10(0) == 1);
    assert(pow10(1) == 10);
    assert(val(pa) < val(pb));
    assert(digits_ok(ra));
    lemma_val_bound(ra);
    assert(val(ra) < p);
    assert(val(pa) * p + val(ra) < val(pb) * p + val(rb)) by (nonlinear_arith)
        requires
            val(pa) < val(pb),
            val(ra) < p,
    ;
}

/// Numeric comparison of canonical digit sequences.
pub(crate) fn dec_lt(a: &Vec<u8>, b: &Vec<u8>) -> (r: bool)
    requires
        digits_ok(a@),
        digits_ok(b@),
        canonical(a@),
        canonical(b@),
    ensures
        r == (val(a@) < val(b@)),
{
    if a.len() < b.len() {
        proof {
            lemma_val_bound(a@);
            lemma_val_lower(b@);
            lemma_pow10_mono(a@.len(), (b@.len() - 1) as nat);
        }
        return true;
    }
    if a.len() > b.len() {
        proof {
            lemma_val_bound(b@);
            lemma_val_lower(a@);
            lemma_pow10_mono(b@.len(), (a@.len() - 1) as nat);
        }
        return false;
    }
    let mut i: usize = 0;
    while i < a.len()
        invariant
            i <= a@.len(),
            a@.len() == b@.len(),
            digits_ok(a@),
            digits_ok(b@),
            forall|j: int| 0 <= j < i ==> a@[j] == b@[j],
        decreases a@.len() - i,
    {
        let x = a[i];
        let y = b[i];
        if x < y {
            proof {
                lemma_val_lex(a@, b@, i as int);
            }
            return true;
        }
        if x > y {
            proof {
                lemma_val_lex(b@, a@, i as int);
            }
            return false;
        }
        i += 1;
    }
    proof {
        assert(a@ =~= b@);
    }
    false
}

// ===== Addition and multiplication =====

/// Extend a digit sequence with zeros at the front to length `n`.
pub(crate) fn pad_front(v: &Vec<u8>, n: usize) -> (r: Vec<u8>)
    requires
        v@.len() <= n,
    ensures
        r@ == zeros((n - v@.len()) as nat) + v@,
        r@.len() == n,
{
    let k = n - v.len();
    let mut r: Vec<u8> = Vec::new();
    let mut i: usize = 0;
    while i < k
        invariant
            i <= k,
            r@ =~= zeros(i as nat),
        decreases k - i,
    {
        r.push(0);
        proof {
            assert(r@ =~= zeros(i as nat).push(0u8));
            assert(zeros(i as nat).push(0u8) =~= zeros((i + 1) as nat));
        }
        i += 1;
    }
    let mut j: usize = 0;
    while j < v.len()
        invariant
            j <= v@.len(),
            r@ =~= zeros(k as nat) + v@.subrange(0, j as int),
            k + v@.len() == n,
        decreases v@.len() - j,
    {
        r.push(v[j]);
        proof {
            assert(r@ =~= zeros(k as nat) + v@.subrange(0, (j + 1) as int));
        }
        j += 1;
    }
    proof {
        assert(v@.subrange(0, v@.len() as int) =~= v@);
    }
    r
}

/// Padding with zeros at the front keeps the value.
pub proof fn lemma_pad_front_val(v: Seq<u8>, k: nat)
    ensures
        val(zeros(k) + v) == val(v),
{
    lemma_val_concat(zeros(k), v);
    lemma_val_zeros(k);
}

/// Add two digit sequences; the result is canonical.
pub(crate) fn dec_add(a: &Vec<u8>, b: &Vec<u8>) -> (r: Vec<u8>)
    requires
        digits_ok(a@),
        digits_ok(b@),
        a@.len() < 100_000,
        b@.len() < 100_000,
    ensures
        digits_ok(r@),
        canonical(r@),
        val(r@) == val(a@) + val(b@),
{
    let n = if a.len() > b.len() {
        a.len()
    } else {
        b.len()
    };
    let ap = pad_front(a, n);
    let bp = pad_front(b, n);
    proof {
        lemma_pad_front_val(a@, (n - a@.len()) as nat);
        lemma_pad_front_val(b@, (n - b@.len()) as nat);
    }
    let mut out: Vec<u8> = vec![0u8; n + 1];
    let mut carry: u8 = 0;
    let mut i: usize = n;
    while i > 0
        invariant
            i <= n,
            out@.len() == n + 1,
            ap@.len() == n,
            bp@.len() == n,
            digits_ok(ap@),
            digits_ok(bp@),
            carry <= 1,
            forall|j: int| i < j < n + 1 ==> out@[j] < 10,
            val(out@.subrange(i + 1, n + 1 as int)) + carry * pow10((n - i) as nat) == val(
                ap@.subrange(i as int, n as int),
            ) + val(bp@.subrange(i as int, n as int)),
        decreases i,
    {
        let ghost out_old = out@;
        let ghost carry_old = carry;
        let t = ap[i - 1] + bp[i - 1] + carry;
        out[i] = t % 10;
        carry = t / 10;
        proof {
            let ii = i as int;
            let nn = n as int;
            assert(out@.subrange(ii + 1, nn + 1) =~= out_old.subrange(ii + 1, nn + 1));
            lemma_val_suffix_step(out@, ii);
            lemma_val_suffix_step(ap@, ii - 1);
            lemma_val_suffix_step(bp@, ii - 1);
            assert(ap@[ii - 1] + bp@[ii - 1] + carry_old == carry * 10 + out@[ii]);
            assert(val(out@.subrange(ii, nn + 1)) + carry * pow10((n - i + 1) as nat) == val(
                ap@.subrange(ii - 1, nn),
            ) + val(bp@.subrange(ii - 1, nn))) by (nonlinear_arith)
                requires
                    val(out@.subrange(ii, nn + 1)) == out@[ii] * pow10((n - i) as nat) + val(
                        out@.subrange(ii + 1, nn + 1),
                    ),
                    val(ap@.subrange(ii - 1, nn)) == ap@[ii - 1] * pow10((n - i) as nat) + val(
                        ap@.subrange(ii, nn),
                    ),
                    val(bp@.subrange(ii - 1, nn)) == bp@[ii - 1] * pow10((n - i) as nat) + val(
                        bp@.subrange(ii, nn),
                    ),
                    val(out@.subrange(ii + 1, nn + 1)) + carry_old * pow10((n - i) as nat) == val(
                        ap@.subrange(ii, nn),
                    ) + val(bp@.subrange(ii, nn)),
                    ap@[ii - 1] + bp@[ii - 1] + carry_old == carry * 10 + out@[ii],
                    pow10((n - i + 1) as nat) == 10 * pow10((n - i) as nat),
            ;
        }
        i -= 1;
    }
    let ghost pre = out@;
    out[0] = carry;
    proof {
        assert(out@.subrange(1, n + 1 as int) =~= pre.subrange(1, n + 1 as int));
        lemma_val_suffix_step(out@, 0);
        assert(out@.subrange(0, n + 1 as int) =~= out@);
        assert(ap@.subrange(0, n as int) =~= ap@);
        assert(bp@.subrange(0, n as int) =~= bp@);
        assert(val(out@) == val(a@) + val(b@));
    }
    let r = strip_leading(&out);
    proof {
        lemma_strip_keep1(out@);
    }
    r
}

} // verus!

verus! {

pub proof fn lemma_pow10_add(m: nat, n: nat)
    ensures
        pow10(m) * pow10(n) == pow10(m + n),
    decreases n,
{
    if n == 0 {
        assert(pow10(0) == 1);
    } else {
        lemma_pow10_add(m, (n - 1) as nat);
        assert(pow10(m) * pow10(n) == pow10(m + n)) by (nonlinear_arith)
            requires
                pow10(m) * pow10((n - 1) as nat) == pow10((m + n - 1) as nat),
                pow10(n) == 10 * pow10((n - 1) as nat),
                pow10(m + n) == 10 * pow10((m + n - 1) as nat),
        ;
    }
}

/// A canonical digit sequence whose value is below `pow10(k)` has at
/// most `k` digits (except that zero is written with one digit).
pub proof fn lemma_canonical_len(s: Seq<u8>, k: nat)
    requires
        canonical(s),
        digits_ok(s),
        val(s) < pow10(k),
    ensures
        s.len() <= k || s.len() == 1,
{
    if s.len() > 1 {
        lemma_val_lower(s);
        if s.len() - 1 >= k {
            lemma_pow10_mono(k, (s.len() - 1) as nat);
        }
    }
}

/// Multiply two digit sequences; the result is canonical.
pub(crate) fn dec_mul(a: &Vec<u8>, b: &Vec<u8>) -> (r: Vec<u8>)
    requires
        digits_ok(a@),
        digits_ok(b@),
        a@.len() <= 1000,
        b@.len() <= 1000,
    ensures
        digits_ok(r@),
        canonical(r@),
        val(r@) == val(a@) * val(b@),
{
    let mut acc: Vec<u8> = Vec::new();
    acc.push(0);
    proof {
        lemma_val_single(0);
        assert(acc@ =~= seq![0u8]);
        assert(b@.subrange(0, 0) =~= Seq::<u8>::empty());
        assert(val(b@.subrange(0, 0)) == 0);
        assert(val(a@) * val(b@.subrange(0, 0)) == 0) by (nonlinear_arith)
            requires
                val(b@.subrange(0, 0)) == 0,
        ;
    }
    let mut i: usize = 0;
    while i < b.len()
        invariant
            i <= b@.len(),
            digits_ok(a@),
            digits_ok(b@),
            a@.len() <= 1000,
            b@.len() <= 1000,
            digits_ok(acc@),
            canonical(acc@),
            val(acc@) == val(a@) * val(b@.subrange(0, i as int)),
            acc@.len() <= a@.len() + i + 1,
        decreases b@.len() - i,
    {
        let ghost acc_old = acc@;
        // multiply the accumulator by ten, unless it is zero
        if !(acc.len() == 1 && acc[0] == 0) {
            acc.push(0);
            proof {
                assert(acc@.drop_last() =~= acc_old);
                assert(val(acc@) == 10 * val(acc_old)) by (nonlinear_arith)
                    requires
                        val(acc@) == val(acc_old) * 10 + 0,
                ;
            }
        } else {
            proof {
                assert(acc@ =~= seq![0u8]);
                lemma_val_single(0);
                assert(val(acc@) == 10 * val(acc_old));
            }
        }
        let ghost acc_shift = acc@;
        // partial = a * b[i], by repeated addition
        let d = b[i];
        let mut partial: Vec<u8> = Vec::new();
        partial.push(0);
        proof {
            lemma_val_single(0);
            assert(partial@ =~= seq![0u8]);
        }
        let mut j: u8 = 0;
        while j < d
            invariant
                j <= d,
                d < 10,
                digits_ok(a@),
                a@.len() <= 1000,
                digits_ok(partial@),
                canonical(partial@),
                val(partial@) == val(a@) * j,
                partial@.len() <= a@.len() + 1,
            decreases d - j,
        {
            partial = dec_add(&partial, a);
            proof {
                lemma_val_bound(a@);
                assert(val(partial@) == val(a@) * (j + 1) && val(partial@) < pow10(
                    (a@.len() + 1) as nat,
                )) by (nonlinear_arith)
                    requires
                        val(partial@) == val(a@) * j + val(a@),
                        val(a@) < pow10(a@.len()),
                        j < 10,
                        pow10((a@.len() + 1) as nat) == 10 * pow10(a@.len()),
                ;
                lemma_canonical_len(partial@, (a@.len() + 1) as nat);
            }
            j += 1;
        }
        acc = dec_add(&acc, &partial);
        proof {
            let bi = b@.subrange(0, (i + 1) as int);
            assert(bi.drop_last() =~= b@.subrange(0, i as int));
            assert(val(acc@) == val(a@) * val(bi)) by (nonlinear_arith)
                requires
                    val(acc@) == val(acc_shift) + val(partial@),
                    val(acc_shift) == 10 * val(acc_old),
                    val(acc_old) == val(a@) * val(b@.subrange(0, i as int)),
                    val(partial@) == val(a@) * d,
                    val(bi) == val(b@.subrange(0, i as int)) * 10 + d,
            ;
            lemma_val_bound(a@);
            lemma_val_bound(bi);
            lemma_pow10_add(a@.len(), (i + 1) as nat);
            assert(val(acc@) < pow10((a@.len() + i + 1) as nat)) by (nonlinear_arith)
                requires
                    val(acc@) == val(a@) * val(bi),
                    val(a@) < pow10(a@.len()),
                    val(bi) < pow10((i + 1) as nat),
                    pow10(a@.len()) * pow10((i + 1) as nat) == pow10((a@.len() + i + 1) as nat),
            ;
            lemma_canonical_len(acc@, (a@.len() + i + 1) as nat);
        }
        i += 1;
    }
    proof {
        assert(b@.subrange(0, b@.len() as int) =~= b@);
    }
    acc
}

/// Convert an unsigned machine integer to its canonical digit sequence.
pub(crate) fn u128_to_digits(x: u128) -> (r: Vec<u8>)
    ensures
        digits_ok(r@),
        canonical(r@),
        val(r@) == x,
{
    let mut le: Vec<u8> = Vec::new();
    let mut y: u128 = x;
    proof {
        assert(le@.reverse() =~= Seq::<u8>::empty());
        assert(pow10(0) == 1);
    }
    while y > 0
        invariant
            digits_ok(le@),
            val(le@.reverse()) + y * pow10(le@.len()) == x,
            y == 0 ==> le@.len() == 0 || le@.last() != 0,
            le@.len() > 0 && y == 0 ==> le@.last() != 0,
        decreases y,
    {
        let ghost le_old = le@;
        let ghost y_old = y;
        let d = (y % 10) as u8;
        le.push(d);
        y = y / 10;
        proof {
            assert(le@.reverse() =~= seq![d] + le_old.reverse());
            lemma_val_concat(seq![d], le_old.reverse());
            lemma_val_single(d);
            assert(val(le@.reverse()) + y * pow10(le@.len()) == x) by (nonlinear_arith)
                requires
                    val(le@.reverse()) == d * pow10(le_old.len()) + val(le_old.reverse()),
                    val(le_old.reverse()) + y_old * pow10(le_old.len()) == x,
                    y_old == 10 * y + d,
                    le@.len() == le_old.len() + 1,
                    pow10(le@.len()) == 10 * pow10(le_old.len()),
            ;
        }
    }
    if le.len() == 0 {
        let mut r: Vec<u8> = Vec::new();
        r.push(0);
        proof {
            lemma_val_single(0);
            assert(r@ =~= seq![0u8]);
            assert(val(le@.reverse()) == 0) by {
                assert(le@.reverse() =~= Seq::<u8>::empty());
            }
        }
        return r;
    }
    let mut r: Vec<u8> = Vec::new();
    let mut i: usize = le.len();
    while i > 0
        invariant
            i <= le@.len(),
            r@.len() == le@.len() - i,
            forall|j: int| 0 <= j < r@.len() ==> r@[j] == le@[le@.len() - 1 - j],
        decreases i,
    {
        r.push(le[i - 1]);
        i -= 1;
    }
    proof {
        assert(r@ =~= le@.reverse());
    }
    r
}

} // verus!

verus! {

// ===== 256-bit bound, via conversion to little-endian bytes =====

/// Powers of 256.
pub open spec fn pow256(n: nat) -> nat
    decreases n,
{
    if n == 0 {
        1
    } else {
        256 * pow256((n - 1) as nat)
    }
}

/// The least number that does not fit in an unsigned 256-bit integer.
pub open spec fn u256_limit() -> nat {
    pow256(32)
}

/// The number denoted by a little-endian byte sequence.
pub open spec fn bval(s: Seq<u8>) -> nat
    decreases s.len(),
{
    if s.len() == 0 {
        0
    } else {
        (s[0] + 256 * bval(s.drop_first())) as nat
    }
}

pub proof fn lemma_pow256_pos(n: nat)
    ensures
        pow256(n) >= 1,
    decreases n,
{
    if n > 0 {
        lemma_pow256_pos((n - 1) as nat);
    }
}

pub proof fn lemma_bval_single(b: u8)
    ensures
        bval(seq![b]) == b,
{
    let s = seq![b];
    assert(s.drop_first() =~= Seq::<u8>::empty());
    assert(bval(s.drop_first()) == 0);
}

/// The value of a concatenation of little-endian byte sequences.
pub proof fn lemma_bval_concat(a: Seq<u8>, b: Seq<u8>)
    ensures
        bval(a + b) == bval(a) + pow256(a.len()) * bval(b),
    decreases a.len(),
{
    if a.len() == 0 {
        assert(a + b =~= b);
        assert(pow256(0) == 1);
    } else {
        let a1 = a.drop_first();
        assert((a + b).drop_first() =~= a1 + b);
        lemma_bval_concat(a1, b);
        assert(bval(a + b) == bval(a) + pow256(a.len()) * bval(b)) by (nonlinear_arith)
            requires
                bval(a + b) == (a + b)[0] + 256 * bval(a1 + b),
                (a + b)[0] == a[0],
                bval(a1 + b) == bval(a1) + pow256(a1.len()) * bval(b),
                bval(a) == a[0] + 256 * bval(a1),
                pow256(a.len()) == 256 * pow256(a1.len()),
        ;
    }
}

/// A byte sequence of length `n` denotes a number below `pow256(n)`.
pub proof fn lemma_bval_bound(s: Seq<u8>)
    ensures
        bval(s) < pow256(s.len()),
    decreases s.len(),
{
    if s.len() == 0 {
        assert(pow256(0) == 1);
    } else {
        let s1 = s.drop_first();
        lemma_bval_bound(s1);
        assert(s[0] + 256 * bval(s1) < 256 * pow256(s1.len())) by (nonlinear_arith)
            requires
                bval(s1) < pow256(s1.len()),
                s[0] < 256,
        ;
    }
}

/// Decompose the value of a prefix at its last byte.
pub proof fn lemma_bval_prefix_step(s: Seq<u8>, k: int)
    requires
        0 <= k < s.len(),
    ensures
        bval(s.subrange(0, k + 1)) == bval(s.subrange(0, k)) + s[k] * pow256(k as nat),
{
    let p = s.subrange(0, k);
    assert(p + seq![s[k]] =~= s.subrange(0, k + 1));
    lemma_bval_concat(p, seq![s[k]]);
    lemma_bval_single(s[k]);
    assert(p.len() == k);
    assert(pow256(k as nat) * bval(seq![s[k]]) == s[k] * pow256(k as nat)) by (nonlinear_arith)
        requires
            bval(seq![s[k]]) == s[k],
    ;
}

/// The value of a digit sequence is at least the value of any prefix.
pub proof fn lemma_val_prefix_le(s: Seq<u8>, k: int)
    requires
        0 <= k <= s.len(),
    ensures
        val(s.subrange(0, k)) <= val(s),
{
    let p = s.subrange(0, k);
    let rest = s.subrange(k, s.len() as int);
    assert(p + rest =~= s);
    lemma_val_concat(p, rest);
    lemma_pow10_pos(rest.len());
    assert(val(p) * pow10(rest.len()) >= val(p)) by (nonlinear_arith)
        requires
            pow10(rest.len()) >= 1,
    ;
}

/// Multiply a 32-byte little-endian number by ten and add a digit,
/// reporting overflow.
pub(crate) fn bytes32_mul10_add(b: &mut Vec<u8>, d: u8) -> (ok: bool)
    requires
        old(b)@.len() == 32,
        d < 10,
    ensures
        final(b)@.len() == 32,
        ok ==> bval(final(b)@) == 10 * bval(old(b)@) + d,
        !ok ==> 10 * bval(old(b)@) + d >= u256_limit(),
{
    let ghost b0 = old(b)@;
    let mut carry: u16 = d as u16;
    let mut k: usize = 0;
    proof {
        assert(b@.subrange(0, 0) =~= Seq::<u8>::empty());
        assert(b0.subrange(0, 0) =~= Seq::<u8>::empty());
        assert(pow256(0) == 1);
    }
    while k < 32
        invariant
            k <= 32,
            b@.len() == 32,
            b0.len() == 32,
            d < 10,
            carry <= 10,
            forall|j: int| k <= j < 32 ==> b@[j] == b0[j],
            bval(b@.subrange(0, k as int)) + carry * pow256(k as nat) == 10 * bval(
                b0.subrange(0, k as int),
            ) + d,
        decreases 32 - k,
    {
        let ghost b_pre = b@;
        let ghost carry_pre = carry;
        let t: u16 = (b[k] as u16) * 10 + carry;
        b[k] = (t % 256) as u8;
        carry = t / 256;
        proof {
            let kk = k as int;
            assert(b@.subrange(0, kk) =~= b_pre.subrange(0, kk));
            lemma_bval_prefix_step(b@, kk);
            lemma_bval_prefix_step(b0, kk);
            assert(b0[kk] == b_pre[kk]);
            assert(b_pre[kk] * 10 + carry_pre == carry * 256 + b@[kk]);
            assert(bval(b@.subrange(0, kk + 1)) + carry * pow256((k + 1) as nat) == 10 * bval(
                b0.subrange(0, kk + 1),
            ) + d) by (nonlinear_arith)
                requires
                    bval(b@.subrange(0, kk + 1)) == bval(b@.subrange(0, kk)) + b@[kk] * pow256(
                        k as nat,
                    ),
                    bval(b0.subrange(0, kk + 1)) == bval(b0.subrange(0, kk)) + b0[kk] * pow256(
                        k as nat,
                    ),
                    bval(b@.subrange(0, kk)) + carry_pre * pow256(k as nat) == 10 * bval(
                        b0.subrange(0, kk),
                    ) + d,
                    b0[kk] * 10 + carry_pre == carry * 256 + b@[kk],
                    pow256((k + 1) as nat) == 256 * pow256(k as nat),
            ;
        }
        k += 1;
    }
    proof {
        assert(b@.subrange(0, 32) =~= b@);
        assert(b0.subrange(0, 32) =~= b0);
    }
    if carry > 0 {
        proof {
            lemma_pow256_pos(32);
            assert(carry * pow256(32) >= pow256(32)) by (nonlinear_arith)
                requires
                    carry >= 1,
                    pow256(32) >= 1,
            ;
        }
        false
    } else {
        true
    }
}

/// Convert a decimal digit sequence to a 32-byte little-endian number,
/// or report that it does not fit in 256 bits.
pub(crate) fn dec_to_le_bytes32(digits: &Vec<u8>) -> (r: Option<Vec<u8>>)
    requires
        digits_ok(digits@),
    ensures
        r matches Some(b) ==> b@.len() == 32 && bval(b@) == val(digits@),
        r is Some <==> val(digits@) < u256_limit(),
{
    let mut b: Vec<u8> = vec![0u8; 32];
    proof {
        lemma_bval_all_zero(b@);
        assert(digits@.subrange(0, 0) =~= Seq::<u8>::empty());
    }
    let mut i: usize = 0;
    while i < digits.len()
        invariant
            i <= digits@.len(),
            digits_ok(digits@),
            b@.len() == 32,
            bval(b@) == val(digits@.subrange(0, i as int)),
        decreases digits@.len() - i,
    {
        let ghost b_pre = b@;
        let ok = bytes32_mul10_add(&mut b, digits[i]);
        proof {
            assert(digits@.subrange(0, (i + 1) as int).drop_last() =~= digits@.subrange(
                0,
                i as int,
            ));
        }
        if !ok {
            proof {
                lemma_val_prefix_le(digits@, (i + 1) as int);
            }
            return None;
        }
        i += 1;
    }
    proof {
        assert(digits@.subrange(0, digits@.len() as int) =~= digits@);
        lemma_bval_bound(b@);
    }
    Some(b)
}

/// An all-zero byte sequence denotes zero.
pub proof fn lemma_bval_all_zero(s: Seq<u8>)
    requires
        forall|i: int| 0 <= i < s.len() ==> s[i] == 0,
    ensures
        bval(s) == 0,
    decreases s.len(),
{
    if s.len() > 0 {
        lemma_bval_all_zero(s.drop_first());
    }
}

} // verus!

verus! {

// ===== Parsing human-readable amounts =====

/// Index of the first `'.'` in `s`, or `s.len()` if there is none.
pub open spec fn find_dot(s: Seq<char>) -> int
    decreases s.len(),
{
    if s.len() == 0 {
        0
    } else if s[0] == '.' {
        0
    } else {
        1 + find_dot(s.drop_first())
    }
}

pub proof fn lemma_find_dot_range(s: Seq<char>)
    ensures
        0 <= find_dot(s) <= s.len(),
        find_dot(s) < s.len() ==> s[find_dot(s)] == '.',
        forall|j: int| 0 <= j < find_dot(s) ==> s[j] != '.',
    decreases s.len(),
{
    if s.len() > 0 && s[0] != '.' {
        let rest = s.drop_first();
        lemma_find_dot_range(rest);
        assert forall|j: int| 0 <= j < find_dot(s) implies s[j] != '.' by {
            if j > 0 {
                assert(s[j] == rest[j - 1]);
            }
        }
    }
}

/// `find_dot` is determined by a scan that found no dot before `p`.
pub proof fn lemma_find_dot_at(s: Seq<char>, p: int)
    requires
        0 <= p <= s.len(),
        forall|j: int| 0 <= j < p ==> s[j] != '.',
        p < s.len() ==> s[p] == '.',
    ensures
        find_dot(s) == p,
    decreases p,
{
    if p == 0 {
    } else {
        let rest = s.drop_first();
        assert(forall|j: int| 0 <= j < p - 1 ==> rest[j] != '.');
        lemma_find_dot_at(rest, p - 1);
    }
}

/// The characters before the first dot.
pub open spec fn int_part(s: Seq<char>) -> Seq<char> {
    s.subrange(0, find_dot(s))
}

/// The characters after the first dot, empty if there is no dot.
pub open spec fn frac_part(s: Seq<char>) -> Seq<char> {
    if find_dot(s) == s.len() {
        Seq::empty()
    } else {
        s.subrange(find_dot(s) + 1, s.len() as int)
    }
}

/// The string is an unsigned decimal numeral: digits, at most one dot.
pub open spec fn valid_amount(s: Seq<char>) -> bool {
    all_digits(int_part(s)) && all_digits(frac_part(s))
}

/// The fractional digits adjusted to exactly `d` digits: padded with
/// zeros on the right if shorter, truncated if longer.
pub open spec fn frac_scaled(f: Seq<char>, d: nat) -> Seq<u8> {
    if f.len() >= d {
        digit_vals(f).subrange(0, d as int)
    } else {
        digit_vals(f) + zeros((d - f.len()) as nat)
    }
}

/// All digits of the amount: integer part followed by the scaled
/// fractional part.
pub open spec fn amount_digits(s: Seq<char>, d: nat) -> Seq<u8> {
    digit_vals(int_part(s)) + frac_scaled(frac_part(s), d)
}

/// The raw value denoted by a human-readable amount at `d` decimals.
pub open spec fn amount_value(s: Seq<char>, d: nat) -> nat {
    val(amount_digits(s, d))
}

/// Why a human-readable amount was rejected.
#[derive(Debug, Clone, Copy, PartialEq, Eq, Structural)]
pub enum AmountError {
    /// The integer part holds a character that is not an ASCII digit.
    InvalidIntegerPart,
    /// The fractional part holds a character that is not an ASCII digit.
    InvalidDecimalPart,
    /// The amount does not fit in an unsigned 256-bit integer.
    Overflow,
}

/// A raw on-chain amount: an unsigned 256-bit integer, kept as its
/// canonical decimal digit sequence.
#[derive(Debug, Clone)]
pub struct RawAmount {
    pub digits: Vec<u8>,
}

impl RawAmount {
    /// The digits are decimal, have no leading zero, and denote a
    /// number below 2^256.
    pub open spec fn wf(&self) -> bool {
        &&& digits_ok(self.digits@)
        &&& canonical(self.digits@)
        &&& val(self.digits@) < u256_limit()
    }

    /// An identical copy.
    pub fn dup(&self) -> (r: RawAmount)
        ensures
            r.digits@ == self.digits@,
    {
        RawAmount { digits: vstd::slice::slice_to_vec(self.digits.as_slice()) }
    }

    /// The number this amount denotes.
    pub open spec fn value(&self) -> nat {
        val(self.digits@)
    }

    /// Render as a decimal numeral.
    pub fn to_decimal_string(&self) -> (r: String)
        requires
            self.wf(),
        ensures
            r@ == chars_of_digits(self.digits@),
            all_digits(r@),
            digit_vals(r@) == self.digits@,
    {
        let r = digits_to_string(&self.digits);
        proof {
            lemma_chars_of_digits_inverse(self.digits@);
        }
        r
    }

    /// Parse a decimal numeral (as reported by an RPC provider for a
    /// balance) into a raw amount.
    pub fn from_decimal_str(s: &str) -> (r: Option<RawAmount>)
        ensures
            r is Some <==> all_digits(s@) && val(digit_vals(s@)) < u256_limit(),
            r matches Some(a) ==> a.wf() && a.value() == val(digit_vals(s@)),
    {
        let vals = match digits_from_str(s) {
            Some(v) => v,
            None => {
                return None;
            },
        };
        let canon = strip_leading(&vals);
        proof {
            lemma_strip_keep1(vals@);
        }
        match dec_to_le_bytes32(&canon) {
            Some(_) => Some(RawAmount { digits: canon }),
            None => None,
        }
    }
}

/// Convert a human-readable decimal amount to raw on-chain units at
/// `decimals` fractional digits. The fractional part is padded with
/// zeros if shorter than `decimals` and truncated (not rounded) if
/// longer.
pub fn human_to_raw(human: &str, decimals: u8) -> (r: Result<RawAmount, AmountError>)
    ensures
        !all_digits(int_part(human@)) ==> r == Err::<RawAmount, AmountError>(
            AmountError::InvalidIntegerPart,
        ),
        all_digits(int_part(human@)) && !all_digits(frac_part(human@)) ==> r == Err::<
            RawAmount,
            AmountError,
        >(AmountError::InvalidDecimalPart),
        valid_amount(human@) && amount_value(human@, decimals as nat) >= u256_limit() ==> r == Err::<
            RawAmount,
            AmountError,
        >(AmountError::Overflow),
        r is Ok <==> valid_amount(human@) && amount_value(human@, decimals as nat) < u256_limit(),
        r matches Ok(a) ==> a.wf() && a.value() == amount_value(human@, decimals as nat)
            && a.digits@ == strip_keep1(amount_digits(human@, decimals as nat)),
{
    let n = human.unicode_len();
    // find the first dot
    let mut dot: usize = 0;
    while dot < n && human.get_char(dot) != '.'
        invariant
            dot <= n,
            n == human@.len(),
            forall|j: int| 0 <= j < dot ==> human@[j] != '.',
        decreases n - dot,
    {
        dot += 1;
    }
    proof {
        lemma_find_dot_at(human@, dot as int);
    }
    let int_str = human.substring_char(0, dot);
    let frac_str = if dot < n {
        human.substring_char(dot + 1, n)
    } else {
        human.substring_char(n, n)
    };
    proof {
        assert(int_str@ == int_part(human@));
        if dot < n {
            assert(frac_str@ == frac_part(human@));
        } else {
            assert(frac_str@ =~= frac_part(human@));
        }
    }
    let int_vals = match digits_from_str(int_str) {
        Some(v) => v,
        None => {
            return Err(AmountError::InvalidIntegerPart);
        },
    };
    let mut frac_vals = match digits_from_str(frac_str) {
        Some(v) => v,
        None => {
            return Err(AmountError::InvalidDecimalPart);
        },
    };
    let d = decimals as usize;
    let ghost frac_chars = frac_str@;
    if frac_vals.len() >= d {
        frac_vals.truncate(d);
        proof {
            assert(frac_vals@ == frac_scaled(frac_chars, d as nat));
        }
    } else {
        while frac_vals.len() < d
            invariant
                frac_vals@.len() <= d,
                frac_vals@.len() >= frac_chars.len(),
                frac_vals@ =~= digit_vals(frac_chars) + zeros(
                    (frac_vals@.len() - frac_chars.len()) as nat,
                ),
            decreases d - frac_vals@.len(),
        {
            frac_vals.push(0);
            proof {
                assert(frac_vals@ =~= digit_vals(frac_chars) + zeros(
                    (frac_vals@.len() - frac_chars.len()) as nat,
                ));
            }
        }
        proof {
            assert(frac_vals@ == frac_scaled(frac_chars, d as nat));
        }
    }
    let mut all = int_vals;
    all.append(&mut frac_vals);
    proof {
        assert(all@ == amount_digits(human@, d as nat));
        assert(digits_ok(all@));
    }
    let canon = strip_leading(&all);
    proof {
        lemma_strip_keep1(all@);
    }
    match dec_to_le_bytes32(&canon) {
        Some(_) => Ok(RawAmount { digits: canon }),
        None => Err(AmountError::Overflow),
    }
}

} // verus!

verus! {

// ===== Rendering raw units as human-readable amounts =====

/// `s` with its trailing zeros removed.
pub open spec fn trim_tail0(s: Seq<u8>) -> Seq<u8>
    decreases s.len(),
{
    if s.len() > 0 && s.last() == 0 {
        trim_tail0(s.drop_last())
    } else {
        s
    }
}

/// `trim_tail0` is determined by a scan that found only zeros after `m`.
pub proof fn lemma_trim_tail0_at(s: Seq<u8>, m: int)
    requires
        0 <= m <= s.len(),
        forall|j: int| m <= j < s.len() ==> s[j] == 0,
        m > 0 ==> s[m - 1] != 0,
    ensures
        trim_tail0(s) =~= s.subrange(0, m),
    decreases s.len(),
{
    if s.len() > m {
        lemma_trim_tail0_at(s.drop_last(), m);
        assert(s.drop_last().subrange(0, m) =~= s.subrange(0, m));
    }
}

/// Trailing zeros appended to a sequence do not change its trim.
pub proof fn lemma_trim_tail0_zeros(a: Seq<u8>, k: nat)
    ensures
        trim_tail0(a + zeros(k)) == trim_tail0(a),
    decreases k,
{
    if k == 0 {
        assert(a + zeros(0) =~= a);
    } else {
        assert((a + zeros(k)).last() == 0);
        assert((a + zeros(k)).drop_last() =~= a + zeros((k - 1) as nat));
        lemma_trim_tail0_zeros(a, (k - 1) as nat);
    }
}

/// The human-readable rendering of a raw decimal numeral at `d`
/// fractional digits: the numeral is left-padded with zeros to at least
/// `d + 1` digits, the last `d` digits become the fractional part, the
/// fractional part loses its trailing zeros, and the separator is
/// omitted when nothing remains of it.
pub open spec fn spec_raw_to_human(s: Seq<char>, d: nat) -> Seq<char> {
    let v = digit_vals(s);
    let p = if v.len() <= d {
        zeros((d + 1 - v.len()) as nat) + v
    } else {
        v
    };
    let ip = p.subrange(0, p.len() - d);
    let ft = trim_tail0(p.subrange(p.len() - d, p.len() as int));
    if ft.len() == 0 {
        chars_of_digits(ip)
    } else {
        chars_of_digits(ip) + seq!['.'] + chars_of_digits(ft)
    }
}

/// Convert a raw integer numeral to a human-readable amount at
/// `decimals` fractional digits.
pub fn raw_to_human(raw: &str, decimals: u8) -> (r: String)
    requires
        all_digits(raw@),
    ensures
        r@ == spec_raw_to_human(raw@, decimals as nat),
{
    let d = decimals as usize;
    let vals = match digits_from_str(raw) {
        Some(v) => v,
        None => {
            proof {
                assert(false);
            }
            Vec::new()
        },
    };
    let padded = if vals.len() <= d {
        pad_front(&vals, d + 1)
    } else {
        vals
    };
    let ghost p = padded@;
    proof {
        assert(digits_ok(digit_vals(raw@)));
        assert(digits_ok(p));
    }
    let plen = padded.len();
    let iplen = plen - d;
    // trim trailing zeros of the fractional part
    let mut ftlen: usize = d;
    while ftlen > 0 && padded[iplen + (ftlen - 1)] == 0
        invariant
            ftlen <= d,
            plen == p.len(),
            iplen == plen - d,
            padded@ == p,
            forall|j: int| ftlen <= j < d ==> #[trigger] p[iplen + j] == 0,
        decreases ftlen,
    {
        ftlen -= 1;
    }
    let ghost fp = p.subrange(iplen as int, plen as int);
    proof {
        assert forall|j: int| ftlen <= j < d implies #[trigger] fp[j] == 0 by {
            assert(fp[j] == p[iplen + j]);
        }
        lemma_trim_tail0_at(fp, ftlen as int);
    }
    // build the output
    let mut bytes: Vec<u8> = Vec::new();
    let mut i: usize = 0;
    while i < iplen
        invariant
            i <= iplen,
            iplen <= plen,
            plen == p.len(),
            padded@ == p,
            digits_ok(p),
            bytes@.len() == i,
            forall|j: int| 0 <= j < i ==> bytes@[j] == p[j] + 48,
        decreases iplen - i,
    {
        bytes.push(padded[i] + 48);
        i += 1;
    }
    if ftlen > 0 {
        bytes.push(46);
        let mut j: usize = 0;
        while j < ftlen
            invariant
                j <= ftlen,
                ftlen <= d,
                iplen + d == plen,
                plen == p.len(),
                padded@ == p,
                digits_ok(p),
                bytes@.len() == iplen + 1 + j,
                forall|t: int| 0 <= t < iplen ==> bytes@[t] == p[t] + 48,
                bytes@[iplen as int] == 46,
                forall|t: int| 0 <= t < j ==> #[trigger] bytes@[iplen + 1 + t] == p[iplen + t]
                    + 48,
            decreases ftlen - j,
        {
            bytes.push(padded[iplen + j] + 48);
            j += 1;
        }
        proof {
            assert forall|t: int| 0 <= t < bytes@.len() implies bytes@[t] < 128 by {
                if t < iplen {
                    assert(bytes@[t] == p[t] + 48);
                    assert(p[t] < 10);
                } else if t > iplen {
                    let u = t - iplen - 1;
                    assert(bytes@[iplen + 1 + u] == p[iplen + u] + 48);
                    assert(p[iplen + u] < 10);
                }
            }
        }
        let r = ascii_string(bytes);
        proof {
            let target = spec_raw_to_human(raw@, decimals as nat);
            let ip = p.subrange(0, iplen as int);
            let ft = trim_tail0(fp);
            assert(ft =~= fp.subrange(0, ftlen as int));
            assert(target == chars_of_digits(ip) + seq!['.'] + chars_of_digits(ft));
            assert(r@.len() == target.len());
            assert forall|t: int| 0 <= t < r@.len() implies r@[t] == target[t] by {
                assert(r@[t] == bytes@[t] as char);
                if t < iplen {
                    assert(bytes@[t] == p[t] + 48);
                    assert(target[t] == char_of_digit(ip[t]));
                    assert(ip[t] == p[t]);
                } else if t == iplen {
                    assert(bytes@[t] == 46);
                    assert(target[t] == '.');
                    assert((46u8) as char == '.');
                } else {
                    let u = t - iplen - 1;
                    assert(bytes@[iplen + 1 + u] == p[iplen + u] + 48);
                    assert(target[t] == char_of_digit(ft[u]));
                    assert(ft[u] == fp[u]);
                    assert(fp[u] == p[iplen + u]);
                }
            }
            assert(r@ =~= target);
        }
        r
    } else {
        proof {
            assert forall|t: int| 0 <= t < bytes@.len() implies bytes@[t] < 128 by {
                assert(bytes@[t] == p[t] + 48);
                assert(p[t] < 10);
            }
        }
        let r = ascii_string(bytes);
        proof {
            assert(r@ =~= spec_raw_to_human(raw@, decimals as nat));
        }
        r
    }
}

} // verus!

verus! {

// ===== The round-trip law =====

/// The canonical rendering of a valid human-readable amount: leading
/// zeros of the integer part dropped down to at least one digit,
/// trailing zeros of the fractional part dropped, and the separator
/// omitted when nothing remains of the fraction.
pub open spec fn spec_canonical_amount(s: Seq<char>) -> Seq<char> {
    let ip = strip_keep1(digit_vals(int_part(s)));
    let ft = trim_tail0(digit_vals(frac_part(s)));
    if ft.len() == 0 {
        chars_of_digits(ip)
    } else {
        chars_of_digits(ip) + seq!['.'] + chars_of_digits(ft)
    }
}

/// ROUND TRIP: for every valid decimal numeral with at most `d`
/// fractional digits, converting to raw units at `d` decimals and
/// rendering the result back at `d` decimals yields the canonical form
/// of the original numeral. `human_to_raw` returns exactly the digits
/// `strip_keep1(amount_digits(s, d))`, and `raw_to_human` renders
/// exactly `spec_raw_to_human`, so this law connects the two.
pub proof fn lemma_amount_round_trip(s: Seq<char>, d: nat)
    requires
        valid_amount(s),
        frac_part(s).len() <= d,
    ensures
        spec_raw_to_human(chars_of_digits(strip_keep1(amount_digits(s, d))), d)
            == spec_canonical_amount(s),
{
    let i_vals = digit_vals(int_part(s));
    let f_vals = digit_vals(frac_part(s));
    let scaled = frac_scaled(frac_part(s), d);
    let x = amount_digits(s, d);
    assert(scaled =~= f_vals + zeros((d - f_vals.len()) as nat));
    assert(x == i_vals + scaled);
    assert(x.len() == i_vals.len() + d);
    assert(digits_ok(x));
    let r = strip_keep1(x);
    lemma_strip0(x);
    lemma_strip_keep1(x);
    lemma_chars_of_digits_inverse(r);
    let rendered = chars_of_digits(r);
    assert(digit_vals(rendered) == r);
    let ilen = i_vals.len() as int;
    let xlen = x.len() as int;
    let slen = strip0(x).len() as int;
    let k = xlen - slen;
    // the digits of x are those of the integer part, then the scaled fraction
    assert(forall|j: int| 0 <= j < ilen ==> x[j] == i_vals[j]);
    assert(forall|j: int| 0 <= j < d ==> #[trigger] scaled[j] == x[ilen + j]);
    lemma_trim_tail0_zeros(f_vals, (d - f_vals.len()) as nat);
    assert(trim_tail0(scaled) == trim_tail0(f_vals));
    if slen > d {
        // the stripped digits still cover the whole fraction
        assert(r == strip0(x));
        assert(k < ilen);
        assert(r[0] != 0);
        // integer part of the rendering
        let p = r;
        assert(p.len() > d);
        let ip_out = p.subrange(0, p.len() - d);
        assert(forall|j: int| 0 <= j < slen ==> r[j] == x[k + j]);
        assert(ip_out =~= i_vals.subrange(k, ilen));
        assert(forall|j: int| 0 <= j < k ==> i_vals[j] == 0);
        assert(i_vals[k] == x[k] && x[k] == r[0]);
        lemma_strip0_prefix(i_vals, k);
        assert(strip0(i_vals) =~= i_vals.subrange(k, ilen));
        assert(strip0(i_vals).len() > 0);
        assert(strip_keep1(i_vals) == strip0(i_vals));
        assert(ip_out == strip_keep1(i_vals));
        // fractional part of the rendering
        let ft_out = p.subrange(p.len() - d, p.len() as int);
        assert(ft_out =~= scaled);
        assert(spec_raw_to_human(rendered, d) == spec_canonical_amount(s));
    } else {
        // the integer part of x is all zeros
        assert(forall|j: int| 0 <= j < k ==> x[j] == 0);
        assert(forall|j: int| 0 <= j < ilen ==> i_vals[j] == 0);
        lemma_strip0_prefix(i_vals, ilen);
        assert(strip0(i_vals) =~= i_vals.subrange(ilen, ilen));
        assert(strip0(i_vals).len() == 0);
        assert(strip_keep1(i_vals) == seq![0u8]);
        if r.len() <= d {
            let p = zeros((d + 1 - r.len()) as nat) + r;
            assert(p.len() == d + 1);
            let ip_out = p.subrange(0, 1);
            assert(p[0] == 0);
            assert(ip_out =~= seq![0u8]);
            let ft_out = p.subrange(1, p.len() as int);
            if slen == 0 {
                // x is all zeros
                assert(r =~= seq![0u8]);
                assert(forall|j: int| 0 <= j < d ==> scaled[j] == 0);
                assert(ft_out =~= scaled);
            } else {
                assert(r == strip0(x));
                assert(forall|j: int| 0 <= j < slen ==> r[j] == x[k + j]);
                assert(k >= ilen);
                assert(ft_out =~= scaled);
            }
            assert(trim_tail0(ft_out) == trim_tail0(f_vals));
            assert(spec_raw_to_human(rendered, d) == spec_canonical_amount(s));
        } else {
            // only possible when d == 0 and r is the single digit zero
            assert(slen <= d);
            assert(r.len() == 1 && d == 0);
            let p = r;
            let ip_out = p.subrange(0, 1);
            assert(slen == 0 ==> r =~= seq![0u8]);
            if slen == 1 {
                assert(r == strip0(x));
                assert(r[0] == x[xlen - 1]);
                assert(k >= ilen);
                assert(xlen - 1 >= ilen);
                assert(r[0] != 0);
                // a nonzero digit in the scaled fraction, but d == 0
                assert(scaled.len() == 0);
                assert(xlen == ilen);
                assert(false);
            }
            assert(ip_out =~= seq![0u8]);
            let ft_out = p.subrange(1, 1);
            assert(ft_out.len() == 0);
            assert(trim_tail0(ft_out) =~= ft_out);
            assert(f_vals.len() == 0);
            assert(trim_tail0(f_vals) =~= f_vals);
            assert(spec_raw_to_human(rendered, d) == spec_canonical_amount(s));
        }
    }
}

} // verus!

verus! {

pub proof fn lemma_pow256_mono(m: nat, n: nat)
    requires
        m <= n,
    ensures
        pow256(m) <= pow256(n),
    decreases n,
{
    if m < n {
        lemma_pow256_mono(m, (n - 1) as nat);
        lemma_pow256_pos((n - 1) as nat);
    }
}

/// `pow256(16)` is the least number that does not fit in a `u128`.
pub proof fn lemma_pow256_at_16()
    ensures
        pow256(16) == 0x1_0000_0000_0000_0000_0000_0000_0000_0000nat,
{
    assert(pow256(0) == 1);
    assert(pow256(1) == 0x100);
    assert(pow256(2) == 0x1_0000);
    assert(pow256(3) == 0x100_0000);
    assert(pow256(4) == 0x1_0000_0000);
    assert(pow256(5) == 0x100_0000_0000);
    assert(pow256(6) == 0x1_0000_0000_0000);
    assert(pow256(7) == 0x100_0000_0000_0000);
    assert(pow256(8) == 0x1_0000_0000_0000_0000);
    assert(pow256(9) == 0x100_0000_0000_0000_0000);
    assert(pow256(10) == 0x1_0000_0000_0000_0000_0000);
    assert(pow256(11) == 0x100_0000_0000_0000_0000_0000);
    assert(pow256(12) == 0x1_0000_0000_0000_0000_0000_0000);
    assert(pow256(13) == 0x100_0000_0000_0000_0000_0000_0000);
    assert(pow256(14) == 0x1_0000_0000_0000_0000_0000_0000_0000);
    assert(pow256(15) == 0x100_0000_0000_0000_0000_0000_0000_0000);
}

/// Every `u128` fits in 256 bits.
pub proof fn lemma_u128_fits_u256(p: u128)
    ensures
        (p as nat) < u256_limit(),
{
    lemma_pow256_at_16();
    lemma_pow256_mono(16, 32);
}

/// Base-256 digits take at most three decimal digits each.
pub proof fn lemma_pow256_le_pow10(n: nat)
    ensures
        pow256(n) <= pow10(3 * n),
    decreases n,
{
    if n == 0 {
        assert(pow256(0) == 1);
        assert(pow10(0) == 1);
    } else {
        lemma_pow256_le_pow10((n - 1) as nat);
        assert(pow10(3 * n) == 10 * pow10((3 * n - 1) as nat));
        assert(pow10((3 * n - 1) as nat) == 10 * pow10((3 * n - 2) as nat));
        assert(pow10((3 * n - 2) as nat) == 10 * pow10((3 * (n - 1)) as nat));
        assert(pow256(n) <= pow10(3 * n)) by (nonlinear_arith)
            requires
                pow256(n) == 256 * pow256((n - 1) as nat),
                pow256((n - 1) as nat) <= pow10((3 * (n - 1)) as nat),
                pow10(3 * n) == 1000 * pow10((3 * (n - 1)) as nat),
        ;
    }
}

/// A canonical digit sequence below 2^256 has at most 96 digits.
pub proof fn lemma_u256_digit_len(d: Seq<u8>)
    requires
        digits_ok(d),
        canonical(d),
        val(d) < u256_limit(),
    ensures
        d.len() <= 96,
{
    lemma_pow256_le_pow10(32);
    lemma_canonical_len(d, 96);
}

} // verus!

verus! {

impl RawAmount {
    /// The amount as a machine integer, when it fits in 128 bits.
    pub fn to_u128(&self) -> (r: Option<u128>)
        requires
            self.wf(),
        ensures
            r is Some <==> self.value() < 0x1_0000_0000_0000_0000_0000_0000_0000_0000,
            r matches Some(v) ==> v == self.value(),
    {
        let mut acc: u128 = 0;
        let mut i: usize = 0;
        while i < self.digits.len()
            invariant
                i <= self.digits@.len(),
                self.wf(),
                acc == val(self.digits@.subrange(0, i as int)),
            decreases self.digits@.len() - i,
        {
            proof {
                assert(self.digits@.subrange(0, (i + 1) as int).drop_last() =~= self.digits@.subrange(
                    0,
                    i as int,
                ));
            }
            let next = match acc.checked_mul(10) {
                Some(t) => t.checked_add(self.digits[i] as u128),
                None => None,
            };
            match next {
                Some(t) => {
                    acc = t;
                },
                None => {
                    proof {
                        lemma_val_prefix_le(self.digits@, (i + 1) as int);
                    }
                    return None;
                },
            }
            i += 1;
        }
        proof {
            assert(self.digits@.subrange(0, self.digits@.len() as int) =~= self.digits@);
        }
        Some(acc)
    }
}

} // verus!
