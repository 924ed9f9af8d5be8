//! Syntactic addresses and the byte framing of ERC-20 calls: the
//! `transfer(address,uint256)` and `balanceOf(address)` calldata that a
//! payment submits or queries with.

use vstd::prelude::*;
use vstd::string::StrSliceExecFns;
use crate::amount::{bval, dec_to_le_bytes32, pow256, RawAmount};
use crate::wallet::beval;

verus! {

/// `c` is an ASCII hex digit.
pub open spec fn is_hex_char(c: char) -> bool {
    ||| (48 <= c as int <= 57)
    ||| (97 <= c as int <= 102)
    ||| (65 <= c as int <= 70)
}

/// The lowercase ASCII byte for a hex digit character.
pub open spec fn lower_hex_byte(c: char) -> u8 {
    if 65 <= c as int <= 70 {
        (c as int + 32) as u8
    } else {
        (c as int) as u8
    }
}

/// The value of a lowercase ASCII hex digit byte.
pub open spec fn hexval(b: u8) -> u8 {
    if 48 <= b <= 57 {
        (b - 48) as u8
    } else {
        (b - 87) as u8
    }
}

/// `s` without a leading `0x`, if one is there.
pub open spec fn spec_strip_0x(s: Seq<char>) -> Seq<char> {
    if s.len() >= 2 && s[0] == '0' && s[1] == 'x' {
        s.subrange(2, s.len() as int)
    } else {
        s
    }
}

/// `s` spells an address: an optional `0x`, then exactly 40 hex digits.
pub open spec fn spec_valid_address(s: Seq<char>) -> bool {
    &&& spec_strip_0x(s).len() == 40
    &&& forall|i: int| 0 <= i < 40 ==> is_hex_char(spec_strip_0x(s)[i])
}

/// The lowercase hex digit bytes of the address `s` spells.
pub open spec fn spec_address_hex(s: Seq<char>) -> Seq<u8> {
    spec_strip_0x(s).map_values(|c: char| lower_hex_byte(c))
}

/// An Ethereum address, kept as its 40 lowercase ASCII hex digits.
#[derive(Debug, Clone)]
pub struct Address {
    pub hex: Vec<u8>,
}

impl Address {
    /// 40 lowercase hex digit bytes.
    pub open spec fn wf(&self) -> bool {
        &&& self.hex@.len() == 40
        &&& forall|i: int|
            0 <= i < 40 ==> (48 <= #[trigger] self.hex@[i] <= 57 || 97 <= self.hex@[i] <= 102)
    }

    /// An identical copy.
    pub fn dup(&self) -> (r: Address)
        ensures
            r.hex@ == self.hex@,
    {
        Address { hex: vstd::slice::slice_to_vec(self.hex.as_slice()) }
    }

    /// Render as `0x` followed by the 40 hex digits.
    pub fn to_string_0x(&self) -> (r: String)
        requires
            self.wf(),
        ensures
            r@ == seq!['0', 'x'] + crate::text::chars_of_bytes(self.hex@),
    {
        let mut bytes: Vec<u8> = Vec::new();
        bytes.push(48);
        bytes.push(120);
        let mut i: usize = 0;
        while i < self.hex.len()
            invariant
                i <= self.hex@.len(),
                self.wf(),
                bytes@.len() == 2 + i,
                bytes@[0] == 48 && bytes@[1] == 120,
                forall|j: int| 0 <= j < i ==> bytes@[2 + j] == self.hex@[j],
            decreases self.hex@.len() - i,
        {
            bytes.push(self.hex[i]);
            i += 1;
        }
        proof {
            assert forall|t: int| 0 <= t < bytes@.len() implies bytes@[t] < 128 by {
                if t >= 2 {
                    assert(bytes@[2 + (t - 2)] == self.hex@[t - 2]);
                }
            }
        }
        let r = crate::text::ascii_string(bytes);
        proof {
            assert(r@ =~= seq!['0', 'x'] + crate::text::chars_of_bytes(self.hex@));
        }
        r
    }

    /// The 20 bytes the 40 hex digits spell.
    pub fn to_bytes20(&self) -> (r: Vec<u8>)
        requires
            self.wf(),
        ensures
            r@.len() == 20,
            forall|i: int|
                0 <= i < 20 ==> #[trigger] r@[i] == hexval(self.hex@[2 * i]) * 16 + hexval(
                    self.hex@[2 * i + 1],
                ),
    {
        let mut r: Vec<u8> = Vec::new();
        let mut i: usize = 0;
        while i < 20
            invariant
                i <= 20,
                self.wf(),
                r@.len() == i,
                forall|j: int|
                    0 <= j < i ==> #[trigger] r@[j] == hexval(self.hex@[2 * j]) * 16 + hexval(
                        self.hex@[2 * j + 1],
                    ),
            decreases 20 - i,
        {
            let hi = self.hex[2 * i];
            let lo = self.hex[2 * i + 1];
            let hv: u8 = if hi <= 57 {
                hi - 48
            } else {
                hi - 87
            };
            let lv: u8 = if lo <= 57 {
                lo - 48
            } else {
                lo - 87
            };
            r.push(hv * 16 + lv);
            i += 1;
        }
        r
    }
}

/// Parse an address: an optional `0x` prefix, then exactly 40 hex
/// digits in either case. Uppercase digits are lowered; no checksum is
/// computed.
pub fn parse_address(s: &str) -> (r: Option<Address>)
    ensures
        r is Some <==> spec_valid_address(s@),
        r matches Some(a) ==> a.wf() && a.hex@ == spec_address_hex(s@),
{
    let n = s.unicode_len();
    let start: usize = if n >= 2 && s.get_char(0) == '0' && s.get_char(1) == 'x' {
        2
    } else {
        0
    };
    proof {
        if start == 2 {
            assert(spec_strip_0x(s@) =~= s@.subrange(2, s@.len() as int));
        } else {
            assert(spec_strip_0x(s@) =~= s@);
        }
    }
    if n - start != 40 {
        return None;
    }
    let mut hex: Vec<u8> = Vec::new();
    let mut i: usize = 0;
    while i < 40
        invariant
            i <= 40,
            n == s@.len(),
            start + 40 == n,
            spec_strip_0x(s@) =~= s@.subrange(start as int, n as int),
            hex@.len() == i,
            forall|j: int| 0 <= j < i ==> is_hex_char(#[trigger] s@[start + j]),
            forall|j: int| 0 <= j < i ==> #[trigger] hex@[j] == lower_hex_byte(s@[start + j]),
        decreases 40 - i,
    {
        let c = s.get_char(start + i);
        let u = c as u32;
        let b: u8 = if u >= 48 && u <= 57 {
            u as u8
        } else if u >= 97 && u <= 102 {
            u as u8
        } else if u >= 65 && u <= 70 {
            (u + 32) as u8
        } else {
            proof {
                assert(!is_hex_char(s@[(start + i) as int]));
                assert(spec_strip_0x(s@)[i as int] == s@[(start + i) as int]);
            }
            return None;
        };
        hex.push(b);
        i += 1;
    }
    proof {
        assert forall|t: int| 0 <= t < 40 implies is_hex_char(spec_strip_0x(s@)[t]) by {
            assert(spec_strip_0x(s@)[t] == s@[start + t]);
        }
        assert(hex@ =~= spec_address_hex(s@));
    }
    Some(Address { hex })
}

/// Reversing a little-endian byte sequence gives the same number read
/// big-endian.
pub proof fn lemma_beval_reverse(s: Seq<u8>)
    ensures
        beval(s.reverse()) == bval(s),
    decreases s.len(),
{
    if s.len() > 0 {
        lemma_beval_reverse(s.drop_first());
        assert(s.reverse().drop_last() =~= s.drop_first().reverse());
        assert(s.reverse().last() == s[0]);
    }
}

/// The 32 big-endian bytes of a raw amount.
pub fn amount_be_bytes32(amount: &RawAmount) -> (r: Vec<u8>)
    requires
        amount.wf(),
    ensures
        r@.len() == 32,
        beval(r@) == amount.value(),
{
    let le = match dec_to_le_bytes32(&amount.digits) {
        Some(b) => b,
        None => {
            proof {
                assert(false);
            }
            Vec::new()
        },
    };
    let mut r: Vec<u8> = Vec::new();
    let mut i: usize = le.len();
    while i > 0
        invariant
            i <= le@.len(),
            r@.len() == le@.len() - i,
            forall|j: int| 0 <= j < r@.len() ==> r@[j] == le@[le@.len() - 1 - j],
        decreases i,
    {
        r.push(le[i - 1]);
        i -= 1;
    }
    proof {
        assert(r@ =~= le@.reverse());
        lemma_beval_reverse(le@);
    }
    r
}

/// The expected shape of `transfer(address,uint256)` calldata: the
/// four selector bytes, the recipient padded to 32 bytes, and the
/// big-endian amount.
pub open spec fn spec_transfer_calldata(r: Seq<u8>, to: Address, amount_value: nat) -> bool {
    &&& r.len() == 68
    &&& r[0] == 0xa9 && r[1] == 0x05 && r[2] == 0x9c && r[3] == 0xbb
    &&& (forall|i: int| 4 <= i < 16 ==> r[i] == 0)
    &&& (forall|i: int|
        0 <= i < 20 ==> #[trigger] r[16 + i] == hexval(to.hex[2 * i]) * 16 + hexval(
            to.hex[2 * i + 1],
        ))
    &&& beval(r.subrange(36, 68)) == amount_value
}

/// Build `transfer(address,uint256)` calldata.
pub fn erc20_transfer_calldata(to: &Address, amount: &RawAmount) -> (r: Vec<u8>)
    requires
        to.wf(),
        amount.wf(),
    ensures
        spec_transfer_calldata(r@, *to, amount.value()),
{
    let mut r: Vec<u8> = Vec::new();
    r.push(0xa9);
    r.push(0x05);
    r.push(0x9c);
    r.push(0xbb);
    let mut i: usize = 0;
    while i < 12
        invariant
            i <= 12,
            r@.len() == 4 + i,
            r@[0] == 0xa9 && r@[1] == 0x05 && r@[2] == 0x9c && r@[3] == 0xbb,
            forall|j: int| 4 <= j < 4 + i ==> r@[j] == 0,
        decreases 12 - i,
    {
        r.push(0);
        i += 1;
    }
    let addr = to.to_bytes20();
    let mut j: usize = 0;
    while j < 20
        invariant
            j <= 20,
            to.wf(),
            addr@.len() == 20,
            forall|t: int|
                0 <= t < 20 ==> #[trigger] addr@[t] == hexval(to.hex@[2 * t]) * 16 + hexval(
                    to.hex@[2 * t + 1],
                ),
            r@.len() == 16 + j,
            r@[0] == 0xa9 && r@[1] == 0x05 && r@[2] == 0x9c && r@[3] == 0xbb,
            forall|t: int| 4 <= t < 16 ==> r@[t] == 0,
            forall|t: int| 0 <= t < j ==> #[trigger] r@[16 + t] == addr@[t],
        decreases 20 - j,
    {
        r.push(addr[j]);
        j += 1;
    }
    let amt = amount_be_bytes32(amount);
    let ghost amt_view = amt@;
    let mut k: usize = 0;
    while k < 32
        invariant
            k <= 32,
            to.wf(),
            amt@ == amt_view,
            amt@.len() == 32,
            r@.len() == 36 + k,
            r@[0] == 0xa9 && r@[1] == 0x05 && r@[2] == 0x9c && r@[3] == 0xbb,
            forall|t: int| 4 <= t < 16 ==> r@[t] == 0,
            forall|t: int|
                0 <= t < 20 ==> #[trigger] r@[16 + t] == hexval(to.hex@[2 * t]) * 16 + hexval(
                    to.hex@[2 * t + 1],
                ),
            forall|t: int| 0 <= t < k ==> #[trigger] r@[36 + t] == amt@[t],
        decreases 32 - k,
    {
        r.push(amt[k]);
        k += 1;
    }
    proof {
        assert forall|t: int| 0 <= t < 32 implies r@.subrange(36, 68)[t] == amt_view[t] by {
            assert(r@[36 + t] == amt@[t]);
        }
        assert(r@.subrange(36, 68) =~= amt_view);
    }
    r
}

/// The expected shape of `balanceOf(address)` calldata: the four
/// selector bytes, then the owner padded to 32 bytes.
pub open spec fn spec_balance_of_calldata(r: Seq<u8>, owner: Address) -> bool {
    &&& r.len() == 36
    &&& r[0] == 0x70 && r[1] == 0xa0 && r[2] == 0x82 && r[3] == 0x31
    &&& (forall|i: int| 4 <= i < 16 ==> r[i] == 0)
    &&& (forall|i: int|
        0 <= i < 20 ==> #[trigger] r[16 + i] == hexval(owner.hex[2 * i]) * 16 + hexval(
            owner.hex[2 * i + 1],
        ))
}

/// Build `balanceOf(address)` calldata.
pub fn erc20_balance_of_calldata(owner: &Address) -> (r: Vec<u8>)
    requires
        owner.wf(),
    ensures
        spec_balance_of_calldata(r@, *owner),
{
    let mut r: Vec<u8> = Vec::new();
    r.push(0x70);
    r.push(0xa0);
    r.push(0x82);
    r.push(0x31);
    let mut i: usize = 0;
    while i < 12
        invariant
            i <= 12,
            r@.len() == 4 + i,
            r@[0] == 0x70 && r@[1] == 0xa0 && r@[2] == 0x82 && r@[3] == 0x31,
            forall|j: int| 4 <= j < 4 + i ==> r@[j] == 0,
        decreases 12 - i,
    {
        r.push(0);
        i += 1;
    }
    let addr = owner.to_bytes20();
    let mut j: usize = 0;
    while j < 20
        invariant
            j <= 20,
            owner.wf(),
            addr@.len() == 20,
            forall|t: int|
                0 <= t < 20 ==> #[trigger] addr@[t] == hexval(owner.hex@[2 * t]) * 16 + hexval(
                    owner.hex@[2 * t + 1],
                ),
            r@.len() == 16 + j,
            r@[0] == 0x70 && r@[1] == 0xa0 && r@[2] == 0x82 && r@[3] == 0x31,
            forall|t: int| 4 <= t < 16 ==> r@[t] == 0,
            forall|t: int| 0 <= t < j ==> #[trigger] r@[16 + t] == addr@[t],
        decreases 20 - j,
    {
        r.push(addr[j]);
        j += 1;
    }
    r
}

} // verus!
