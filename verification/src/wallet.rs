//! Wallet keystore bookkeeping: password generation, address lookup
//! from keystore content, and validation of decrypted key material.
//!
//! Creating the keystore file, encrypting and decrypting it are done by
//! an outside encryption capability working on files; this module holds
//! every decision made on the values that flow through those calls.

use vstd::prelude::*;
use vstd::string::StrSliceExecFns;
use vstd::string::StringExecFns;
use crate::config::view_opt;
use crate::error::Error;
use crate::text::{ascii_string, spec_trim, trim_whitespace};

verus! {

/// Wallet information reported to the caller: the public address and
/// where the keystore lives. Never holds key material.
#[derive(Debug, Clone)]
pub struct WalletInfo {
    pub address: String,
    pub path: String,
}

/// The number denoted by a big-endian byte sequence.
pub open spec fn beval(s: Seq<u8>) -> nat
    decreases s.len(),
{
    if s.len() == 0 {
        0
    } else {
        (beval(s.drop_last()) * 256 + s.last()) as nat
    }
}

pub proof fn lemma_beval_single(b: u8)
    ensures
        beval(seq![b]) == b,
{
    let s = seq![b];
    assert(s.drop_last() =~= Seq::<u8>::empty());
    assert(beval(s.drop_last()) == 0);
}

/// The value of a concatenation of big-endian byte sequences.
pub proof fn lemma_beval_concat(a: Seq<u8>, b: Seq<u8>)
    ensures
        beval(a + b) == beval(a) * crate::amount::pow256(b.len()) + beval(b),
    decreases b.len(),
{
    if b.len() == 0 {
        assert(a + b =~= a);
        assert(beval(b) == 0);
        assert(crate::amount::pow256(0) == 1);
    } else {
        let b0 = b.drop_last();
        lemma_beval_concat(a, b0);
        assert((a + b).drop_last() =~= a + b0);
        assert(beval(a + b) == beval(a) * crate::amount::pow256(b.len()) + beval(b))
            by (nonlinear_arith)
            requires
                beval(a + b) == (beval(a) * crate::amount::pow256(b0.len()) + beval(b0)) * 256
                    + b.last(),
                beval(b) == beval(b0) * 256 + b.last(),
                crate::amount::pow256(b.len()) == 256 * crate::amount::pow256(b0.len()),
        ;
    }
}

/// A byte sequence of length `n` denotes a number below `pow256(n)`.
pub proof fn lemma_beval_bound(s: Seq<u8>)
    ensures
        beval(s) < crate::amount::pow256(s.len()),
    decreases s.len(),
{
    if s.len() == 0 {
        assert(crate::amount::pow256(0) == 1);
    } else {
        let s0 = s.drop_last();
        lemma_beval_bound(s0);
        assert(beval(s0) * 256 + s.last() < crate::amount::pow256(s0.len()) * 256)
            by (nonlinear_arith)
            requires
                beval(s0) < crate::amount::pow256(s0.len()),
                s.last() < 256,
        ;
    }
}

/// A byte sequence denotes zero exactly when all its bytes are zero.
pub proof fn lemma_beval_zero(s: Seq<u8>)
    ensures
        (beval(s) == 0) <==> (forall|i: int| 0 <= i < s.len() ==> s[i] == 0),
    decreases s.len(),
{
    if s.len() > 0 {
        let s0 = s.drop_last();
        lemma_beval_zero(s0);
        if beval(s) == 0 {
            assert(beval(s0) == 0 && s.last() == 0);
            assert(forall|i: int| 0 <= i < s.len() - 1 ==> s[i] == s0[i]);
        }
    }
}

/// For equal-length big-endian byte sequences, lexicographic order at
/// the first difference decides numeric order.
pub proof fn lemma_beval_lex(a: Seq<u8>, b: Seq<u8>, i: int)
    requires
        a.len() == b.len(),
        0 <= i < a.len(),
        forall|j: int| 0 <= j < i ==> a[j] == b[j],
        a[i] < b[i],
    ensures
        beval(a) < beval(b),
{
    let n = a.len() as int;
    let m = (n - i - 1) as nat;
    let p = crate::amount::pow256(m);
    let c = a.subrange(0, i);
    assert(c =~= b.subrange(0, i));
    let pa = a.subrange(0, i + 1);
    let pb = b.subrange(0, i + 1);
    let ra = a.subrange(i + 1, n);
    let rb = b.subrange(i + 1, n);
    assert(pa + ra =~= a);
    assert(pb + rb =~= b);
    lemma_beval_concat(pa, ra);
    lemma_beval_concat(pb, rb);
    assert(c + seq![a[i]] =~= pa);
    assert(c + seq![b[i]] =~= pb);
    lemma_beval_concat(c, seq![a[i]]);
    lemma_beval_concat(c, seq![b[i]]);
    lemma_beval_single(a[i]);
    lemma_beval_single(b[i]);
    assert(crate::amount::pow256(0) == 1);
    assert(crate::amount::pow256(1) == 256);
    assert(beval(pa) < beval(pb));
    lemma_beval_bound(ra);
    assert(beval(ra) < p);
    assert(beval(pa) * p + beval(ra) < beval(pb) * p + beval(rb)) by (nonlinear_arith)
        requires
            beval(pa) < beval(pb),
            beval(ra) < p,
    ;
}

/// The order of the secp256k1 group: private scalars must be nonzero
/// and below it.
pub open spec fn secp256k1_order() -> nat {
    0xFFFFFFFFFFFFFFFFFFFFFFFFFFFFFFFEBAAEDCE6AF48A03BBFD25E8CD0364141nat
}

/// Decrypted key material reconstructs a key exactly when it is 32
/// bytes long and denotes a nonzero number below the group order.
pub open spec fn valid_secret_key(k: Seq<u8>) -> bool {
    &&& k.len() == 32
    &&& beval(k) != 0
    &&& beval(k) < secp256k1_order()
}

/// The big-endian bytes of the secp256k1 group order.
fn secp256k1_order_bytes() -> (r: Vec<u8>)
    ensures
        r@.len() == 32,
        beval(r@) == secp256k1_order(),
{
    let mut r: Vec<u8> = Vec::new();
    proof {
        assert(beval(r@) == 0);
    }
    let ghost p0 = r@;
    r.push(0xFF);
    proof {
        assert(r@.drop_last() =~= p0);
        assert(beval(r@) == 0xFFnat);
    }
    let ghost p1 = r@;
    r.push(0xFF);
    proof {
        assert(r@.drop_last() =~= p1);
        assert(beval(r@) == 0xFFFFnat);
    }
    let ghost p2 = r@;
    r.push(0xFF);
    proof {
        assert(r@.drop_last() =~= p2);
        assert(beval(r@) == 0xFFFFFFnat);
    }
    let ghost p3 = r@;
    r.push(0xFF);
    proof {
        assert(r@.drop_last() =~= p3);
        assert(beval(r@) == 0xFFFFFFFFnat);
    }
    let ghost p4 = r@;
    r.push(0xFF);
    proof {
        assert(r@.drop_last() =~= p4);
        assert(beval(r@) == 0xFFFFFFFFFFnat);
    }
    let ghost p5 = r@;
    r.push(0xFF);
    proof {
        assert(r@.drop_last() =~= p5);
        assert(beval(r@) == 0xFFFFFFFFFFFFnat);
    }
    let ghost p6 = r@;
    r.push(0xFF);
    proof {
        assert(r@.drop_last() =~= p6);
        assert(beval(r@) == 0xFFFFFFFFFFFFFFnat);
    }
    let ghost p7 = r@;
    r.push(0xFF);
    proof {
        assert(r@.drop_last() =~= p7);
        assert(beval(r@) == 0xFFFFFFFFFFFFFFFFnat);
    }
    let ghost p8 = r@;
    r.push(0xFF);
    proof {
        assert(r@.drop_last() =~= p8);
        assert(beval(r@) == 0xFFFFFFFFFFFFFFFFFFnat);
    }
    let ghost p9 = r@;
    r.push(0xFF);
    proof {
        assert(r@.drop_last() =~= p9);
        assert(beval(r@) == 0xFFFFFFFFFFFFFFFFFFFFnat);
    }
    let ghost p10 = r@;
    r.push(0xFF);
    proof {
        assert(r@.drop_last() =~= p10);
        assert(beval(r@) == 0xFFFFFFFFFFFFFFFFFFFFFFnat);
    }
    let ghost p11 = r@;
    r.push(0xFF);
    proof {
        assert(r@.drop_last() =~= p11);
        assert(beval(r@) == 0xFFFFFFFFFFFFFFFFFFFFFFFFnat);
    }
    let ghost p12 = r@;
    r.push(0xFF);
    proof {
        assert(r@.drop_last() =~= p12);
        assert(beval(r@) == 0xFFFFFFFFFFFFFFFFFFFFFFFFFFnat);
    }
    let ghost p13 = r@;
    r.push(0xFF);
    proof {
        assert(r@.drop_last() =~= p13);
        assert(beval(r@) == 0xFFFFFFFFFFFFFFFFFFFFFFFFFFFFnat);
    }
    let ghost p14 = r@;
    r.push(0xFF);
    proof {
        assert(r@.drop_last() =~= p14);
        assert(beval(r@) == 0xFFFFFFFFFFFFFFFFFFFFFFFFFFFFFFnat);
    }
    let ghost p15 = r@;
    r.push(0xFE);
    proof {
        assert(r@.drop_last() =~= p15);
        assert(beval(r@) == 0xFFFFFFFFFFFFFFFFFFFFFFFFFFFFFFFEnat);
    }
    let ghost p16 = r@;
    r.push(0xBA);
    proof {
        assert(r@.drop_last() =~= p16);
        assert(beval(r@) == 0xFFFFFFFFFFFFFFFFFFFFFFFFFFFFFFFEBAnat);
    }
    let ghost p17 = r@;
    r.push(0xAE);
    proof {
        assert(r@.drop_last() =~= p17);
        assert(beval(r@) == 0xFFFFFFFFFFFFFFFFFFFFFFFFFFFFFFFEBAAEnat);
    }
    let ghost p18 = r@;
    r.push(0xDC);
    proof {
        assert(r@.drop_last() =~= p18);
        assert(beval(r@) == 0xFFFFFFFFFFFFFFFFFFFFFFFFFFFFFFFEBAAEDCnat);
    }
    let ghost p19 = r@;
    r.push(0xE6);
    proof {
        assert(r@.drop_last() =~= p19);
        assert(beval(r@) == 0xFFFFFFFFFFFFFFFFFFFFFFFFFFFFFFFEBAAEDCE6nat);
    }
    let ghost p20 = r@;
    r.push(0xAF);
    proof {
        assert(r@.drop_last() =~= p20);
        assert(beval(r@) == 0xFFFFFFFFFFFFFFFFFFFFFFFFFFFFFFFEBAAEDCE6AFnat);
    }
    let ghost p21 = r@;
    r.push(0x48);
    proof {
        assert(r@.drop_last() =~= p21);
        assert(beval(r@) == 0xFFFFFFFFFFFFFFFFFFFFFFFFFFFFFFFEBAAEDCE6AF48nat);
    }
    let ghost p22 = r@;
    r.push(0xA0);
    proof {
        assert(r@.drop_last() =~= p22);
        assert(beval(r@) == 0xFFFFFFFFFFFFFFFFFFFFFFFFFFFFFFFEBAAEDCE6AF48A0nat);
    }
    let ghost p23 = r@;
    r.push(0x3B);
    proof {
        assert(r@.drop_last() =~= p23);
        assert(beval(r@) == 0xFFFFFFFFFFFFFFFFFFFFFFFFFFFFFFFEBAAEDCE6AF48A03Bnat);
    }
    let ghost p24 = r@;
    r.push(0xBF);
    proof {
        assert(r@.drop_last() =~= p24);
        assert(beval(r@) == 0xFFFFFFFFFFFFFFFFFFFFFFFFFFFFFFFEBAAEDCE6AF48A03BBFnat);
    }
    let ghost p25 = r@;
    r.push(0xD2);
    proof {
        assert(r@.drop_last() =~= p25);
        assert(beval(r@) == 0xFFFFFFFFFFFFFFFFFFFFFFFFFFFFFFFEBAAEDCE6AF48A03BBFD2nat);
    }
    let ghost p26 = r@;
    r.push(0x5E);
    proof {
        assert(r@.drop_last() =~= p26);
        assert(beval(r@) == 0xFFFFFFFFFFFFFFFFFFFFFFFFFFFFFFFEBAAEDCE6AF48A03BBFD25Enat);
    }
    let ghost p27 = r@;
    r.push(0x8C);
    proof {
        assert(r@.drop_last() =~= p27);
        assert(beval(r@) == 0xFFFFFFFFFFFFFFFFFFFFFFFFFFFFFFFEBAAEDCE6AF48A03BBFD25E8Cnat);
    }
    let ghost p28 = r@;
    r.push(0xD0);
    proof {
        assert(r@.drop_last() =~= p28);
        assert(beval(r@) == 0xFFFFFFFFFFFFFFFFFFFFFFFFFFFFFFFEBAAEDCE6AF48A03BBFD25E8CD0nat);
    }
    let ghost p29 = r@;
    r.push(0x36);
    proof {
        assert(r@.drop_last() =~= p29);
        assert(beval(r@) == 0xFFFFFFFFFFFFFFFFFFFFFFFFFFFFFFFEBAAEDCE6AF48A03BBFD25E8CD036nat);
    }
    let ghost p30 = r@;
    r.push(0x41);
    proof {
        assert(r@.drop_last() =~= p30);
        assert(beval(r@) == 0xFFFFFFFFFFFFFFFFFFFFFFFFFFFFFFFEBAAEDCE6AF48A03BBFD25E8CD03641nat);
    }
    let ghost p31 = r@;
    r.push(0x41);
    proof {
        assert(r@.drop_last() =~= p31);
        assert(beval(r@) == 0xFFFFFFFFFFFFFFFFFFFFFFFFFFFFFFFEBAAEDCE6AF48A03BBFD25E8CD0364141nat);
    }
    r
}

/// A decrypted private scalar, validated against the curve order.
#[derive(Debug, Clone)]
pub struct SecretKey {
    pub bytes: Vec<u8>,
}

impl SecretKey {
    /// The bytes are a well-formed secp256k1 private scalar.
    pub open spec fn wf(&self) -> bool {
        valid_secret_key(self.bytes@)
    }
}

/// Wallet operations.
pub struct Wallet;

/// The top-level "address" member of the keystore content, when the
/// content is JSON and the member is a string.
pub uninterp spec fn keystore_address_of(content: Seq<char>) -> Option<Seq<char>>;

/// Relies on serde_json (from_str, Value::get, Value::as_str): parse
/// the content as JSON and pick its top-level "address" member when it
/// is a string. The result is a function of the content alone.
#[verifier::external_body]
fn extract_address_field(content: &str) -> (r: Option<String>)
    ensures
        view_opt(r) == keystore_address_of(content@),
{
    let v: serde_json::Value = match serde_json::from_str(content) {
        Ok(v) => v,
        Err(_) => {
            return None;
        },
    };
    match v.get("address") {
        Some(a) => a.as_str().map(|s| s.to_string()),
        None => None,
    }
}

/// Relies on rand (thread_rng, Rng::gen_range): a random index below
/// 62, drawn uniformly. Only the bound is promised.
#[verifier::external_body]
fn random_alnum_index() -> (r: u8)
    ensures
        r < 62,
{
    rand::Rng::gen_range(&mut rand::thread_rng(), 0u8..62u8)
}

/// `c` is an ASCII letter or digit.
pub open spec fn is_alnum(c: char) -> bool {
    ||| (48 <= c as int <= 57)
    ||| (65 <= c as int <= 90)
    ||| (97 <= c as int <= 122)
}

/// `a` with a `0x` prefix, added if it is not already there.
pub open spec fn spec_with_0x(a: Seq<char>) -> Seq<char> {
    if a.len() >= 2 && a[0] == '0' && a[1] == 'x' {
        a
    } else {
        seq!['0', 'x'] + a
    }
}

/// Ensure a `0x` prefix on an address.
pub fn normalize_address(a: &str) -> (r: String)
    ensures
        r@ == spec_with_0x(a@),
{
    let n = a.unicode_len();
    if n >= 2 && a.get_char(0) == '0' && a.get_char(1) == 'x' {
        a.to_owned()
    } else {
        let r = String::from_str("0x").concat(a);
        proof {
            reveal_strlit("0x");
            assert("0x"@ =~= seq!['0', 'x']);
        }
        r
    }
}

impl Wallet {
    /// Generate a password of 32 characters drawn from the ASCII
    /// letters and digits.
    pub fn generate_password() -> (r: String)
        ensures
            r@.len() == 32,
            forall|i: int| 0 <= i < 32 ==> is_alnum(r@[i]),
    {
        let mut bytes: Vec<u8> = Vec::new();
        let mut i: usize = 0;
        while i < 32
            invariant
                i <= 32,
                bytes@.len() == i,
                forall|j: int|
                    0 <= j < i ==> bytes@[j] < 128 && ((48 <= bytes@[j] <= 57) || (65 <= bytes@[j]
                        <= 90) || (97 <= bytes@[j] <= 122)),
            decreases 32 - i,
        {
            let idx = random_alnum_index();
            let b: u8 = if idx < 10 {
                48 + idx
            } else if idx < 36 {
                97 + (idx - 10)
            } else {
                65 + (idx - 36)
            };
            bytes.push(b);
            i += 1;
        }
        let r = ascii_string(bytes);
        r
    }

    /// Extract the public address from keystore content, 0x-prefixed,
    /// without any decryption. The stored casing is kept.
    pub fn get_address(content: &str) -> (r: Result<String, Error>)
        ensures
            keystore_address_of(content@) is None ==> (r matches Err(e) && (
            e matches Error::Wallet(m) && m@ == "No address field in keystore"@)),
            keystore_address_of(content@) matches Some(a) ==> (r matches Ok(s) && s@
                == spec_with_0x(a)),
    {
        match extract_address_field(content) {
            Some(a) => Ok(normalize_address(a.as_str())),
            None => Err(Error::Wallet("No address field in keystore".to_owned())),
        }
    }

    /// Judge the outcome of keystore decryption: `None` stands for a
    /// failed decryption (a wrong password), and decrypted bytes that
    /// do not reconstruct a key are treated the same way. A key is
    /// returned exactly when the bytes are a well-formed private
    /// scalar.
    pub fn decrypt(outcome: Option<Vec<u8>>) -> (r: Result<SecretKey, Error>)
        ensures
            r is Ok <==> (outcome matches Some(k) && valid_secret_key(k@)),
            r matches Ok(sk) ==> sk.wf() && (outcome matches Some(k) && sk.bytes@ == k@),
            r is Err ==> (r matches Err(e) && e matches Error::InvalidPassword),
    {
        let bytes = match outcome {
            Some(k) => k,
            None => {
                return Err(Error::InvalidPassword);
            },
        };

        if bytes.len() != 32 {
            return Err(Error::InvalidPassword);
        }
        // the scalar must not be zero
        let mut any_nonzero = false;
        let mut i: usize = 0;
        while i < 32
            invariant
                i <= 32,
                bytes@.len() == 32,
                outcome == Some(bytes),
                any_nonzero <==> exists|j: int| 0 <= j < i && bytes@[j] != 0,
            decreases 32 - i,
        {
            if bytes[i] != 0 {
                any_nonzero = true;
            }
            i += 1;
        }
        proof {
            lemma_beval_zero(bytes@);
        }
        if !any_nonzero {
            return Err(Error::InvalidPassword);
        }
        // the scalar must be below the group order
        let order = secp256k1_order_bytes();
        let mut lt = false;
        let mut k: usize = 0;
        while k < 32
            invariant
                k <= 32,
                bytes@.len() == 32,
                outcome == Some(bytes),
                order@.len() == 32,
                beval(order@) == secp256k1_order(),
                !lt ==> forall|j: int| 0 <= j < k ==> bytes@[j] == order@[j],
                lt ==> beval(bytes@) < secp256k1_order(),
            decreases 32 - k,
        {
            if !lt {
                if bytes[k] < order[k] {
                    proof {
                        lemma_beval_lex(bytes@, order@, k as int);
                    }
                    lt = true;
                } else if bytes[k] > order[k] {
                    proof {
                        lemma_beval_lex(order@, bytes@, k as int);
                    }
                    return Err(Error::InvalidPassword);
                }
            }
            k += 1;
        }
        if !lt {
            proof {
                assert(bytes@ =~= order@);
            }
            return Err(Error::InvalidPassword);
        }
        Ok(SecretKey { bytes })
    }

    /// The password as read from a password file: the content with its
    /// surrounding whitespace removed.
    pub fn load_password(content: &str) -> (r: String)
        ensures
            r@ == spec_trim(content@),
    {
        trim_whitespace(content)
    }

    /// Creating a wallet is allowed only where none exists: an
    /// existing file is never overwritten.
    pub fn check_can_create(wallet_exists: bool, path: &str) -> (r: Result<(), Error>)
        ensures
            wallet_exists ==> (r matches Err(e) && (e matches Error::WalletExists(m) && m@
                == path@)),
            !wallet_exists ==> r is Ok,
    {
        if wallet_exists {
            Err(Error::WalletExists(path.to_owned()))
        } else {
            Ok(())
        }
    }

    /// Choose the password for a new wallet: the caller's, when one is
    /// given, else a fresh 32-character password that must then be
    /// saved to a file.
    pub fn resolve_create_password(provided: Option<String>) -> (r: (String, bool))
        ensures
            provided matches Some(p) ==> r.0 == p && r.1 == false,
            provided is None ==> r.1 == true && r.0@.len() == 32 && (forall|i: int|
                0 <= i < 32 ==> is_alnum(r.0@[i])),
    {
        match provided {
            Some(p) => (p, false),
            None => (Wallet::generate_password(), true),
        }
    }
}

} // verus!

verus! {

impl Wallet {
    /// The form of an address stored in the keystore file: the `0x`
    /// prefix removed and the hex digits lowered.
    pub fn address_for_keystore(address: &str) -> (r: String)
        requires
            vstd::string::is_ascii(address),
        ensures
            r@ == crate::text::lower_chars(crate::abi::spec_strip_0x(address@)),
    {
        let n = address.unicode_len();
        let stripped = if n >= 2 && address.get_char(0) == '0' && address.get_char(1) == 'x' {
            address.substring_char(2, n)
        } else {
            address.substring_char(0, n)
        };
        proof {
            assert(address@.subrange(0, n as int) =~= address@);
            assert forall|i: int| 0 <= i < stripped@.len() implies '\0' <= #[trigger] stripped@[i]
                <= '\u{7f}' by {
                assert(vstd::utf8::is_ascii_chars(address@));
                if n >= 2 && address@[0] == '0' && address@[1] == 'x' {
                    assert(stripped@[i] == address@[2 + i]);
                } else {
                    assert(stripped@[i] == address@[i]);
                }
            }
        }
        let r = crate::text::to_ascii_lowercase(stripped);
        r
    }
}

} // verus!

verus! {

/// The character is a lowercase hex digit.
pub open spec fn is_lower_hex_char(c: char) -> bool {
    (48 <= c as int <= 57) || (97 <= c as int <= 102)
}

/// The persisted shape of a wallet: the public address in plaintext
/// beside the opaque cipher parameters, so that address lookup never
/// needs the password. The cipher parameters are carried as raw JSON
/// text.
#[derive(Debug, Clone)]
pub struct EncryptedWallet {
    /// 40 lowercase hex digits, without a `0x` prefix.
    pub address: String,
    /// The cipher and key-derivation parameters, as stored.
    pub crypto: String,
    /// The keystore's identifier.
    pub id: String,
    /// The keystore format version.
    pub version: u32,
}

impl EncryptedWallet {
    /// The address is present and decodable independent of the
    /// password: exactly 40 lowercase hex digits.
    pub open spec fn wf(&self) -> bool {
        self.address@.len() == 40 && forall|i: int|
            0 <= i < 40 ==> is_lower_hex_char(#[trigger] self.address@[i])
    }

    /// Check well-formedness of the stored address.
    pub fn is_well_formed(&self) -> (r: bool)
        ensures
            r == self.wf(),
    {
        let n = self.address.as_str().unicode_len();
        if n != 40 {
            return false;
        }
        let mut i: usize = 0;
        while i < 40
            invariant
                i <= 40,
                self.address@.len() == 40,
                forall|j: int| 0 <= j < i ==> is_lower_hex_char(#[trigger] self.address@[j]),
            decreases 40 - i,
        {
            let u = self.address.as_str().get_char(i) as u32;
            if !((u >= 48 && u <= 57) || (u >= 97 && u <= 102)) {
                assert(!is_lower_hex_char(self.address@[i as int]));
                return false;
            }
            i += 1;
        }
        true
    }
}

} // verus!
