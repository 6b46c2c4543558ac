//! Byte-string encoding helpers and the hash primitive.
//!
//! Numbers are rendered in decimal (as the wire text of the protocol), byte
//! strings are concatenated, and commitments hash a byte string with SHA-256
//! and read the 32-byte digest as a little-endian integer reduced mod `N`.

use vstd::prelude::*;

verus! {

use vstd::arithmetic::div_mod::lemma_add_mod_noop;
use vstd::arithmetic::div_mod::lemma_mod_bound;
use vstd::arithmetic::div_mod::lemma_mul_mod_noop_general;
use vstd::arithmetic::div_mod::lemma_small_mod;

/// The SHA-256 digest of a byte sequence, as a name; what it is on given
/// bytes is computed only by the sha2 crate.
pub uninterp spec fn sha256_of(data: Seq<u8>) -> Seq<u8>;

/// Relies on sha2::Sha256 through the Digest trait: the digest is 32 bytes
/// and depends on the input bytes alone.
#[verifier::external_body]
fn sha256(data: &Vec<u8>) -> (r: Vec<u8>)
    ensures
        r@ == sha256_of(data@),
        r@.len() == 32,
{
    <sha2::Sha256 as sha2::Digest>::digest(data.as_slice()).as_slice().to_vec()
}

/// Decimal rendering of a natural number, most significant digit first.
pub open spec fn dec_of(x: nat) -> Seq<u8>
    decreases x,
{
    if x < 10 {
        seq![(48 + x) as u8]
    } else {
        dec_of(x / 10).push((48 + x % 10) as u8)
    }
}

/// Renders `x` in decimal, as the ASCII bytes of its usual notation.
pub fn decimal_bytes(x: u64) -> (r: Vec<u8>)
    ensures
        r@ == dec_of(x as nat),
    decreases x,
{
    if x < 10 {
        let mut v: Vec<u8> = Vec::new();
        v.push(48 + (x as u8));
        v
    } else {
        let mut v = decimal_bytes(x / 10);
        v.push(48 + ((x % 10) as u8));
        v
    }
}

/// Little-endian integer value of the bytes of `s` from position `i` on.
pub open spec fn le_val_from(s: Seq<u8>, i: int) -> nat
    decreases s.len() - i,
{
    if i < 0 || i >= s.len() {
        0
    } else {
        (s[i] as nat) + 256 * le_val_from(s, i + 1)
    }
}

/// Little-endian integer value of a byte sequence.
pub open spec fn le_val(s: Seq<u8>) -> nat {
    le_val_from(s, 0)
}

/// The hash residue a commitment uses: SHA-256 of `data`, read as a
/// little-endian integer, reduced mod `n`.
pub open spec fn hash_residue_spec(data: Seq<u8>, n: int) -> int {
    (le_val(sha256_of(data)) as int) % n
}

/// Hashes a byte string to a residue class mod `n`.
pub fn hash_to_residue(data: &Vec<u8>, n: u64) -> (r: u64)
    requires
        n >= 1,
    ensures
        r == hash_residue_spec(data@, n as int),
        r < n,
{
    let digest = sha256(data);
    let ni = Ghost(n as int);
    let mut acc: u64 = 0;
    let mut i: usize = digest.len();
    proof {
        lemma_small_mod(0nat, n as nat);
    }
    while i > 0
        invariant
            n >= 1,
            ni@ == n as int,
            i <= digest@.len(),
            digest@ == sha256_of(data@),
            acc == (le_val_from(digest@, i as int) as int) % ni@,
            acc < n,
        decreases i,
    {
        i = i - 1;
        let b = digest[i];
        let ghost acc0 = acc as int;
        let ghost tail = le_val_from(digest@, i + 1) as int;
        acc = ((((acc as u128) * 256) + (b as u128)) % (n as u128)) as u64;
        proof {
            lemma_mod_bound(acc0 * 256 + b, ni@);
            assert(le_val_from(digest@, i as int) == (b as nat) + 256 * le_val_from(
                digest@,
                i + 1,
            ));
            assert(acc == (acc0 * 256 + b) % ni@);
            assert((acc0 * 256) % ni@ == (tail * 256) % ni@) by {
                lemma_mul_mod_noop_general(tail, 256, ni@);
            }
            lemma_add_mod_noop(acc0 * 256, b as int, ni@);
            lemma_add_mod_noop(tail * 256, b as int, ni@);
            assert((acc0 * 256 + b) % ni@ == (tail * 256 + b) % ni@);
        }
    }
    acc
}

/// Concatenation of two byte strings.
pub fn concat_bytes(a: &Vec<u8>, b: &Vec<u8>) -> (r: Vec<u8>)
    ensures
        r@ == a@ + b@,
{
    let mut r: Vec<u8> = Vec::new();
    let mut i: usize = 0;
    while i < a.len()
        invariant
            i <= a@.len(),
            r@ == a@.take(i as int),
        decreases a@.len() - i,
    {
        let x = a[i];
        r.push(x);
        i = i + 1;
        proof {
            assert(r@ =~= a@.take(i as int));
        }
    }
    proof {
        assert(r@ =~= a@.take(a@.len() as int) + b@.take(0));
    }
    let mut j: usize = 0;
    while j < b.len()
        invariant
            j <= b@.len(),
            r@ == a@.take(a@.len() as int) + b@.take(j as int),
        decreases b@.len() - j,
    {
        let x = b[j];
        r.push(x);
        j = j + 1;
        proof {
            assert(r@ =~= a@.take(a@.len() as int) + b@.take(j as int));
        }
    }
    proof {
        assert(a@.take(a@.len() as int) =~= a@);
        assert(b@.take(b@.len() as int) =~= b@);
        assert(r@ =~= a@ + b@);
    }
    r
}

} // verus!
