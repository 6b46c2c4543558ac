//! Shared parameters, wire types, and the spec-level model of commitments.

use vstd::prelude::*;

verus! {

use vstd::arithmetic::power::pow;

use crate::cipher::EJPubKey;
use crate::encoding::dec_of;
use crate::encoding::hash_residue_spec;
use crate::rng::is_alnum;

/// RSA public key of the signer: modulus and public exponent.
#[derive(Clone, Copy, Debug)]
pub struct SignerPubKey {
    pub n: u64,
    pub e: u64,
}

/// Shared session parameters: the judge's public key, the signer's public
/// key, the security parameter `k` (the session uses `2k` commitments), and
/// the sender's identifier.
#[derive(Clone)]
pub struct FBSParameters<EJ: EJPubKey> {
    pub judge_pubkey: EJ,
    pub signer_pubkey: SignerPubKey,
    pub k: u32,
    pub id: u32,
}

/// Parameter sanity: at least one commitment pair, a bound that keeps `2k`
/// within machine range, and a modulus admitting nontrivial residues.
pub open spec fn params_wf<EJ: EJPubKey>(p: FBSParameters<EJ>) -> bool {
    &&& p.k >= 1
    &&& p.k <= 0x1000_0000
    &&& p.signer_pubkey.n >= 2
}

/// The per-session random strings: one byte of `alpha` and one of `beta`
/// for each of the `2k` commitments.
#[derive(Clone)]
pub struct RandomStrings {
    pub alpha: Vec<u8>,
    pub beta: Vec<u8>,
}

/// The blinded digests `m_0 .. m_{2k-1}`, sent sender to signer.
#[derive(Clone)]
pub struct BlindedDigest {
    pub m: Vec<u64>,
}

/// The blinding scalars `r_0 .. r_{2k-1}`, kept by the sender.
#[derive(Clone)]
pub struct Unblinder {
    pub r: Vec<u64>,
}

/// The message ciphertexts `u_0 .. u_{2k-1}`.
#[derive(Clone)]
pub struct EncryptedMessage {
    pub u: Vec<Vec<u8>>,
}

/// The trace ciphertexts `v_0 .. v_{2k-1}` binding the sender's identity.
#[derive(Clone)]
pub struct EncryptedID {
    pub v: Vec<Vec<u8>>,
}

/// The signer's blind signature over the complement product.
#[derive(Clone)]
pub struct BlindSignature {
    pub b: u64,
}

/// The challenge: the `k` opened indices and their complement, both
/// ascending, partitioning `{0 .. 2k-1}`.
#[derive(Clone)]
pub struct Subset {
    pub subset: Vec<u32>,
    pub complement: Vec<u32>,
}

/// The sender's opening of the challenged indices: for the `j`-th index of
/// the subset, its ciphertext `u`, scalar `r`, and `beta` byte.
#[derive(Clone)]
pub struct CheckParameter {
    pub part_of_encrypted_message: EncryptedMessage,
    pub part_of_unblinder: Unblinder,
    pub part_of_beta: Vec<u8>,
}

/// The final signature: the unblinded value `s`, the disclosed `alpha`, the
/// trace ciphertexts of the complement indices (in complement order), and
/// the challenge descriptor.
#[derive(Clone)]
pub struct Signature {
    pub s: u64,
    pub alpha: Vec<u8>,
    pub encrypted_id: EncryptedID,
    pub subset: Subset,
}

/// Strict ascending order.
pub open spec fn strictly_increasing(s: Seq<u32>) -> bool {
    forall|i: int, j: int| 0 <= i < j < s.len() ==> s[i] < s[j]
}

/// Some position of `s` holds `x`.
pub open spec fn seq_contains(s: Seq<u32>, x: u32) -> bool {
    exists|i: int| 0 <= i < s.len() && s[i] == x
}

/// A well-formed challenge: both halves list `k` indices in ascending
/// order, and every index below `2k` lies in exactly one half.
pub open spec fn subset_wf(sub: Subset, k: int) -> bool {
    &&& sub.subset@.len() == k
    &&& sub.complement@.len() == k
    &&& strictly_increasing(sub.subset@)
    &&& strictly_increasing(sub.complement@)
    &&& forall|i: int| 0 <= i < sub.subset@.len() ==> #[trigger] sub.subset@[i] < 2 * k
    &&& forall|i: int| 0 <= i < sub.complement@.len() ==> #[trigger] sub.complement@[i] < 2 * k
    &&& forall|x: u32|
        x < 2 * k ==> (#[trigger] seq_contains(sub.subset@, x) <==> !seq_contains(
            sub.complement@,
            x,
        ))
}

/// The plaintext committed for the message at one index: the message bytes
/// followed by the decimal rendering of the alpha byte.
pub open spec fn u_plain(msg: Seq<u8>, a: u8) -> Seq<u8> {
    msg + dec_of(a as nat)
}

/// The trace plaintext at one index: the sender id and the beta byte, both
/// rendered in decimal.
pub open spec fn v_plain(id: u32, b: u8) -> Seq<u8> {
    dec_of(id as nat) + dec_of(b as nat)
}

/// A commitment digest: `r^e * H(u ‖ v) mod n`, where `H` is the SHA-256
/// hash residue.
pub open spec fn commit_m(r: int, e: int, n: int, u: Seq<u8>, v: Seq<u8>) -> int {
    (pow(r, e as nat) * hash_residue_spec(u + v, n)) % n
}

/// All bytes of `s` are alphanumeric.
pub open spec fn all_alnum(s: Seq<u8>) -> bool {
    forall|i: int| 0 <= i < s.len() ==> is_alnum(#[trigger] s[i])
}

/// In a strictly increasing sequence whose adjacent pairs ascend, any
/// earlier element is below any later one.
proof fn lemma_adjacent_increasing(s: Seq<u32>, i: int, j: int)
    requires
        forall|t: int| 0 < t < s.len() ==> #[trigger] s[t - 1] < s[t],
        0 <= i < j < s.len(),
    ensures
        s[i] < s[j],
    decreases j - i,
{
    if j > i + 1 {
        lemma_adjacent_increasing(s, i, j - 1);
    }
    assert(s[j - 1] < s[j]);
}

/// Checks strict ascending order of a vector of indices.
pub fn is_strictly_increasing(v: &Vec<u32>) -> (b: bool)
    ensures
        b == strictly_increasing(v@),
{
    let mut t: usize = 1;
    while t < v.len()
        invariant
            1 <= t,
            t <= v@.len() || v@.len() == 0,
            forall|i: int| 0 < i < t && i < v@.len() ==> #[trigger] v@[i - 1] < v@[i],
        decreases v@.len() - t,
    {
        if v[t - 1] >= v[t] {
            proof {
                assert(!strictly_increasing(v@)) by {
                    assert(0 <= t - 1 < t < v@.len() && v@[t as int - 1] >= v@[t as int]);
                }
            }
            return false;
        }
        t = t + 1;
    }
    proof {
        assert forall|i: int, j: int| 0 <= i < j < v@.len() implies v@[i] < v@[j] by {
            lemma_adjacent_increasing(v@, i, j);
        }
    }
    true
}

/// Membership after a push: the new element, or an old member.
pub proof fn lemma_contains_push(s: Seq<u32>, y: u32, x: u32)
    ensures
        seq_contains(s.push(y), x) <==> (seq_contains(s, x) || x == y),
{
    if seq_contains(s, x) {
        let idx = choose|i: int| 0 <= i < s.len() && s[i] == x;
        assert(s.push(y)[idx] == x);
    }
    if x == y {
        assert(s.push(y)[s.len() as int] == x);
    }
    if seq_contains(s.push(y), x) {
        let idx = choose|i: int| 0 <= i < s.push(y).len() && s.push(y)[i] == x;
        if idx < s.len() {
            assert(s[idx] == x);
        }
    }
}

/// Appending an element above every member keeps strict ascending order.
pub proof fn lemma_push_increasing(s: Seq<u32>, y: u32)
    requires
        strictly_increasing(s),
        forall|t: int| 0 <= t < s.len() ==> #[trigger] s[t] < y,
    ensures
        strictly_increasing(s.push(y)),
{
    assert forall|a: int, b: int| 0 <= a < b < s.push(y).len() implies s.push(y)[a] < s.push(y)[b] by {
        if b < s.len() {
        } else {
            assert(s.push(y)[a] == s[a]);
        }
    }
}

/// A value above every member is not a member.
pub proof fn lemma_all_below_not_contains(s: Seq<u32>, x: u32)
    requires
        forall|t: int| 0 <= t < s.len() ==> #[trigger] s[t] < x,
    ensures
        !seq_contains(s, x),
{
    if seq_contains(s, x) {
        let idx = choose|i: int| 0 <= i < s.len() && s[i] == x;
    }
}

/// Checks a received challenge for well-formedness: `k` ascending indices
/// in each half, partitioning `{0 .. 2k-1}`.
pub fn subset_check(sub: &Subset, k: u32) -> (b: bool)
    requires
        1 <= k <= 0x1000_0000,
    ensures
        b == subset_wf(*sub, k as int),
{
    let ku: usize = k as usize;
    if sub.subset.len() != ku || sub.complement.len() != ku {
        return false;
    }
    if !is_strictly_increasing(&sub.subset) {
        return false;
    }
    if !is_strictly_increasing(&sub.complement) {
        return false;
    }
    let n2k: u32 = 2 * k;
    let mut si: usize = 0;
    let mut ci: usize = 0;
    let mut x: u32 = 0;
    while x < n2k
        invariant
            1 <= k <= 0x1000_0000,
            ku == k as usize,
            n2k == 2 * k,
            x <= n2k,
            si <= k,
            ci <= k,
            si + ci == x,
            sub.subset@.len() == k as int,
            sub.complement@.len() == k as int,
            strictly_increasing(sub.subset@),
            strictly_increasing(sub.complement@),
            forall|idx: int| 0 <= idx < si ==> #[trigger] sub.subset@[idx] < x,
            forall|idx: int| si <= idx < k ==> #[trigger] sub.subset@[idx] >= x,
            forall|idx: int| 0 <= idx < ci ==> #[trigger] sub.complement@[idx] < x,
            forall|idx: int| ci <= idx < k ==> #[trigger] sub.complement@[idx] >= x,
            forall|y: u32|
                y < x ==> (#[trigger] seq_contains(sub.subset@, y) <==> !seq_contains(
                    sub.complement@,
                    y,
                )),
        decreases n2k - x,
    {
        let in_s = si < ku && sub.subset[si] == x;
        let in_c = ci < ku && sub.complement[ci] == x;
        proof {
            // If a pointer has not matched, the element is absent entirely.
            if !in_s {
                assert(!seq_contains(sub.subset@, x)) by {
                    assert forall|idx: int| 0 <= idx < sub.subset@.len() implies sub.subset@[idx]
                        != x by {
                        if idx < si {
                        } else if idx == si {
                        } else {
                            assert(sub.subset@[idx] > sub.subset@[si as int]);
                        }
                    }
                }
            }
            if !in_c {
                assert(!seq_contains(sub.complement@, x)) by {
                    assert forall|idx: int|
                        0 <= idx < sub.complement@.len() implies sub.complement@[idx] != x by {
                        if idx < ci {
                        } else if idx == ci {
                        } else {
                            assert(sub.complement@[idx] > sub.complement@[ci as int]);
                        }
                    }
                }
            }
        }
        if in_s && in_c {
            proof {
                assert(seq_contains(sub.subset@, x)) by {
                    assert(sub.subset@[si as int] == x);
                }
                assert(seq_contains(sub.complement@, x)) by {
                    assert(sub.complement@[ci as int] == x);
                }
            }
            return false;
        } else if in_s {
            proof {
                assert(seq_contains(sub.subset@, x)) by {
                    assert(sub.subset@[si as int] == x);
                }
                assert forall|idx: int| si + 1 <= idx < k implies #[trigger] sub.subset@[idx] >= x
                    + 1 by {
                    if idx > si {
                        assert(sub.subset@[idx] > sub.subset@[si as int]);
                    }
                }
            }
            si = si + 1;
        } else if in_c {
            proof {
                assert(seq_contains(sub.complement@, x)) by {
                    assert(sub.complement@[ci as int] == x);
                }
                assert forall|idx: int| ci + 1 <= idx < k implies #[trigger] sub.complement@[idx]
                    >= x + 1 by {
                    if idx > ci {
                        assert(sub.complement@[idx] > sub.complement@[ci as int]);
                    }
                }
            }
            ci = ci + 1;
        } else {
            proof {
                assert(x < 2 * k);
            }
            return false;
        }
        x = x + 1;
        proof {
            assert forall|idx: int| si <= idx < k implies #[trigger] sub.subset@[idx] >= x by {}
            assert forall|idx: int| ci <= idx < k implies #[trigger] sub.complement@[idx] >= x by {}
        }
    }
    proof {
        assert(si == k && ci == k);
        assert forall|i: int| 0 <= i < sub.subset@.len() implies #[trigger] sub.subset@[i] < 2
            * k by {}
        assert forall|i: int| 0 <= i < sub.complement@.len() implies #[trigger] sub.complement@[i]
            < 2 * k by {}
    }
    true
}

} // verus!
