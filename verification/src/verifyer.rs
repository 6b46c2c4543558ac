//! The stateless verifier: recomputes the complement's hash residues from
//! the disclosed `alpha` and the signature's trace ciphertexts, and checks
//! the verification equation `s^e == prod of residues (mod n)`.

use vstd::prelude::*;

verus! {

use vstd::arithmetic::power::pow;

use crate::arith::modpow;
use crate::arith::mul_mod;
use crate::arith::prod_mod;
use crate::cipher::EJPubKey;
use crate::encoding::concat_bytes;
use crate::encoding::decimal_bytes;
use crate::encoding::hash_residue_spec;
use crate::encoding::hash_to_residue;
use crate::types::FBSParameters;
use crate::types::Signature;
use crate::types::params_wf;
use crate::types::subset_check;
use crate::types::subset_wf;
use crate::types::u_plain;

/// A signature's shape for security parameter `k`: `2k` alpha bytes, `k`
/// trace ciphertexts, and a well-formed challenge descriptor.
pub open spec fn signature_wf(sig: Signature, k: int) -> bool {
    &&& sig.alpha@.len() == 2 * k
    &&& sig.encrypted_id.v@.len() == k
    &&& subset_wf(sig.subset, k)
}

/// The hash residues the verifier recomputes, rank by rank over the
/// complement: `H(Enc_J(message ‖ alpha[i]) ‖ v_i) mod n` for `i` the
/// `j`-th complement index, with `v_i` taken from the signature.
pub open spec fn verify_hashes<EJ: EJPubKey>(
    p: FBSParameters<EJ>,
    sig: Signature,
    msg: Seq<u8>,
) -> Seq<int> {
    Seq::new(
        sig.subset.complement@.len(),
        |j: int|
            hash_residue_spec(
                p.judge_pubkey.enc_spec(
                    u_plain(msg, sig.alpha@[sig.subset.complement@[j] as int]),
                ) + sig.encrypted_id.v@[j]@,
                p.signer_pubkey.n as int,
            ),
    )
}

/// The binding verification rule: the signature is well shaped and `s^e`
/// equals the product of the recomputed hash residues, mod `n`.
pub open spec fn verify_spec<EJ: EJPubKey>(
    p: FBSParameters<EJ>,
    sig: Signature,
    msg: Seq<u8>,
) -> bool {
    &&& signature_wf(sig, p.k as int)
    &&& pow(sig.s as int, p.signer_pubkey.e as nat) % (p.signer_pubkey.n as int) == prod_mod(
        verify_hashes(p, sig, msg),
        p.signer_pubkey.n as int,
    )
}

/// The verifier of a session: stateless but for the shared parameters.
#[derive(Clone)]
pub struct FBSVerifyer<EJ: EJPubKey> {
    pub parameters: FBSParameters<EJ>,
}

impl<EJ: EJPubKey> FBSVerifyer<EJ> {
    /// A verifier for the given session parameters.
    pub fn new(parameters: FBSParameters<EJ>) -> (r: FBSVerifyer<EJ>)
        ensures
            r.parameters == parameters,
    {
        FBSVerifyer { parameters }
    }

    /// Checks `signature` against `message`.  Returns exactly the value of
    /// the verification rule, so two runs on the same inputs agree.
    #[verifier::loop_isolation(false)]
    pub fn verify(self, signature: Signature, message: Vec<u8>) -> (r: bool)
        requires
            params_wf(self.parameters),
        ensures
            r == verify_spec(self.parameters, signature, message@),
    {
        let k = self.parameters.k;
        let n = self.parameters.signer_pubkey.n;
        let e = self.parameters.signer_pubkey.e;
        if signature.alpha.len() != (2 * k) as usize {
            return false;
        }
        if signature.encrypted_id.v.len() != k as usize {
            return false;
        }
        if !subset_check(&signature.subset, k) {
            return false;
        }
        let s_e = modpow(signature.s, e, n);
        let comp = &signature.subset.complement;
        let ghost hs = verify_hashes(self.parameters, signature, message@);
        let mut acc: u64 = 1 % n;
        let mut j: usize = 0;
        proof {
            assert(hs.take(0) =~= Seq::<int>::empty());
        }
        while j < comp.len()
            invariant
                j <= comp@.len(),
                acc as int == prod_mod(hs.take(j as int), n as int),
                acc < n,
            decreases comp@.len() - j,
        {
            let idx = comp[j] as usize;
            let ua = concat_bytes(&message, &decimal_bytes(signature.alpha[idx] as u64));
            let u_j = self.parameters.judge_pubkey.encrypt(ua);
            let hv = concat_bytes(&u_j, &signature.encrypted_id.v[j]);
            let h_j = hash_to_residue(&hv, n);
            acc = mul_mod(acc, h_j, n);
            j = j + 1;
            proof {
                let cur = hs.take(j as int);
                assert(cur.drop_last() =~= hs.take(j as int - 1));
                assert(cur.last() == hs[j as int - 1]);
                assert(hs[j as int - 1] == h_j as int);
            }
        }
        proof {
            assert(hs.take(hs.len() as int) =~= hs);
        }
        s_e == acc
    }
}

} // verus!
