//! The signer's state machine: receives the blinded digests, challenges a
//! random half, checks the opened commitments, and blind-signs the product
//! of the complement.

use vstd::prelude::*;

verus! {

use vstd::arithmetic::div_mod::lemma_mul_mod_noop_general;
use vstd::arithmetic::power::pow;

use crate::arith::modpow;
use crate::arith::mul_mod;
use crate::arith::prod_mod;
use crate::cipher::EJPubKey;
use crate::encoding::concat_bytes;
use crate::encoding::decimal_bytes;
use crate::encoding::hash_residue_spec;
use crate::encoding::hash_to_residue;
use crate::errors::FBSError;
use crate::rng::RandomSource;
use crate::rng::SystemRandom;
use crate::sender::copy_u32_vec;
use crate::sender::sel;
use crate::types::BlindSignature;
use crate::types::BlindedDigest;
use crate::types::CheckParameter;
use crate::types::FBSParameters;
use crate::types::Subset;
use crate::types::commit_m;
use crate::types::lemma_all_below_not_contains;
use crate::types::lemma_contains_push;
use crate::types::lemma_push_increasing;
use crate::types::params_wf;
use crate::types::seq_contains;
use crate::types::strictly_increasing;
use crate::types::subset_wf;
use crate::types::v_plain;

/// Protocol phase of a signer session.  `Aborted` is terminal: it is
/// entered when the subset check reveals cheating.
#[derive(Clone, Copy, Debug, PartialEq, Eq, Structural)]
pub enum SignerState {
    Fresh,
    Received,
    Chosen,
    Checked,
    Signed,
    Aborted,
}

/// The signer of one session, holding the private exponent.
#[derive(Clone)]
pub struct FBSSigner<EJ: EJPubKey> {
    pub parameters: FBSParameters<EJ>,
    pub blinded_digest: Option<BlindedDigest>,
    pub subset: Option<Subset>,
    pub check: Option<CheckParameter>,
    pub privkey: u64,
    pub state: SignerState,
}

/// Well-formedness of a signer session: sane parameters, and the received
/// digest and chosen subset present (and well shaped) from the state that
/// stores them on.
pub open spec fn signer_wf<EJ: EJPubKey>(s: FBSSigner<EJ>) -> bool {
    &&& params_wf(s.parameters)
    &&& (s.state != SignerState::Fresh ==> s.blinded_digest is Some
        && s.blinded_digest->Some_0.m@.len() == 2 * s.parameters.k as int)
    &&& ((s.state == SignerState::Chosen || s.state == SignerState::Checked || s.state
        == SignerState::Signed || s.state == SignerState::Aborted) ==> s.subset is Some
        && subset_wf(s.subset->Some_0, s.parameters.k as int))
}

/// The subset check: for each rank `j` of the subset, the stored digest at
/// the absolute index `subset[j]` equals the commitment recomputed from the
/// opened scalar, the opened ciphertext `u`, and the identity ciphertext
/// rebuilt from the shared sender id and the opened `beta` byte.  That
/// rebuilding is what binds the trace ciphertexts to the sender.
pub open spec fn check_spec<EJ: EJPubKey>(
    p: FBSParameters<EJ>,
    ms: Seq<u64>,
    sub: Seq<u32>,
    cp: CheckParameter,
) -> bool {
    forall|j: int|
        0 <= j < sub.len() ==> #[trigger] (ms[sub[j] as int] as int) == commit_m(
            cp.part_of_unblinder.r@[j] as int,
            p.signer_pubkey.e as int,
            p.signer_pubkey.n as int,
            cp.part_of_encrypted_message.u@[j]@,
            p.judge_pubkey.enc_spec(v_plain(p.id, cp.part_of_beta@[j])),
        )
}

impl<EJ: EJPubKey> FBSSigner<EJ> {
    /// Opens a signer session with the session parameters and the signer's
    /// private exponent.  Parameters without at least one commitment pair,
    /// beyond the machine bound on `k`, or with a trivial modulus are
    /// rejected.
    pub fn new(parameters: FBSParameters<EJ>, privkey: u64) -> (r: Result<FBSSigner<EJ>, FBSError>)
        ensures
            match r {
                Ok(s) => {
                    &&& params_wf(parameters)
                    &&& signer_wf(s)
                    &&& s.state == SignerState::Fresh
                    &&& s.parameters == parameters
                    &&& s.privkey == privkey
                    &&& s.blinded_digest is None
                    &&& s.subset is None
                    &&& s.check is None
                },
                Err(e) => e == FBSError::ProtocolMisuse && !params_wf(parameters),
            },
    {
        if parameters.k < 1 || parameters.k > 0x1000_0000 || parameters.signer_pubkey.n < 2 {
            return Err(FBSError::ProtocolMisuse);
        }
        Ok(
            FBSSigner {
                parameters,
                blinded_digest: None,
                subset: None,
                check: None,
                privkey,
                state: SignerState::Fresh,
            },
        )
    }

    /// Receives the blinded digests.  The array must hold exactly `2k`
    /// entries; any other cardinality is a `LengthMismatch`.
    pub fn set_blinded_digest(&mut self, blinded_digest: BlindedDigest) -> (r: Result<
        (),
        FBSError,
    >)
        requires
            signer_wf(*old(self)),
        ensures
            signer_wf(*final(self)),
            (r is Ok) <==> (old(self).state == SignerState::Fresh && blinded_digest.m@.len() == 2
                * old(self).parameters.k as int),
            match r {
                Ok(_) => {
                    &&& old(self).state == SignerState::Fresh
                    &&& blinded_digest.m@.len() == 2 * old(self).parameters.k as int
                    &&& *final(self) == (FBSSigner {
                        blinded_digest: Some(blinded_digest),
                        state: SignerState::Received,
                        ..*old(self)
                    })
                },
                Err(e) => {
                    &&& *final(self) == *old(self)
                    &&& (e == FBSError::ProtocolMisuse <==> old(self).state != SignerState::Fresh)
                    &&& (e == FBSError::LengthMismatch <==> old(self).state == SignerState::Fresh
                        && blinded_digest.m@.len() != 2 * old(self).parameters.k as int)
                },
            },
    {
        if !matches!(self.state, SignerState::Fresh) {
            return Err(FBSError::ProtocolMisuse);
        }
        if blinded_digest.m.len() != (2 * self.parameters.k) as usize {
            return Err(FBSError::LengthMismatch);
        }
        self.blinded_digest = Some(blinded_digest);
        self.state = SignerState::Received;
        Ok(())
    }

    /// Draws the challenge from the system generator: a uniformly random
    /// `k`-subset of `{0 .. 2k-1}`, listed ascending beside its complement.
    pub fn setup_subset(&mut self) -> (r: Result<Subset, FBSError>)
        requires
            signer_wf(*old(self)),
        ensures
            signer_wf(*final(self)),
            setup_subset_ensures(*old(self), *final(self), r),
    {
        let mut rng = SystemRandom { marker: 0 };
        self.setup_subset_with_rng(&mut rng)
    }

    /// As `setup_subset`, drawing from the given source.
    #[verifier::loop_isolation(false)]
    pub fn setup_subset_with_rng<R: RandomSource>(&mut self, rng: &mut R) -> (r: Result<
        Subset,
        FBSError,
    >)
        requires
            signer_wf(*old(self)),
        ensures
            signer_wf(*final(self)),
            setup_subset_ensures(*old(self), *final(self), r),
    {
        if !matches!(self.state, SignerState::Received) {
            return Err(FBSError::ProtocolMisuse);
        }
        let k = self.parameters.k;
        let n2k: u32 = 2 * k;
        let mut subset: Vec<u32> = Vec::new();
        let mut complement: Vec<u32> = Vec::new();
        let mut i: u32 = 0;
        while i < n2k
            invariant
                i <= n2k,
                subset@.len() + complement@.len() == i,
                subset@.len() <= k,
                complement@.len() <= k,
                k - subset@.len() <= n2k - i,
                k - complement@.len() <= n2k - i,
                strictly_increasing(subset@),
                strictly_increasing(complement@),
                forall|t: int| 0 <= t < subset@.len() ==> #[trigger] subset@[t] < i,
                forall|t: int| 0 <= t < complement@.len() ==> #[trigger] complement@[t] < i,
                forall|x: u32|
                    x < i ==> (#[trigger] seq_contains(subset@, x) <==> !seq_contains(
                        complement@,
                        x,
                    )),
            decreases n2k - i,
        {
            let ghost s0 = subset@;
            let ghost c0 = complement@;
            let need_s: u32 = k - (subset.len() as u32);
            let remaining: u32 = n2k - i;
            let x = rng.next_u64() % (remaining as u64);
            if (x as u32) < need_s {
                proof {
                    lemma_push_increasing(s0, i);
                    lemma_all_below_not_contains(c0, i);
                }
                subset.push(i);
            } else {
                proof {
                    assert(complement@.len() < k);
                    lemma_push_increasing(c0, i);
                    lemma_all_below_not_contains(s0, i);
                }
                complement.push(i);
            }
            i = i + 1;
            proof {
                assert forall|y: u32| y < i implies (#[trigger] seq_contains(subset@, y)
                    <==> !seq_contains(complement@, y)) by {
                    if (x as u32) < need_s {
                        lemma_contains_push(s0, (i - 1) as u32, y);
                        assert(complement@ == c0);
                    } else {
                        lemma_contains_push(c0, (i - 1) as u32, y);
                        assert(subset@ == s0);
                    }
                }
            }
        }
        let out = Subset { subset, complement };
        let stored = Subset {
            subset: copy_u32_vec(&out.subset),
            complement: copy_u32_vec(&out.complement),
        };
        proof {
            assert(subset_wf(out, k as int));
            assert(subset_wf(stored, k as int)) by {
                assert forall|y: u32| y < 2 * (k as int) implies (#[trigger] seq_contains(
                    stored.subset@,
                    y,
                ) <==> !seq_contains(stored.complement@, y)) by {
                    assert(stored.subset@ == out.subset@);
                    assert(stored.complement@ == out.complement@);
                }
            }
        }
        self.subset = Some(stored);
        self.state = SignerState::Chosen;
        Ok(out)
    }

    /// Checks the opened commitments against the stored digests.  A full
    /// match moves the session to `Checked`; any mismatch aborts it.
    #[verifier::loop_isolation(false)]
    pub fn check(&mut self, check_parameter: CheckParameter) -> (r: Result<bool, FBSError>)
        requires
            signer_wf(*old(self)),
        ensures
            signer_wf(*final(self)),
            (r is Ok) <==> (old(self).state == SignerState::Chosen
                && check_parameter.part_of_unblinder.r@.len() == old(self).parameters.k as int
                && check_parameter.part_of_encrypted_message.u@.len() == old(
                self,
            ).parameters.k as int && check_parameter.part_of_beta@.len() == old(
                self,
            ).parameters.k as int),
            match r {
                Ok(ok) => {
                    &&& old(self).state == SignerState::Chosen
                    &&& check_parameter.part_of_unblinder.r@.len()
                        == old(self).parameters.k as int
                    &&& check_parameter.part_of_encrypted_message.u@.len()
                        == old(self).parameters.k as int
                    &&& check_parameter.part_of_beta@.len() == old(self).parameters.k as int
                    &&& ok == check_spec(
                        old(self).parameters,
                        old(self).blinded_digest->Some_0.m@,
                        old(self).subset->Some_0.subset@,
                        check_parameter,
                    )
                    &&& *final(self) == (FBSSigner {
                        check: Some(check_parameter),
                        state: if ok {
                            SignerState::Checked
                        } else {
                            SignerState::Aborted
                        },
                        ..*old(self)
                    })
                },
                Err(e) => {
                    &&& *final(self) == *old(self)
                    &&& (e == FBSError::ProtocolMisuse <==> old(self).state != SignerState::Chosen)
                    &&& (e == FBSError::LengthMismatch <==> old(self).state == SignerState::Chosen
                        && !(check_parameter.part_of_unblinder.r@.len() == old(
                        self,
                    ).parameters.k as int && check_parameter.part_of_encrypted_message.u@.len()
                        == old(self).parameters.k as int && check_parameter.part_of_beta@.len()
                        == old(self).parameters.k as int))
                },
            },
    {
        if !matches!(self.state, SignerState::Chosen) {
            return Err(FBSError::ProtocolMisuse);
        }
        let ku = self.parameters.k as usize;
        if check_parameter.part_of_unblinder.r.len() != ku
            || check_parameter.part_of_encrypted_message.u.len() != ku
            || check_parameter.part_of_beta.len() != ku {
            return Err(FBSError::LengthMismatch);
        }
        let n = self.parameters.signer_pubkey.n;
        let e = self.parameters.signer_pubkey.e;
        let id64: u64 = self.parameters.id as u64;
        let sub_ref = match &self.subset {
            Some(x) => x,
            None => {
                proof {
                    assert(false);
                }
                return Err(FBSError::ProtocolMisuse);
            },
        };
        let bd = match &self.blinded_digest {
            Some(x) => x,
            None => {
                proof {
                    assert(false);
                }
                return Err(FBSError::ProtocolMisuse);
            },
        };
        let mut ok = true;
        let mut j: usize = 0;
        while j < ku
            invariant
                j <= ku,
                ok <==> (forall|t: int|
                    0 <= t < j ==> #[trigger] (bd.m@[sub_ref.subset@[t] as int] as int)
                        == commit_m(
                        check_parameter.part_of_unblinder.r@[t] as int,
                        e as int,
                        n as int,
                        check_parameter.part_of_encrypted_message.u@[t]@,
                        self.parameters.judge_pubkey.enc_spec(
                            v_plain(self.parameters.id, check_parameter.part_of_beta@[t]),
                        ),
                    )),
            decreases ku - j,
        {
            let beta_j = check_parameter.part_of_beta[j];
            let vb = concat_bytes(&decimal_bytes(id64), &decimal_bytes(beta_j as u64));
            let v_j = self.parameters.judge_pubkey.encrypt(vb);
            let r_e = modpow(check_parameter.part_of_unblinder.r[j], e, n);
            let hv = concat_bytes(&check_parameter.part_of_encrypted_message.u[j], &v_j);
            let h_j = hash_to_residue(&hv, n);
            let m_j = mul_mod(r_e, h_j, n);
            proof {
                lemma_mul_mod_noop_general(
                    pow(check_parameter.part_of_unblinder.r@[j as int] as int, e as nat),
                    hash_residue_spec(
                        check_parameter.part_of_encrypted_message.u@[j as int]@ + v_j@,
                        n as int,
                    ),
                    n as int,
                );
            }
            let idx = sub_ref.subset[j] as usize;
            if m_j != bd.m[idx] {
                ok = false;
            }
            j = j + 1;
        }
        self.check = Some(check_parameter);
        self.state = if ok {
            SignerState::Checked
        } else {
            SignerState::Aborted
        };
        Ok(ok)
    }

    /// Blind-signs the product of the complement's digests: `b = (prod of
    /// m_i over the complement)^d mod n`.  Only a `Checked` session signs;
    /// an aborted one answers `CheckFailed`, any other misuse
    /// `ProtocolMisuse`.
    #[verifier::loop_isolation(false)]
    pub fn sign(&mut self) -> (r: Result<BlindSignature, FBSError>)
        requires
            signer_wf(*old(self)),
        ensures
            signer_wf(*final(self)),
            (r is Ok) <==> old(self).state == SignerState::Checked,
            match r {
                Ok(bs) => {
                    &&& *final(self) == (FBSSigner { state: SignerState::Signed, ..*old(self) })
                    &&& bs.b as int == pow(
                        prod_mod(
                            sel(
                                old(self).subset->Some_0.complement@,
                                old(self).blinded_digest->Some_0.m@,
                            ),
                            old(self).parameters.signer_pubkey.n as int,
                        ),
                        old(self).privkey as nat,
                    ) % (old(self).parameters.signer_pubkey.n as int)
                },
                Err(e) => {
                    &&& *final(self) == *old(self)
                    &&& (e == FBSError::CheckFailed <==> old(self).state == SignerState::Aborted)
                    &&& (e == FBSError::ProtocolMisuse <==> old(self).state
                        != SignerState::Aborted)
                },
            },
    {
        if matches!(self.state, SignerState::Aborted) {
            return Err(FBSError::CheckFailed);
        }
        if !matches!(self.state, SignerState::Checked) {
            return Err(FBSError::ProtocolMisuse);
        }
        let n = self.parameters.signer_pubkey.n;
        let sub_ref = match &self.subset {
            Some(x) => x,
            None => {
                proof {
                    assert(false);
                }
                return Err(FBSError::ProtocolMisuse);
            },
        };
        let bd = match &self.blinded_digest {
            Some(x) => x,
            None => {
                proof {
                    assert(false);
                }
                return Err(FBSError::ProtocolMisuse);
            },
        };
        let comp = &sub_ref.complement;
        let mut acc: u64 = 1 % n;
        let mut j: usize = 0;
        proof {
            assert(sel(comp@.take(0), bd.m@) =~= Seq::<int>::empty());
        }
        while j < comp.len()
            invariant
                j <= comp@.len(),
                acc as int == prod_mod(sel(comp@.take(j as int), bd.m@), n as int),
                acc < n,
            decreases comp@.len() - j,
        {
            let idx = comp[j] as usize;
            acc = mul_mod(acc, bd.m[idx], n);
            j = j + 1;
            proof {
                let cur = sel(comp@.take(j as int), bd.m@);
                assert(cur.drop_last() =~= sel(comp@.take(j as int - 1), bd.m@));
                assert(cur.last() == bd.m@[comp@[j as int - 1] as int] as int);
            }
        }
        proof {
            assert(comp@.take(comp@.len() as int) =~= comp@);
        }
        let b = modpow(acc, self.privkey, n);
        self.state = SignerState::Signed;
        Ok(BlindSignature { b })
    }
}

/// The contract of the challenge phase, shared by both entry points: on
/// success the session moves `Received` to `Chosen`, the returned subset is
/// well formed, and the stored copy lists the same indices; failure is
/// `ProtocolMisuse`, exactly on sessions not in `Received`.
pub open spec fn setup_subset_ensures<EJ: EJPubKey>(
    pre: FBSSigner<EJ>,
    post: FBSSigner<EJ>,
    r: Result<Subset, FBSError>,
) -> bool {
    match r {
        Ok(sub) => {
            &&& pre.state == SignerState::Received
            &&& post.state == SignerState::Chosen
            &&& subset_wf(sub, pre.parameters.k as int)
            &&& post.parameters == pre.parameters
            &&& post.privkey == pre.privkey
            &&& post.blinded_digest == pre.blinded_digest
            &&& post.check == pre.check
            &&& post.subset is Some
            &&& post.subset->Some_0.subset@ == sub.subset@
            &&& post.subset->Some_0.complement@ == sub.complement@
        },
        Err(e) => {
            &&& e == FBSError::ProtocolMisuse
            &&& pre.state != SignerState::Received
            &&& post == pre
        },
    }
}

} // verus!
