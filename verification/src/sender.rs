//! The sender's state machine: blinds a message into `2k` commitments,
//! answers the challenge by opening the selected half, and unblinds the
//! signer's response into the final signature.

use vstd::prelude::*;

verus! {

use vstd::arithmetic::div_mod::lemma_mul_mod_noop_general;
use vstd::arithmetic::mul::lemma_mul_is_associative;
use vstd::arithmetic::mul::lemma_mul_is_commutative;
use vstd::arithmetic::power::pow;

use crate::arith::is_invertible;
use crate::arith::lemma_prod_mod_invertible;
use crate::arith::modinv;
use crate::arith::modpow;
use crate::arith::mul_mod;
use crate::arith::prod_mod;
use crate::cipher::EJPubKey;
use crate::encoding::concat_bytes;
use crate::encoding::decimal_bytes;
use crate::encoding::hash_residue_spec;
use crate::encoding::hash_to_residue;
use crate::errors::FBSError;
use crate::rng::RandomSource;
use crate::rng::SystemRandom;
use crate::rng::random_alnum;
use crate::rng::random_coprime;
use crate::types::BlindSignature;
use crate::types::BlindedDigest;
use crate::types::CheckParameter;
use crate::types::EncryptedID;
use crate::types::EncryptedMessage;
use crate::types::FBSParameters;
use crate::types::RandomStrings;
use crate::types::Signature;
use crate::types::Subset;
use crate::types::Unblinder;
use crate::types::all_alnum;
use crate::types::commit_m;
use crate::types::params_wf;
use crate::types::subset_check;
use crate::types::subset_wf;
use crate::types::u_plain;
use crate::types::v_plain;

/// Protocol phase of a sender session.  `Completed` is the phase after
/// unblinding; since `unblind` consumes the session, no stored sender
/// carries it.
#[derive(Clone, Copy, Debug, PartialEq, Eq, Structural)]
pub enum SenderState {
    Initialized,
    Committed,
    Challenged,
    Opened,
    Completed,
}

/// The sender of one session.
#[derive(Clone)]
pub struct FBSSender<EJ: EJPubKey> {
    pub parameters: FBSParameters<EJ>,
    pub random_strings: Option<RandomStrings>,
    pub blinded_digest: Option<BlindedDigest>,
    pub unblinder: Option<Unblinder>,
    pub encrypted_message: Option<EncryptedMessage>,
    pub encrypted_id: Option<EncryptedID>,
    pub subset: Option<Subset>,
    pub state: SenderState,
}

/// The per-row byte strings of a matrix of ciphertexts.
pub open spec fn byte_rows(v: Seq<Vec<u8>>) -> Seq<Seq<u8>> {
    Seq::new(v.len(), |i: int| v[i]@)
}

/// The values of `vals` selected at the positions listed in `idx`.
pub open spec fn sel(idx: Seq<u32>, vals: Seq<u64>) -> Seq<int> {
    Seq::new(idx.len(), |t: int| vals[idx[t] as int] as int)
}

/// What an honest commitment phase for `msg` produces: `2k` rows, each with
/// a unit blinding scalar, ciphertexts of the indexed plaintexts, and the
/// blinded digest `r^e * H(u ‖ v) mod n`.
pub open spec fn blind_rel<EJ: EJPubKey>(
    p: FBSParameters<EJ>,
    alpha: Seq<u8>,
    beta: Seq<u8>,
    msg: Seq<u8>,
    ms: Seq<u64>,
    rs: Seq<u64>,
    us: Seq<Seq<u8>>,
    vs: Seq<Seq<u8>>,
) -> bool {
    let n = p.signer_pubkey.n as int;
    let e = p.signer_pubkey.e as int;
    let k2 = 2 * p.k as int;
    &&& ms.len() == k2
    &&& rs.len() == k2
    &&& us.len() == k2
    &&& vs.len() == k2
    &&& forall|i: int| 0 <= i < k2 ==> 1 <= #[trigger] rs[i] < p.signer_pubkey.n
    &&& forall|i: int| 0 <= i < k2 ==> is_invertible(#[trigger] rs[i] as int, n)
    &&& forall|i: int| 0 <= i < k2 ==> #[trigger] us[i] == p.judge_pubkey.enc_spec(
        u_plain(msg, alpha[i]),
    )
    &&& forall|i: int| 0 <= i < k2 ==> #[trigger] vs[i] == p.judge_pubkey.enc_spec(
        v_plain(p.id, beta[i]),
    )
    &&& forall|i: int| 0 <= i < k2 ==> #[trigger] ms[i] as int == commit_m(
        rs[i] as int,
        e,
        n,
        us[i],
        vs[i],
    )
}

/// The commitment data a sender holds from `Committed` on, minus its tie to
/// the (unstored) message: lengths, unit scalars, identity ciphertexts, and
/// the digest equation over the stored rows.
pub open spec fn sender_committed_wf<EJ: EJPubKey>(s: FBSSender<EJ>) -> bool {
    let n = s.parameters.signer_pubkey.n as int;
    let e = s.parameters.signer_pubkey.e as int;
    let k2 = 2 * s.parameters.k as int;
    &&& s.blinded_digest is Some
    &&& s.unblinder is Some
    &&& s.encrypted_message is Some
    &&& s.encrypted_id is Some
    &&& s.blinded_digest->Some_0.m@.len() == k2
    &&& s.unblinder->Some_0.r@.len() == k2
    &&& s.encrypted_message->Some_0.u@.len() == k2
    &&& s.encrypted_id->Some_0.v@.len() == k2
    &&& forall|i: int|
        0 <= i < k2 ==> 1 <= #[trigger] s.unblinder->Some_0.r@[i] < s.parameters.signer_pubkey.n
    &&& forall|i: int|
        0 <= i < k2 ==> is_invertible(#[trigger] s.unblinder->Some_0.r@[i] as int, n)
    &&& forall|i: int|
        0 <= i < k2 ==> #[trigger] s.encrypted_id->Some_0.v@[i]@
            == s.parameters.judge_pubkey.enc_spec(
            v_plain(s.parameters.id, s.random_strings->Some_0.beta@[i]),
        )
    &&& forall|i: int|
        0 <= i < k2 ==> #[trigger] s.blinded_digest->Some_0.m@[i] as int == commit_m(
            s.unblinder->Some_0.r@[i] as int,
            e,
            n,
            s.encrypted_message->Some_0.u@[i]@,
            s.encrypted_id->Some_0.v@[i]@,
        )
}

/// Well-formedness of a sender session: sane parameters, `2k` alphanumeric
/// random bytes in each of `alpha` and `beta`, and — past the commitment
/// phase — the stored rows with their digest equation and, past the
/// challenge, a well-formed subset.
pub open spec fn sender_wf<EJ: EJPubKey>(s: FBSSender<EJ>) -> bool {
    let k2 = 2 * s.parameters.k as int;
    &&& params_wf(s.parameters)
    &&& s.random_strings is Some
    &&& s.random_strings->Some_0.alpha@.len() == k2
    &&& s.random_strings->Some_0.beta@.len() == k2
    &&& all_alnum(s.random_strings->Some_0.alpha@)
    &&& all_alnum(s.random_strings->Some_0.beta@)
    &&& ((s.state == SenderState::Committed || s.state == SenderState::Challenged || s.state
        == SenderState::Opened) ==> sender_committed_wf(s))
    &&& ((s.state == SenderState::Challenged || s.state == SenderState::Opened) ==> s.subset
        is Some && subset_wf(s.subset->Some_0, s.parameters.k as int))
}

/// Copies a vector of words.
#[verifier::loop_isolation(false)]
pub(crate) fn copy_u64_vec(src: &Vec<u64>) -> (r: Vec<u64>)
    ensures
        r@ == src@,
{
    let mut r: Vec<u64> = Vec::new();
    let mut i: usize = 0;
    while i < src.len()
        invariant
            i <= src@.len(),
            r@ == src@.take(i as int),
        decreases src@.len() - i,
    {
        r.push(src[i]);
        i = i + 1;
        proof {
            assert(r@ =~= src@.take(i as int));
        }
    }
    proof {
        assert(src@.take(src@.len() as int) =~= src@);
    }
    r
}

/// Copies a byte string.
#[verifier::loop_isolation(false)]
pub(crate) fn copy_bytes(src: &Vec<u8>) -> (r: Vec<u8>)
    ensures
        r@ == src@,
{
    let mut r: Vec<u8> = Vec::new();
    let mut i: usize = 0;
    while i < src.len()
        invariant
            i <= src@.len(),
            r@ == src@.take(i as int),
        decreases src@.len() - i,
    {
        r.push(src[i]);
        i = i + 1;
        proof {
            assert(r@ =~= src@.take(i as int));
        }
    }
    proof {
        assert(src@.take(src@.len() as int) =~= src@);
    }
    r
}

/// Copies a matrix of byte strings, row by row.
#[verifier::loop_isolation(false)]
pub(crate) fn copy_byte_rows(src: &Vec<Vec<u8>>) -> (r: Vec<Vec<u8>>)
    ensures
        byte_rows(r@) == byte_rows(src@),
{
    let mut r: Vec<Vec<u8>> = Vec::new();
    let mut i: usize = 0;
    while i < src.len()
        invariant
            i <= src@.len(),
            r@.len() == i,
            forall|t: int| 0 <= t < i ==> #[trigger] r@[t]@ == src@[t]@,
        decreases src@.len() - i,
    {
        let row = copy_bytes(&src[i]);
        r.push(row);
        i = i + 1;
    }
    proof {
        assert(byte_rows(r@) =~= byte_rows(src@));
    }
    r
}

/// Copies a vector of indices.
#[verifier::loop_isolation(false)]
pub(crate) fn copy_u32_vec(src: &Vec<u32>) -> (r: Vec<u32>)
    ensures
        r@ == src@,
{
    let mut r: Vec<u32> = Vec::new();
    let mut i: usize = 0;
    while i < src.len()
        invariant
            i <= src@.len(),
            r@ == src@.take(i as int),
        decreases src@.len() - i,
    {
        r.push(src[i]);
        i = i + 1;
        proof {
            assert(r@ =~= src@.take(i as int));
        }
    }
    proof {
        assert(src@.take(src@.len() as int) =~= src@);
    }
    r
}

/// Samples `len` alphanumeric bytes.
#[verifier::loop_isolation(false)]
fn sample_alnum_string<R: RandomSource>(rng: &mut R, len: usize) -> (r: Vec<u8>)
    ensures
        r@.len() == len,
        all_alnum(r@),
{
    let mut v: Vec<u8> = Vec::new();
    let mut i: usize = 0;
    while i < len
        invariant
            i <= len,
            v@.len() == i,
            all_alnum(v@),
        decreases len - i,
    {
        let b = random_alnum(rng);
        v.push(b);
        i = i + 1;
    }
    v
}

impl<EJ: EJPubKey> FBSSender<EJ> {
    /// Opens a session: samples `alpha` and `beta` (2k bytes each) from the
    /// system generator.  Parameters without at least one commitment pair,
    /// beyond the machine bound on `k`, or with a trivial modulus are
    /// rejected.
    pub fn new(parameters: FBSParameters<EJ>) -> (r: Result<FBSSender<EJ>, FBSError>)
        ensures
            match r {
                Ok(s) => {
                    &&& params_wf(parameters)
                    &&& sender_wf(s)
                    &&& s.state == SenderState::Initialized
                    &&& s.parameters == parameters
                },
                Err(e) => e == FBSError::ProtocolMisuse && !params_wf(parameters),
            },
    {
        let mut rng = SystemRandom { marker: 0 };
        Self::new_with_rng(parameters, &mut rng)
    }

    /// As `new`, drawing the session randomness from the given source.
    pub fn new_with_rng<R: RandomSource>(parameters: FBSParameters<EJ>, rng: &mut R) -> (r: Result<
        FBSSender<EJ>,
        FBSError,
    >)
        ensures
            match r {
                Ok(s) => {
                    &&& params_wf(parameters)
                    &&& sender_wf(s)
                    &&& s.state == SenderState::Initialized
                    &&& s.parameters == parameters
                },
                Err(e) => e == FBSError::ProtocolMisuse && !params_wf(parameters),
            },
    {
        if parameters.k < 1 || parameters.k > 0x1000_0000 || parameters.signer_pubkey.n < 2 {
            return Err(FBSError::ProtocolMisuse);
        }
        let k2: usize = (2 * parameters.k) as usize;
        let alpha = sample_alnum_string(rng, k2);
        let beta = sample_alnum_string(rng, k2);
        Ok(
            FBSSender {
                parameters,
                random_strings: Some(RandomStrings { alpha, beta }),
                blinded_digest: None,
                unblinder: None,
                encrypted_message: None,
                encrypted_id: None,
                subset: None,
                state: SenderState::Initialized,
            },
        )
    }

    /// Blinds `message` into the `2k` commitments, using the system
    /// generator for the blinding scalars.
    pub fn blind(&mut self, message: Vec<u8>) -> (r: Result<
        (BlindedDigest, Unblinder, EncryptedMessage, EncryptedID),
        FBSError,
    >)
        requires
            sender_wf(*old(self)),
        ensures
            sender_wf(*final(self)),
            blind_ensures(*old(self), *final(self), message@, r),
    {
        let mut rng = SystemRandom { marker: 0 };
        self.blind_with_rng(message, &mut rng)
    }

    /// As `blind`, drawing the blinding scalars from the given source.
    #[verifier::loop_isolation(false)]
    pub fn blind_with_rng<R: RandomSource>(&mut self, message: Vec<u8>, rng: &mut R) -> (r: Result<
        (BlindedDigest, Unblinder, EncryptedMessage, EncryptedID),
        FBSError,
    >)
        requires
            sender_wf(*old(self)),
        ensures
            sender_wf(*final(self)),
            blind_ensures(*old(self), *final(self), message@, r),
    {
        if !matches!(self.state, SenderState::Initialized) {
            return Err(FBSError::ProtocolMisuse);
        }
        let n = self.parameters.signer_pubkey.n;
        let e = self.parameters.signer_pubkey.e;
        let k2: usize = (2 * self.parameters.k) as usize;
        let id64: u64 = self.parameters.id as u64;
        let mut ms: Vec<u64> = Vec::new();
        let mut rs: Vec<u64> = Vec::new();
        let mut us: Vec<Vec<u8>> = Vec::new();
        let mut vs: Vec<Vec<u8>> = Vec::new();
        let mut i: usize = 0;
        while i < k2
            invariant
                i <= k2,
                ms@.len() == i,
                rs@.len() == i,
                us@.len() == i,
                vs@.len() == i,
                forall|t: int| 0 <= t < i ==> 1 <= #[trigger] rs@[t] < n,
                forall|t: int| 0 <= t < i ==> is_invertible(#[trigger] rs@[t] as int, n as int),
                forall|t: int|
                    0 <= t < i ==> #[trigger] us@[t]@ == self.parameters.judge_pubkey.enc_spec(
                        u_plain(message@, self.random_strings->Some_0.alpha@[t]),
                    ),
                forall|t: int|
                    0 <= t < i ==> #[trigger] vs@[t]@ == self.parameters.judge_pubkey.enc_spec(
                        v_plain(self.parameters.id, self.random_strings->Some_0.beta@[t]),
                    ),
                forall|t: int|
                    0 <= t < i ==> #[trigger] ms@[t] as int == commit_m(
                        rs@[t] as int,
                        e as int,
                        n as int,
                        us@[t]@,
                        vs@[t]@,
                    ),
            decreases k2 - i,
        {
            let r_i = random_coprime(rng, n);
            let alpha_i = {
                let rstr = match &self.random_strings {
                    Some(x) => x,
                    None => {
                        return Err(FBSError::ProtocolMisuse);
                    },
                };
                rstr.alpha[i]
            };
            let beta_i = {
                let rstr = match &self.random_strings {
                    Some(x) => x,
                    None => {
                        return Err(FBSError::ProtocolMisuse);
                    },
                };
                rstr.beta[i]
            };
            let ua = concat_bytes(&message, &decimal_bytes(alpha_i as u64));
            let u_i = self.parameters.judge_pubkey.encrypt(ua);
            let vb = concat_bytes(&decimal_bytes(id64), &decimal_bytes(beta_i as u64));
            let v_i = self.parameters.judge_pubkey.encrypt(vb);
            let r_e = modpow(r_i, e, n);
            let hv = concat_bytes(&u_i, &v_i);
            let h_i = hash_to_residue(&hv, n);
            let m_i = mul_mod(r_e, h_i, n);
            proof {
                lemma_mul_mod_noop_general(
                    pow(r_i as int, e as nat),
                    hash_residue_spec(u_i@ + v_i@, n as int),
                    n as int,
                );
            }
            ms.push(m_i);
            rs.push(r_i);
            us.push(u_i);
            vs.push(v_i);
            i = i + 1;
        }
        let out_m = copy_u64_vec(&ms);
        let out_r = copy_u64_vec(&rs);
        let out_u = copy_byte_rows(&us);
        let out_v = copy_byte_rows(&vs);
        self.blinded_digest = Some(BlindedDigest { m: ms });
        self.unblinder = Some(Unblinder { r: rs });
        self.encrypted_message = Some(EncryptedMessage { u: us });
        self.encrypted_id = Some(EncryptedID { v: vs });
        self.state = SenderState::Committed;
        proof {
            assert forall|t: int| 0 <= t < 2 * self.parameters.k as int implies #[trigger] byte_rows(
                out_u@,
            )[t] == self.encrypted_message->Some_0.u@[t]@ by {}
            assert forall|t: int| 0 <= t < 2 * self.parameters.k as int implies #[trigger] byte_rows(
                out_v@,
            )[t] == self.encrypted_id->Some_0.v@[t]@ by {}
        }
        Ok(
            (
                BlindedDigest { m: out_m },
                Unblinder { r: out_r },
                EncryptedMessage { u: out_u },
                EncryptedID { v: out_v },
            ),
        )
    }

    /// Opens the challenged half: for the `j`-th index `i` of the subset,
    /// emits `u_i`, `r_i` and `beta[i]`.  Moves `Challenged` to `Opened`.
    #[verifier::loop_isolation(false)]
    pub fn generate_check_parameter(&mut self) -> (r: Result<CheckParameter, FBSError>)
        requires
            sender_wf(*old(self)),
        ensures
            sender_wf(*final(self)),
            match r {
                Ok(cp) => {
                    &&& old(self).state == SenderState::Challenged
                    &&& *final(self) == (FBSSender { state: SenderState::Opened, ..*old(self) })
                    &&& check_parameter_rel(*old(self), cp)
                },
                Err(e) => {
                    &&& e == FBSError::ProtocolMisuse
                    &&& old(self).state != SenderState::Challenged
                    &&& *final(self) == *old(self)
                },
            },
    {
        if !matches!(self.state, SenderState::Challenged) {
            return Err(FBSError::ProtocolMisuse);
        }
        let sub_ref = match &self.subset {
            Some(x) => x,
            None => {
                proof {
                    assert(false);
                }
                return Err(FBSError::ProtocolMisuse);
            },
        };
        let em = match &self.encrypted_message {
            Some(x) => x,
            None => {
                proof {
                    assert(false);
                }
                return Err(FBSError::ProtocolMisuse);
            },
        };
        let ub = match &self.unblinder {
            Some(x) => x,
            None => {
                proof {
                    assert(false);
                }
                return Err(FBSError::ProtocolMisuse);
            },
        };
        let rstr = match &self.random_strings {
            Some(x) => x,
            None => {
                proof {
                    assert(false);
                }
                return Err(FBSError::ProtocolMisuse);
            },
        };
        let mut u: Vec<Vec<u8>> = Vec::new();
        let mut r: Vec<u64> = Vec::new();
        let mut beta: Vec<u8> = Vec::new();
        let mut j: usize = 0;
        while j < sub_ref.subset.len()
            invariant
                j <= sub_ref.subset@.len(),
                u@.len() == j,
                r@.len() == j,
                beta@.len() == j,
                forall|t: int|
                    0 <= t < j ==> #[trigger] u@[t]@ == em.u@[sub_ref.subset@[t] as int]@,
                forall|t: int|
                    0 <= t < j ==> #[trigger] r@[t] == ub.r@[sub_ref.subset@[t] as int],
                forall|t: int|
                    0 <= t < j ==> #[trigger] beta@[t] == rstr.beta@[sub_ref.subset@[t] as int],
            decreases sub_ref.subset@.len() - j,
        {
            let idx = sub_ref.subset[j] as usize;
            let u_j = copy_bytes(&em.u[idx]);
            u.push(u_j);
            r.push(ub.r[idx]);
            beta.push(rstr.beta[idx]);
            j = j + 1;
        }
        self.state = SenderState::Opened;
        Ok(
            CheckParameter {
                part_of_encrypted_message: EncryptedMessage { u },
                part_of_unblinder: Unblinder { r },
                part_of_beta: beta,
            },
        )
    }

    /// Unblinds the signer's response: divides out the product of the
    /// complement's blinding scalars and assembles the final signature
    /// with `alpha`, the complement's trace ciphertexts, and the challenge
    /// descriptor.  Requires an `Opened` session; the blinding product is a
    /// unit by construction, so success is owed there.
    #[verifier::loop_isolation(false)]
    pub fn unblind(self, blind_signature: BlindSignature) -> (r: Result<Signature, FBSError>)
        requires
            sender_wf(self),
        ensures
            match r {
                Ok(sig) => self.state == SenderState::Opened && unblind_rel(
                    self,
                    blind_signature,
                    sig,
                ),
                Err(e) => e == FBSError::ProtocolMisuse && self.state != SenderState::Opened,
            },
            (r is Ok) <==> self.state == SenderState::Opened,
    {
        if !matches!(self.state, SenderState::Opened) {
            return Err(FBSError::ProtocolMisuse);
        }
        let n = self.parameters.signer_pubkey.n;
        let sub_ref = match &self.subset {
            Some(x) => x,
            None => {
                proof {
                    assert(false);
                }
                return Err(FBSError::ProtocolMisuse);
            },
        };
        let ub = match &self.unblinder {
            Some(x) => x,
            None => {
                proof {
                    assert(false);
                }
                return Err(FBSError::ProtocolMisuse);
            },
        };
        let eid = match &self.encrypted_id {
            Some(x) => x,
            None => {
                proof {
                    assert(false);
                }
                return Err(FBSError::ProtocolMisuse);
            },
        };
        let comp = &sub_ref.complement;
        let ghost factors = sel(comp@, ub.r@);
        let mut acc: u64 = 1 % n;
        let mut j: usize = 0;
        proof {
            assert(sel(comp@.take(0), ub.r@) =~= Seq::<int>::empty());
        }
        while j < comp.len()
            invariant
                j <= comp@.len(),
                acc as int == prod_mod(sel(comp@.take(j as int), ub.r@), n as int),
                acc < n,
            decreases comp@.len() - j,
        {
            let idx = comp[j] as usize;
            acc = mul_mod(acc, ub.r[idx], n);
            j = j + 1;
            proof {
                let cur = sel(comp@.take(j as int), ub.r@);
                assert(cur.drop_last() =~= sel(comp@.take(j as int - 1), ub.r@));
                assert(cur.last() == ub.r@[comp@[j as int - 1] as int] as int);
            }
        }
        proof {
            assert(comp@.take(comp@.len() as int) =~= comp@);
            assert forall|t: int| 0 <= t < factors.len() implies is_invertible(
                #[trigger] factors[t],
                n as int,
            ) by {
                assert(comp@[t] < 2 * self.parameters.k);
                assert(is_invertible(ub.r@[comp@[t] as int] as int, n as int));
            }
            lemma_prod_mod_invertible(factors, n as int);
        }
        let inv = match modinv(acc, n) {
            Ok(x) => x,
            Err(_) => {
                proof {
                    assert(false);
                }
                return Err(FBSError::ProtocolMisuse);
            },
        };
        let s = mul_mod(blind_signature.b, inv, n);
        proof {
            let ni = n as int;
            let b = blind_signature.b as int;
            let rp = prod_mod(factors, ni);
            assert((s as int * rp) % ni == b % ni) by {
                assert(s as int == (b * inv as int) % ni);
                lemma_mul_mod_noop_general(b * inv as int, rp, ni);
                assert((s as int * rp) % ni == ((b * inv as int) * rp) % ni);
                lemma_mul_is_associative(b, inv as int, rp);
                lemma_mul_is_commutative(inv as int, rp);
                lemma_mul_is_associative(b, rp, inv as int);
                assert((b * inv as int) * rp == b * (rp * inv as int));
                lemma_mul_mod_noop_general(b, rp * inv as int, ni);
                assert((b * (rp * inv as int)) % ni == (b * ((rp * inv as int) % ni)) % ni);
                assert((rp * inv as int) % ni == 1) by {
                    assert(acc as int == rp);
                }
            }
        }
        let mut out_v: Vec<Vec<u8>> = Vec::new();
        let mut t: usize = 0;
        while t < comp.len()
            invariant
                t <= comp@.len(),
                out_v@.len() == t,
                forall|q: int| 0 <= q < t ==> #[trigger] out_v@[q]@ == eid.v@[comp@[q] as int]@,
            decreases comp@.len() - t,
        {
            let idx = comp[t] as usize;
            let row = copy_bytes(&eid.v[idx]);
            out_v.push(row);
            t = t + 1;
        }
        let alpha = match self.random_strings {
            Some(rs) => rs.alpha,
            None => {
                proof {
                    assert(false);
                }
                return Err(FBSError::ProtocolMisuse);
            },
        };
        let sub = match self.subset {
            Some(x) => x,
            None => {
                proof {
                    assert(false);
                }
                return Err(FBSError::ProtocolMisuse);
            },
        };
        Ok(Signature { s, alpha, encrypted_id: EncryptedID { v: out_v }, subset: sub })
    }

    /// Receives the signer's challenge.  The subset must be well formed for
    /// the session's `k`; a malformed one is a `LengthMismatch`.
    pub fn set_subset(&mut self, subset: Subset) -> (r: Result<(), FBSError>)
        requires
            sender_wf(*old(self)),
        ensures
            sender_wf(*final(self)),
            (r is Ok) <==> (old(self).state == SenderState::Committed && subset_wf(
                subset,
                old(self).parameters.k as int,
            )),
            match r {
                Ok(_) => {
                    &&& old(self).state == SenderState::Committed
                    &&& subset_wf(subset, old(self).parameters.k as int)
                    &&& *final(self) == (FBSSender {
                        subset: Some(subset),
                        state: SenderState::Challenged,
                        ..*old(self)
                    })
                },
                Err(e) => {
                    &&& *final(self) == *old(self)
                    &&& (e == FBSError::ProtocolMisuse <==> old(self).state
                        != SenderState::Committed)
                    &&& (e == FBSError::LengthMismatch ==> !subset_wf(
                        subset,
                        old(self).parameters.k as int,
                    ))
                },
            },
    {
        if !matches!(self.state, SenderState::Committed) {
            return Err(FBSError::ProtocolMisuse);
        }
        if !subset_check(&subset, self.parameters.k) {
            return Err(FBSError::LengthMismatch);
        }
        self.subset = Some(subset);
        self.state = SenderState::Challenged;
        Ok(())
    }
}

/// The contract of the commitment phase, shared by both entry points: on
/// success the session moves `Initialized` to `Committed`, the four stored
/// arrays satisfy the honest relation for `msg`, and the returned arrays
/// are the stored ones; failure is `ProtocolMisuse`, exactly on sessions
/// not in `Initialized`, and changes nothing.
pub open spec fn blind_ensures<EJ: EJPubKey>(
    pre: FBSSender<EJ>,
    post: FBSSender<EJ>,
    msg: Seq<u8>,
    r: Result<(BlindedDigest, Unblinder, EncryptedMessage, EncryptedID), FBSError>,
) -> bool {
    match r {
        Ok(out) => {
            &&& pre.state == SenderState::Initialized
            &&& post.state == SenderState::Committed
            &&& post.parameters == pre.parameters
            &&& post.random_strings == pre.random_strings
            &&& post.subset == pre.subset
            &&& blind_rel(
                pre.parameters,
                pre.random_strings->Some_0.alpha@,
                pre.random_strings->Some_0.beta@,
                msg,
                out.0.m@,
                out.1.r@,
                byte_rows(out.2.u@),
                byte_rows(out.3.v@),
            )
            &&& post.blinded_digest is Some && post.blinded_digest->Some_0.m@ == out.0.m@
            &&& post.unblinder is Some && post.unblinder->Some_0.r@ == out.1.r@
            &&& post.encrypted_message is Some && byte_rows(post.encrypted_message->Some_0.u@)
                == byte_rows(out.2.u@)
            &&& post.encrypted_id is Some && byte_rows(post.encrypted_id->Some_0.v@) == byte_rows(
                out.3.v@,
            )
        },
        Err(e) => {
            &&& e == FBSError::ProtocolMisuse
            &&& pre.state != SenderState::Initialized
            &&& post == pre
        },
    }
}

/// What the opening of the challenged half contains: for each rank `j` of
/// the subset, the stored ciphertext, scalar and beta byte of the absolute
/// index `subset[j]`.
pub open spec fn check_parameter_rel<EJ: EJPubKey>(s: FBSSender<EJ>, cp: CheckParameter) -> bool {
    let sub = s.subset->Some_0.subset@;
    &&& cp.part_of_encrypted_message.u@.len() == sub.len()
    &&& cp.part_of_unblinder.r@.len() == sub.len()
    &&& cp.part_of_beta@.len() == sub.len()
    &&& forall|j: int|
        0 <= j < sub.len() ==> #[trigger] cp.part_of_encrypted_message.u@[j]@
            == s.encrypted_message->Some_0.u@[sub[j] as int]@
    &&& forall|j: int|
        0 <= j < sub.len() ==> #[trigger] cp.part_of_unblinder.r@[j]
            == s.unblinder->Some_0.r@[sub[j] as int]
    &&& forall|j: int|
        0 <= j < sub.len() ==> #[trigger] cp.part_of_beta@[j]
            == s.random_strings->Some_0.beta@[sub[j] as int]
}

/// What unblinding produces: the signature carries `alpha`, the challenge
/// descriptor, and the complement's trace ciphertexts in complement order;
/// its value `s` is the unique residue with `s * R == b (mod n)` for the
/// (invertible) product `R` of the complement's blinding scalars.
pub open spec fn unblind_rel<EJ: EJPubKey>(
    s: FBSSender<EJ>,
    bs: BlindSignature,
    sig: Signature,
) -> bool {
    let n = s.parameters.signer_pubkey.n as int;
    let comp = s.subset->Some_0.complement@;
    let rprod = prod_mod(sel(comp, s.unblinder->Some_0.r@), n);
    &&& sig.alpha@ == s.random_strings->Some_0.alpha@
    &&& sig.subset.subset@ == s.subset->Some_0.subset@
    &&& sig.subset.complement@ == comp
    &&& sig.encrypted_id.v@.len() == comp.len()
    &&& forall|j: int|
        0 <= j < comp.len() ==> #[trigger] sig.encrypted_id.v@[j]@
            == s.encrypted_id->Some_0.v@[comp[j] as int]@
    &&& sig.s < s.parameters.signer_pubkey.n
    &&& is_invertible(rprod, n)
    &&& (sig.s as int * rprod) % n == (bs.b as int) % n
}

} // verus!
