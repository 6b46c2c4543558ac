//! The laws the protocol states of itself, proved over the spec model that
//! the operations' contracts use.

use vstd::prelude::*;

verus! {

use vstd::arithmetic::div_mod::lemma_mul_mod_noop_general;
use vstd::arithmetic::div_mod::lemma_small_mod;
use vstd::arithmetic::mul::lemma_mul_is_commutative;
use vstd::arithmetic::power::lemma_pow_distributes;
use vstd::arithmetic::power::lemma_pow_mod_noop;
use vstd::arithmetic::power::lemma_pow_multiplies;
use vstd::arithmetic::power::pow;

use crate::arith::is_invertible;
use crate::arith::lemma_mod_mul_cancel;
use crate::arith::lemma_pow_invertible;
use crate::arith::lemma_prod_mod_bound;
use crate::arith::lemma_prod_mod_congruent;
use crate::arith::lemma_prod_mod_invertible;
use crate::arith::lemma_prod_mod_mul;
use crate::arith::lemma_prod_mod_pow;
use crate::arith::prod_mod;
use crate::cipher::EJPubKey;
use crate::encoding::dec_of;
use crate::encoding::hash_residue_spec;
use crate::sender::FBSSender;
use crate::sender::blind_rel;
use crate::sender::sel;
use crate::sender::sender_wf;
use crate::signer::check_spec;
use crate::types::CheckParameter;
use crate::types::FBSParameters;
use crate::types::Signature;
use crate::types::Subset;
use crate::types::commit_m;
use crate::types::params_wf;
use crate::types::seq_contains;
use crate::types::subset_wf;
use crate::types::u_plain;
use crate::types::v_plain;
use crate::verifyer::signature_wf;
use crate::verifyer::verify_hashes;
use crate::verifyer::verify_spec;

/// A semantically valid RSA key triple over modulus `n`: raising any
/// residue to `e * d` gives it back.  This is the correctness RSA key
/// generation owes and the only fact the completeness law needs of the key.
pub open spec fn rsa_keypair_valid(n: int, e: int, d: int) -> bool {
    &&& n >= 2
    &&& e >= 1
    &&& d >= 1
    &&& forall|m: int| 0 <= m < n ==> #[trigger] (pow(m, (e * d) as nat) % n) == m
}

/// The unblinding law.  Over the complement's ranks, let `ms` be the
/// blinded digests `r_j^e * h_j mod n`, let `b` be the blind signature
/// `(prod ms)^d mod n`, and let `s` satisfy `s * prod rs == b (mod n)`.
/// Then `(s * prod rs)^e == prod ms (mod n)`, and `s^e` equals the product
/// of the hash residues alone: the blinding scalars have divided out.
pub proof fn lemma_unblinding_law(
    n: int,
    e: int,
    d: int,
    rs: Seq<int>,
    hs: Seq<int>,
    ms: Seq<int>,
    s: int,
    b: int,
)
    requires
        rsa_keypair_valid(n, e, d),
        rs.len() == ms.len(),
        hs.len() == ms.len(),
        forall|j: int|
            0 <= j < ms.len() ==> #[trigger] ms[j] == (pow(rs[j], e as nat) * hs[j]) % n,
        forall|j: int| 0 <= j < rs.len() ==> is_invertible(#[trigger] rs[j], n),
        b == pow(prod_mod(ms, n), d as nat) % n,
        (s * prod_mod(rs, n)) % n == b % n,
    ensures
        pow(s * prod_mod(rs, n), e as nat) % n == prod_mod(ms, n),
        pow(s, e as nat) % n == prod_mod(hs, n),
{
    let rr = prod_mod(rs, n);
    let pp = prod_mod(ms, n);
    let hh = prod_mod(hs, n);
    lemma_prod_mod_bound(ms, n);
    lemma_prod_mod_bound(hs, n);
    lemma_prod_mod_bound(rs, n);
    lemma_prod_mod_invertible(rs, n);
    // (s * R)^e == b^e == P^(d*e) == P (mod n).
    assert(pow(s * rr, e as nat) % n == pp) by {
        lemma_pow_mod_noop(s * rr, e as nat, n);
        lemma_pow_mod_noop(b, e as nat, n);
        assert(pow(s * rr, e as nat) % n == pow(b, e as nat) % n);
        lemma_pow_mod_noop(pow(pp, d as nat), e as nat, n);
        assert(pow(b, e as nat) % n == pow(pow(pp, d as nat), e as nat) % n);
        lemma_pow_multiplies(pp, d as nat, e as nat);
        assert(pow(pow(pp, d as nat), e as nat) == pow(pp, (d * e) as nat));
        assert((d * e) as nat == (e * d) as nat);
        assert(pow(pp, (e * d) as nat) % n == pp);
    }
    // P == (R^e mod n) * (prod hs) mod n.
    let xs = Seq::new(ms.len(), |j: int| pow(rs[j], e as nat));
    let xs_mod = Seq::new(ms.len(), |j: int| pow(rs[j], e as nat) % n);
    assert(pp == (prod_mod(xs, n) * hh) % n) by {
        assert forall|j: int| 0 <= j < ms.len() implies #[trigger] ms[j] == (xs[j] * hs[j])
            % n by {}
        lemma_prod_mod_mul(ms, xs, hs, n);
    }
    assert(prod_mod(xs, n) == pow(rr, e as nat) % n) by {
        assert forall|j: int| 0 <= j < xs.len() implies #[trigger] (xs[j] % n) == xs_mod[j]
            % n by {
            vstd::arithmetic::div_mod::lemma_mod_twice(pow(rs[j], e as nat), n);
        }
        lemma_prod_mod_congruent(xs, xs_mod, n);
        assert forall|j: int| 0 <= j < xs_mod.len() implies #[trigger] xs_mod[j] == pow(
            rs[j],
            e as nat,
        ) % n by {}
        lemma_prod_mod_pow(xs_mod, rs, e as nat, n);
    }
    // Cancel R^e, a unit, from both sides.
    assert(pow(s, e as nat) % n == hh) by {
        lemma_pow_distributes(s, rr, e as nat);
        assert(pow(s * rr, e as nat) == pow(s, e as nat) * pow(rr, e as nat));
        assert(pp == (pow(rr, e as nat) * hh) % n) by {
            lemma_mul_mod_noop_general(pow(rr, e as nat), hh, n);
        }
        lemma_mul_is_commutative(pow(rr, e as nat), hh);
        assert((pow(s, e as nat) * pow(rr, e as nat)) % n == (hh * pow(rr, e as nat)) % n);
        lemma_pow_invertible(rr, e as nat, n);
        lemma_mod_mul_cancel(pow(s, e as nat), hh, pow(rr, e as nat), n);
        lemma_small_mod(hh as nat, n as nat);
    }
}

/// Completeness: an honest run verifies.  Given valid parameters and key,
/// an honest commitment phase for `msg`, a well-formed challenge, the
/// signer's blind signature over the complement product, and a signature
/// assembled by unblinding, the verification rule holds.
pub proof fn lemma_completeness<EJ: EJPubKey>(
    p: FBSParameters<EJ>,
    d: int,
    alpha: Seq<u8>,
    beta: Seq<u8>,
    msg: Seq<u8>,
    ms: Seq<u64>,
    rs: Seq<u64>,
    us: Seq<Seq<u8>>,
    vs: Seq<Seq<u8>>,
    sub: Subset,
    b: int,
    sig: Signature,
)
    requires
        params_wf(p),
        rsa_keypair_valid(p.signer_pubkey.n as int, p.signer_pubkey.e as int, d),
        alpha.len() == 2 * p.k as int,
        blind_rel(p, alpha, beta, msg, ms, rs, us, vs),
        subset_wf(sub, p.k as int),
        b == pow(
            prod_mod(sel(sub.complement@, ms), p.signer_pubkey.n as int),
            d as nat,
        ) % (p.signer_pubkey.n as int),
        sig.alpha@ == alpha,
        sig.subset.subset@ == sub.subset@,
        sig.subset.complement@ == sub.complement@,
        sig.encrypted_id.v@.len() == p.k as int,
        forall|j: int|
            0 <= j < p.k as int ==> #[trigger] sig.encrypted_id.v@[j]@ == vs[sub.complement@[j] as int],
        sig.s < p.signer_pubkey.n,
        (sig.s as int * prod_mod(sel(sub.complement@, rs), p.signer_pubkey.n as int)) % (
        p.signer_pubkey.n as int) == b % (p.signer_pubkey.n as int),
    ensures
        verify_spec(p, sig, msg),
{
    let n = p.signer_pubkey.n as int;
    let e = p.signer_pubkey.e as int;
    let k = p.k as int;
    let comp = sub.complement@;
    let ms_c = sel(comp, ms);
    let rs_c = sel(comp, rs);
    let hs_c = Seq::new(
        k as nat,
        |j: int| hash_residue_spec(us[comp[j] as int] + vs[comp[j] as int], n),
    );
    assert forall|j: int| 0 <= j < k implies #[trigger] ms_c[j] == (pow(rs_c[j], e as nat)
        * hs_c[j]) % n by {
        let i = comp[j] as int;
        assert(comp[j] < 2 * p.k as int);
        assert(ms[i] as int == commit_m(rs[i] as int, e, n, us[i], vs[i]));
    }
    assert forall|j: int| 0 <= j < k implies is_invertible(#[trigger] rs_c[j], n) by {
        assert(comp[j] < 2 * p.k as int);
        assert(is_invertible(rs[comp[j] as int] as int, n));
    }
    lemma_unblinding_law(n, e, d, rs_c, hs_c, ms_c, sig.s as int, b);
    assert(verify_hashes(p, sig, msg) =~= hs_c) by {
        assert forall|j: int| 0 <= j < k implies verify_hashes(p, sig, msg)[j] == hs_c[j] by {
            let i = comp[j] as int;
            assert(comp[j] < 2 * p.k as int);
            assert(us[i] == p.judge_pubkey.enc_spec(u_plain(msg, alpha[i])));
            assert(sig.encrypted_id.v@[j]@ == vs[i]);
        }
    }
    assert(signature_wf(sig, k));
}

/// An honest opening passes the check: if the commitments came from an
/// honest blinding of `msg` and the opening hands over exactly the stored
/// ciphertexts, scalars and beta bytes of the challenged indices, the
/// signer's recomputation matches every challenged digest.
pub proof fn lemma_honest_check_passes<EJ: EJPubKey>(
    p: FBSParameters<EJ>,
    alpha: Seq<u8>,
    beta: Seq<u8>,
    msg: Seq<u8>,
    ms: Seq<u64>,
    rs: Seq<u64>,
    us: Seq<Seq<u8>>,
    vs: Seq<Seq<u8>>,
    sub: Subset,
    cp: CheckParameter,
)
    requires
        params_wf(p),
        beta.len() == 2 * p.k as int,
        blind_rel(p, alpha, beta, msg, ms, rs, us, vs),
        subset_wf(sub, p.k as int),
        cp.part_of_encrypted_message.u@.len() == sub.subset@.len(),
        cp.part_of_unblinder.r@.len() == sub.subset@.len(),
        cp.part_of_beta@.len() == sub.subset@.len(),
        forall|j: int|
            0 <= j < sub.subset@.len() ==> #[trigger] cp.part_of_encrypted_message.u@[j]@
                == us[sub.subset@[j] as int],
        forall|j: int|
            0 <= j < sub.subset@.len() ==> #[trigger] cp.part_of_unblinder.r@[j]
                == rs[sub.subset@[j] as int],
        forall|j: int|
            0 <= j < sub.subset@.len() ==> #[trigger] cp.part_of_beta@[j]
                == beta[sub.subset@[j] as int],
    ensures
        check_spec(p, ms, sub.subset@, cp),
{
    let n = p.signer_pubkey.n as int;
    let e = p.signer_pubkey.e as int;
    assert forall|j: int| 0 <= j < sub.subset@.len() implies #[trigger] (ms[sub.subset@[j] as int]
        as int) == commit_m(
        cp.part_of_unblinder.r@[j] as int,
        e,
        n,
        cp.part_of_encrypted_message.u@[j]@,
        p.judge_pubkey.enc_spec(v_plain(p.id, cp.part_of_beta@[j])),
    ) by {
        let i = sub.subset@[j] as int;
        assert(sub.subset@[j] < 2 * p.k as int);
        assert(ms[i] as int == commit_m(rs[i] as int, e, n, us[i], vs[i]));
        assert(vs[i] == p.judge_pubkey.enc_spec(v_plain(p.id, beta[i])));
    }
}

/// The challenge partitions the index range: the halves are disjoint, and
/// together they cover every index below `2k`.
pub proof fn lemma_subset_partition(sub: Subset, k: int)
    requires
        subset_wf(sub, k),
    ensures
        sub.subset@.len() == k,
        sub.complement@.len() == k,
        forall|x: u32|
            #![trigger seq_contains(sub.subset@, x), seq_contains(sub.complement@, x)]
            !(seq_contains(sub.subset@, x) && seq_contains(sub.complement@, x)),
        forall|x: u32|
            x < 2 * k ==> #[trigger] seq_contains(sub.subset@, x) || seq_contains(
                sub.complement@,
                x,
            ),
{
    assert forall|x: u32| !(#[trigger] seq_contains(sub.subset@, x) && #[trigger] seq_contains(
        sub.complement@,
        x,
    )) by {
        if seq_contains(sub.subset@, x) && seq_contains(sub.complement@, x) {
            let i = choose|i: int| 0 <= i < sub.subset@.len() && sub.subset@[i] == x;
            assert(sub.subset@[i] < 2 * k);
        }
    }
}

/// Verification is deterministic: any two results of the verification rule
/// on the same parameters, signature and message agree.
pub proof fn lemma_verify_deterministic<EJ: EJPubKey>(
    p: FBSParameters<EJ>,
    sig: Signature,
    msg: Seq<u8>,
    r1: bool,
    r2: bool,
)
    requires
        r1 == verify_spec(p, sig, msg),
        r2 == verify_spec(p, sig, msg),
    ensures
        r1 == r2,
{
}

/// Traceability: decrypting a trace ciphertext with the judge's key yields
/// the sender id's decimal rendering followed by the beta byte's, so the
/// plaintext begins with the encoded sender id.
pub proof fn lemma_traceability<EJ: EJPubKey>(ej: EJ, id: u32, beta_i: u8, v: Seq<u8>)
    requires
        v == ej.enc_spec(v_plain(id, beta_i)),
    ensures
        ej.dec_spec(v) == v_plain(id, beta_i),
        ej.dec_spec(v).take(dec_of(id as nat).len() as int) == dec_of(id as nat),
{
    ej.cipher_round_trip(v_plain(id, beta_i));
    assert(v_plain(id, beta_i).take(dec_of(id as nat).len() as int) =~= dec_of(id as nat));
}

/// Cheating at any challenged rank is caught: if the stored digest at one
/// opened index disagrees with the recomputation from the opening, the
/// subset check rejects.  (That a uniformly drawn subset hits a corrupted
/// index with probability at least one half is a statement about the
/// distribution of the challenge, not about any one run, and is exercised
/// by tests instead.)
pub proof fn lemma_cheat_detected<EJ: EJPubKey>(
    p: FBSParameters<EJ>,
    ms: Seq<u64>,
    sub: Seq<u32>,
    cp: CheckParameter,
    j: int,
)
    requires
        0 <= j < sub.len(),
        (ms[sub[j] as int] as int) != commit_m(
            cp.part_of_unblinder.r@[j] as int,
            p.signer_pubkey.e as int,
            p.signer_pubkey.n as int,
            cp.part_of_encrypted_message.u@[j]@,
            p.judge_pubkey.enc_spec(v_plain(p.id, cp.part_of_beta@[j])),
        ),
    ensures
        !check_spec(p, ms, sub, cp),
{
}

/// Length invariants of a live sender session: `alpha` and `beta` both
/// hold exactly `2k` bytes.
pub proof fn lemma_length_invariants<EJ: EJPubKey>(s: FBSSender<EJ>)
    requires
        sender_wf(s),
    ensures
        s.random_strings is Some,
        s.random_strings->Some_0.alpha@.len() == 2 * s.parameters.k as int,
        s.random_strings->Some_0.beta@.len() == 2 * s.parameters.k as int,
{
}

} // verus!
