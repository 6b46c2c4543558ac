use fair_blind_signature::BlindSignature;
use fair_blind_signature::BlindedDigest;
use fair_blind_signature::EJPubKey;
use fair_blind_signature::FBSError;
use fair_blind_signature::FBSParameters;
use fair_blind_signature::FBSSender;
use fair_blind_signature::FBSSigner;
use fair_blind_signature::FBSVerifyer;
use fair_blind_signature::IdentityCipher;
use fair_blind_signature::RandomSource;
use fair_blind_signature::SignerPubKey;
use fair_blind_signature::Subset;
use fair_blind_signature::concat_bytes;
use fair_blind_signature::decimal_bytes;
use fair_blind_signature::hash_to_residue;
use fair_blind_signature::modpow;
use fair_blind_signature::mul_mod;

/// A deterministic source: always hands back the same word.
struct FixedRng(u64);

impl RandomSource for FixedRng {
    fn next_u64(&mut self) -> u64 {
        self.0
    }
}

fn toy_parameters(n: u64, e: u64, k: u32, id: u32) -> FBSParameters<IdentityCipher> {
    FBSParameters {
        judge_pubkey: IdentityCipher { marker: 0 },
        signer_pubkey: SignerPubKey { n, e },
        k,
        id,
    }
}

/// Runs one honest session end to end and returns the verifier's answer
/// together with the signature and the sender.
fn honest_session(
    n: u64,
    e: u64,
    d: u64,
    k: u32,
    id: u32,
    msg: &str,
) -> (
    bool,
    fair_blind_signature::Signature,
    FBSSender<IdentityCipher>,
) {
    let parameters = toy_parameters(n, e, k, id);
    let mut sender = FBSSender::new(parameters.clone()).unwrap();
    let (bd, _ub, _em, _eid) = sender.blind(msg.as_bytes().to_vec()).unwrap();
    let mut signer = FBSSigner::new(parameters.clone(), d).unwrap();
    signer.set_blinded_digest(bd).unwrap();
    let subset = signer.setup_subset().unwrap();
    sender.set_subset(subset).unwrap();
    let cp = sender.generate_check_parameter().unwrap();
    assert_eq!(signer.check(cp).unwrap(), true);
    let bs = signer.sign().unwrap();
    let signature = sender.clone().unblind(bs).unwrap();
    let verifyer = FBSVerifyer::new(parameters);
    let ok = verifyer.verify(signature.clone(), msg.as_bytes().to_vec());
    (ok, signature, sender)
}

#[test]
fn test_signer_sign() {
    let n: u64 = 323;
    let e: u64 = 7;
    let d: u64 = 247;

    let signer_pubkey = SignerPubKey { n, e };
    let judge_pubkey = IdentityCipher { marker: 0 };

    let parameters = FBSParameters {
        signer_pubkey,
        judge_pubkey,
        k: 4,
        id: 10,
    };

    let mut sender = FBSSender::new(parameters.clone()).unwrap();
    assert_eq!(sender.parameters.id, 10);
    assert_eq!(sender.parameters.k, 4);

    let random_strings = match sender.random_strings.clone() {
        Some(random_strings) => random_strings,
        None => {
            assert_eq!(true, false);
            return;
        }
    };

    println!(
        "alpha: {:?}\nbeta: {:?}\n\n",
        random_strings.alpha, random_strings.beta
    );

    let blinded = sender.blind("hello".as_bytes().to_vec());
    let result = match blinded.clone() {
        Ok(_) => true,
        Err(_) => false,
    };

    assert_eq!(result, true);

    let mut signer = FBSSigner::new(parameters.clone(), d).unwrap();

    assert_eq!(sender.parameters.id, parameters.id);
    assert_eq!(sender.parameters.k, parameters.k);

    signer
        .set_blinded_digest(sender.blinded_digest.clone().unwrap())
        .unwrap();

    let subset = signer.setup_subset().unwrap();
    println!("subset: {:?}", subset.subset);
    println!("complement: {:?}", subset.complement);

    sender.set_subset(subset).unwrap();

    let check_parameter = sender.generate_check_parameter().unwrap();
    let result = signer.check(check_parameter).unwrap();
    assert_eq!(result, true);

    let sign = signer.sign().unwrap();
    let signature = sender.clone().unblind(sign).unwrap();

    println!("s: {}", signature.s);

    let verifyer = FBSVerifyer::new(parameters);
    let result = verifyer.verify(signature, "hello".as_bytes().to_vec());

    assert_eq!(result, true);
}

#[test]
fn test_happy_path_tiny_rsa() {
    let (ok, _, _) = honest_session(323, 7, 247, 4, 10, "hello");
    assert!(ok);
}

#[test]
fn test_larger_rsa() {
    // N = 41623 = 107 * 389; 7 is the inverse of 11751 modulo lcm(106, 388).
    let (ok, _, _) = honest_session(41623, 11751, 7, 8, 10, "hello");
    assert!(ok);
}

#[test]
fn test_verify_rejects_other_message() {
    let (ok, signature, sender) = honest_session(323, 7, 247, 4, 10, "hello");
    assert!(ok);
    let verifyer = FBSVerifyer::new(sender.parameters.clone());
    assert!(!verifyer.verify(signature, "world".as_bytes().to_vec()));
}

#[test]
fn test_verify_deterministic() {
    let (ok, signature, sender) = honest_session(323, 7, 247, 4, 10, "hello");
    assert!(ok);
    let v1 = FBSVerifyer::new(sender.parameters.clone());
    let v2 = FBSVerifyer::new(sender.parameters.clone());
    let r1 = v1.verify(signature.clone(), "hello".as_bytes().to_vec());
    let r2 = v2.verify(signature.clone(), "hello".as_bytes().to_vec());
    assert_eq!(r1, r2);
    let r3 = FBSVerifyer::new(sender.parameters.clone())
        .verify(signature.clone(), "other".as_bytes().to_vec());
    let r4 = FBSVerifyer::new(sender.parameters.clone())
        .verify(signature, "other".as_bytes().to_vec());
    assert_eq!(r3, r4);
}

#[test]
fn test_verify_rejects_malformed_signature() {
    let (ok, signature, sender) = honest_session(323, 7, 247, 4, 10, "hello");
    assert!(ok);
    // A truncated alpha fails the shape check.
    let mut sig = signature.clone();
    sig.alpha.pop();
    assert!(!FBSVerifyer::new(sender.parameters.clone()).verify(sig, "hello".as_bytes().to_vec()));
    // A descending complement is not a well-formed challenge descriptor.
    let mut sig = signature.clone();
    sig.subset.complement.reverse();
    assert!(!FBSVerifyer::new(sender.parameters.clone()).verify(sig, "hello".as_bytes().to_vec()));
}

/// Recomputes one commitment digest the way an honest sender would, for a
/// chosen message text.
fn recompute_digest(
    n: u64,
    e: u64,
    msg: &str,
    alpha_i: u8,
    v_i: &Vec<u8>,
    r_i: u64,
) -> u64 {
    let cipher = IdentityCipher { marker: 0 };
    let ua = concat_bytes(&msg.as_bytes().to_vec(), &decimal_bytes(alpha_i as u64));
    let u_i = cipher.encrypt(ua);
    let r_e = modpow(r_i, e, n);
    let hv = concat_bytes(&u_i, v_i);
    let h_i = hash_to_residue(&hv, n);
    mul_mod(r_e, h_i, n)
}

#[test]
fn test_check_catches_cheater() {
    let n: u64 = 323;
    let e: u64 = 7;
    let d: u64 = 247;
    let k: u32 = 4;
    let parameters = toy_parameters(n, e, k, 10);
    let mut sender = FBSSender::new(parameters.clone()).unwrap();
    let (bd, ub, _em, eid) = sender.blind("hello".as_bytes().to_vec()).unwrap();
    let alpha = sender.random_strings.clone().unwrap().alpha;

    // The cheat: substitute "world" digests at every odd index, while the
    // opening (and the stored ciphertexts) still speak of "hello".
    let mut m = bd.m.clone();
    for i in 0..m.len() {
        if i % 2 == 1 {
            m[i] = recompute_digest(n, e, "world", alpha[i], &eid.v[i], ub.r[i]);
        }
    }

    let mut signer = FBSSigner::new(parameters.clone(), d).unwrap();
    signer.set_blinded_digest(BlindedDigest { m }).unwrap();

    // A constant source makes the challenge pick indices 0..k-1, which
    // include the odd indices 1 and 3.
    let mut rng = FixedRng(0);
    let subset = signer.setup_subset_with_rng(&mut rng).unwrap();
    assert!(subset.subset.iter().any(|i| i % 2 == 1));

    sender.set_subset(subset).unwrap();
    let cp = sender.generate_check_parameter().unwrap();
    assert_eq!(signer.check(cp).unwrap(), false);

    // The aborted session signs nothing.
    assert!(matches!(signer.sign(), Err(FBSError::CheckFailed)));
}

#[test]
fn test_single_corrupted_commitment_in_subset() {
    let n: u64 = 323;
    let e: u64 = 7;
    let d: u64 = 247;
    let k: u32 = 4;
    let parameters = toy_parameters(n, e, k, 10);
    let mut sender = FBSSender::new(parameters.clone()).unwrap();
    let (bd, ub, _em, eid) = sender.blind("hello".as_bytes().to_vec()).unwrap();
    let alpha = sender.random_strings.clone().unwrap().alpha;

    let mut m = bd.m.clone();
    m[1] = recompute_digest(n, e, "world", alpha[1], &eid.v[1], ub.r[1]);

    let mut signer = FBSSigner::new(parameters.clone(), d).unwrap();
    signer.set_blinded_digest(BlindedDigest { m }).unwrap();
    let mut rng = FixedRng(0);
    let subset = signer.setup_subset_with_rng(&mut rng).unwrap();
    assert!(subset.subset.contains(&1));
    sender.set_subset(subset).unwrap();
    let cp = sender.generate_check_parameter().unwrap();
    assert_eq!(signer.check(cp).unwrap(), false);
}

#[test]
fn test_sign_without_check_is_misuse() {
    let parameters = toy_parameters(323, 7, 4, 10);
    let mut sender = FBSSender::new(parameters.clone()).unwrap();
    let (bd, _, _, _) = sender.blind("hello".as_bytes().to_vec()).unwrap();
    let mut signer = FBSSigner::new(parameters, 247).unwrap();
    signer.set_blinded_digest(bd).unwrap();
    // Signing immediately after receiving the digests, without the check.
    assert!(matches!(signer.sign(), Err(FBSError::ProtocolMisuse)));
    // Even after choosing the subset, the check is still owed.
    let _subset = signer.setup_subset().unwrap();
    assert!(matches!(signer.sign(), Err(FBSError::ProtocolMisuse)));
}

#[test]
fn test_length_mismatch() {
    let parameters = toy_parameters(323, 7, 4, 10);
    let mut sender = FBSSender::new(parameters.clone()).unwrap();
    let (bd, _, _, _) = sender.blind("hello".as_bytes().to_vec()).unwrap();
    let mut signer = FBSSigner::new(parameters, 247).unwrap();
    // Deliver a digest of length 2k - 1.
    let mut m = bd.m.clone();
    m.pop();
    assert_eq!(
        signer.set_blinded_digest(BlindedDigest { m }),
        Err(FBSError::LengthMismatch)
    );
    // The session is still fresh, so the right-sized digest is accepted.
    assert_eq!(signer.set_blinded_digest(bd), Ok(()));
}

#[test]
fn test_malformed_subset_rejected() {
    let parameters = toy_parameters(323, 7, 4, 10);
    let mut sender = FBSSender::new(parameters).unwrap();
    let _ = sender.blind("hello".as_bytes().to_vec()).unwrap();
    // Only k - 1 indices on the subset side.
    let bad = Subset {
        subset: vec![0, 1, 2],
        complement: vec![3, 4, 5, 6, 7],
    };
    assert_eq!(sender.set_subset(bad), Err(FBSError::LengthMismatch));
    // Overlapping halves.
    let bad = Subset {
        subset: vec![0, 1, 2, 3],
        complement: vec![3, 4, 5, 6],
    };
    assert_eq!(sender.set_subset(bad), Err(FBSError::LengthMismatch));
}

#[test]
fn test_state_misuse_in_sender() {
    let parameters = toy_parameters(323, 7, 4, 10);
    let mut sender = FBSSender::new(parameters).unwrap();
    // Opening before any challenge was received.
    assert!(matches!(
        sender.generate_check_parameter(),
        Err(FBSError::ProtocolMisuse)
    ));
    // Unblinding before the session was opened.
    assert!(matches!(
        sender.clone().unblind(BlindSignature { b: 1 }),
        Err(FBSError::ProtocolMisuse)
    ));
    // Blinding twice.
    let _ = sender.blind("hello".as_bytes().to_vec()).unwrap();
    assert!(matches!(
        sender.blind("hello".as_bytes().to_vec()),
        Err(FBSError::ProtocolMisuse)
    ));
}

#[test]
fn test_rejects_trivial_parameters() {
    // k = 0 breaks the scheme and is rejected at session start.
    let parameters = toy_parameters(323, 7, 0, 10);
    assert!(FBSSender::new(parameters.clone()).is_err());
    assert!(FBSSigner::new(parameters, 247).is_err());
    // A trivial modulus is rejected too.
    let parameters = toy_parameters(1, 7, 4, 10);
    assert!(FBSSender::new(parameters).is_err());
}

#[test]
fn test_traceability() {
    let (ok, signature, sender) = honest_session(323, 7, 247, 4, 10, "hello");
    assert!(ok);
    let judge = IdentityCipher { marker: 0 };
    let opened = judge.dencrypt(signature.encrypted_id.v[0].clone());
    // The plaintext begins with the encoded sender id.
    assert!(opened.starts_with(b"10"));
    // It is exactly the id and the beta byte of the first complement
    // index, both in decimal.
    let beta = sender.random_strings.clone().unwrap().beta;
    let i = signature.subset.complement[0] as usize;
    let expected = format!("10{}", beta[i]);
    assert_eq!(opened, expected.as_bytes().to_vec());
}

#[test]
fn test_subset_partition_properties() {
    let parameters = toy_parameters(323, 7, 6, 10);
    let mut sender = FBSSender::new(parameters.clone()).unwrap();
    let (bd, _, _, _) = sender.blind("hello".as_bytes().to_vec()).unwrap();
    let mut signer = FBSSigner::new(parameters, 247).unwrap();
    signer.set_blinded_digest(bd).unwrap();
    let subset = signer.setup_subset().unwrap();
    let k = 6usize;
    assert_eq!(subset.subset.len(), k);
    assert_eq!(subset.complement.len(), k);
    for w in subset.subset.windows(2) {
        assert!(w[0] < w[1]);
    }
    for w in subset.complement.windows(2) {
        assert!(w[0] < w[1]);
    }
    for x in 0..(2 * k as u32) {
        let in_s = subset.subset.contains(&x);
        let in_c = subset.complement.contains(&x);
        assert!(in_s != in_c);
    }
    // Alpha and beta both hold 2k bytes.
    let rs = sender.random_strings.clone().unwrap();
    assert_eq!(rs.alpha.len(), 2 * k);
    assert_eq!(rs.beta.len(), 2 * k);
}
