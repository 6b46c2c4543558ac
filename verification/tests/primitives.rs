use fair_blind_signature::FBSError;
use fair_blind_signature::IdentityCipher;
use fair_blind_signature::RandomSource;
use fair_blind_signature::SystemRandom;
use fair_blind_signature::concat_bytes;
use fair_blind_signature::decimal_bytes;
use fair_blind_signature::hash_to_residue;
use fair_blind_signature::modinv;
use fair_blind_signature::modpow;
use fair_blind_signature::mul_mod;
use fair_blind_signature::random_alnum;
use fair_blind_signature::random_coprime;
use fair_blind_signature::EJPubKey;

#[test]
fn test_mul_mod_values() {
    assert_eq!(mul_mod(5, 6, 7), 2);
    assert_eq!(mul_mod(0, 123, 9), 0);
    assert_eq!(mul_mod(u64::MAX, u64::MAX, u64::MAX - 1), 1);
}

#[test]
fn test_modpow_values() {
    assert_eq!(modpow(2, 10, 1000), 24);
    assert_eq!(modpow(5, 0, 7), 1);
    assert_eq!(modpow(0, 5, 7), 0);
    assert_eq!(modpow(7, 1, 323), 7);
    // RSA round trip for the toy key: (2^7)^247 == 2 (mod 323).
    assert_eq!(modpow(modpow(2, 7, 323), 247, 323), 2);
}

#[test]
fn test_modinv_values() {
    assert_eq!(modinv(3, 7), Ok(5));
    assert_eq!(modinv(1, 2), Ok(1));
    assert_eq!(modinv(6, 8), Err(FBSError::NotInvertible));
    assert_eq!(modinv(0, 17), Err(FBSError::NotInvertible));
    let inv = modinv(123456789, 1000000007).unwrap();
    assert_eq!(mul_mod(123456789, inv, 1000000007), 1);
}

#[test]
fn test_decimal_bytes_values() {
    assert_eq!(decimal_bytes(0), b"0".to_vec());
    assert_eq!(decimal_bytes(7), b"7".to_vec());
    assert_eq!(decimal_bytes(10), b"10".to_vec());
    assert_eq!(decimal_bytes(1234567890), b"1234567890".to_vec());
    assert_eq!(decimal_bytes(u64::MAX), b"18446744073709551615".to_vec());
}

#[test]
fn test_concat_bytes_values() {
    assert_eq!(
        concat_bytes(&b"ab".to_vec(), &b"cd".to_vec()),
        b"abcd".to_vec()
    );
    assert_eq!(concat_bytes(&Vec::new(), &b"x".to_vec()), b"x".to_vec());
}

#[test]
fn test_hash_to_residue_known_vectors() {
    // SHA-256 of the empty string begins e3 b0 c4 42; reduced mod 2^32 the
    // little-endian digest value is exactly those four bytes.
    let n = 1u64 << 32;
    let expected_empty = u32::from_le_bytes([0xe3, 0xb0, 0xc4, 0x42]) as u64;
    assert_eq!(hash_to_residue(&Vec::new(), n), expected_empty);
    // SHA-256 of "hello" begins 2c f2 4d ba.
    let expected_hello = u32::from_le_bytes([0x2c, 0xf2, 0x4d, 0xba]) as u64;
    assert_eq!(hash_to_residue(&b"hello".to_vec(), n), expected_hello);
    // Reduction by a tiny modulus stays in range.
    assert!(hash_to_residue(&b"hello".to_vec(), 323) < 323);
}

#[test]
fn test_identity_cipher_round_trip() {
    let cipher = IdentityCipher { marker: 0 };
    let ct = cipher.encrypt(b"10x".to_vec());
    assert_eq!(ct, b"10x".to_vec());
    assert_eq!(cipher.dencrypt(ct), b"10x".to_vec());
}

#[test]
fn test_random_alnum_is_alphanumeric() {
    let mut rng = SystemRandom { marker: 0 };
    for _ in 0..200 {
        let b = random_alnum(&mut rng);
        assert!(b.is_ascii_alphanumeric());
    }
}

#[test]
fn test_random_coprime_is_unit() {
    let mut rng = SystemRandom { marker: 0 };
    for _ in 0..50 {
        let r = random_coprime(&mut rng, 323);
        assert!(1 <= r && r < 323);
        let inv = modinv(r, 323).unwrap();
        assert_eq!(mul_mod(r, inv, 323), 1);
    }
}

/// A counting source, to see that injected randomness is actually drawn.
struct CountingRng(u64);

impl RandomSource for CountingRng {
    fn next_u64(&mut self) -> u64 {
        self.0 = self.0.wrapping_add(1);
        self.0
    }
}

#[test]
fn test_random_coprime_uses_source() {
    let mut rng = CountingRng(0);
    let r = random_coprime(&mut rng, 323);
    assert!(1 <= r && r < 323);
}
