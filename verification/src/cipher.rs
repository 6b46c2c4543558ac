//! The judge's cipher capability.
//!
//! The protocol only needs a pair of byte-string operations `encrypt` /
//! `dencrypt` such that decryption recovers every encrypted plaintext, and
//! needs encryption to be deterministic (the verifier recomputes ciphertexts
//! from the opened data).

use vstd::prelude::*;

verus! {

/// Public-key capability of the judge.  Implementations fix what `encrypt`
/// and `dencrypt` return through the two spec functions, and must show that
/// decryption undoes encryption.
pub trait EJPubKey: Sized {
    /// What encryption returns, as a function of the plaintext alone.
    spec fn enc_spec(&self, m: Seq<u8>) -> Seq<u8>;

    /// What decryption returns.
    spec fn dec_spec(&self, m: Seq<u8>) -> Seq<u8>;

    /// Decryption recovers every encrypted plaintext.
    proof fn cipher_round_trip(&self, m: Seq<u8>)
        ensures
            self.dec_spec(self.enc_spec(m)) == m,
    ;

    /// Encrypts a byte string under the judge's public key.
    fn encrypt(&self, message: Vec<u8>) -> (r: Vec<u8>)
        ensures
            r@ == self.enc_spec(message@),
    ;

    /// Decrypts a byte string with the judge's key.
    fn dencrypt(&self, message: Vec<u8>) -> (r: Vec<u8>)
        ensures
            r@ == self.dec_spec(message@),
    ;
}

/// The identity cipher: ciphertext equals plaintext.  It makes runs
/// reproducible and is the judge key the end-to-end scenarios use.
#[derive(Clone)]
pub struct IdentityCipher {
    /// Identity ciphers are all alike; the field keeps the struct
    /// constructible by callers outside the crate.
    pub marker: u8,
}

impl EJPubKey for IdentityCipher {
    open spec fn enc_spec(&self, m: Seq<u8>) -> Seq<u8> {
        m
    }

    open spec fn dec_spec(&self, m: Seq<u8>) -> Seq<u8> {
        m
    }

    proof fn cipher_round_trip(&self, m: Seq<u8>) {
    }

    fn encrypt(&self, message: Vec<u8>) -> (r: Vec<u8>) {
        message
    }

    fn dencrypt(&self, message: Vec<u8>) -> (r: Vec<u8>) {
        message
    }
}

} // verus!
