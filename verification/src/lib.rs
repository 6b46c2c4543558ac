//! A fair blind signature scheme built on RSA with a cut-and-choose
//! commitment phase.
//!
//! Three principals take part in a session: a sender who wants a signature
//! on a message without revealing it, a signer who signs blinded material,
//! and a verifier who checks the resulting signature.  A fourth principal,
//! the judge, can later decrypt the trace data embedded in every signature
//! and link it back to the sender who opened the session.

mod arith;
mod cipher;
mod encoding;
mod errors;
mod laws;
mod rng;
mod sender;
mod signer;
mod types;
mod verifyer;

pub use arith::is_invertible;
pub use arith::modinv;
pub use arith::modpow;
pub use arith::mul_mod;
pub use arith::prod_mod;
pub use cipher::EJPubKey;
pub use cipher::IdentityCipher;
pub use encoding::concat_bytes;
pub use encoding::dec_of;
pub use encoding::decimal_bytes;
pub use encoding::hash_residue_spec;
pub use encoding::hash_to_residue;
pub use encoding::le_val;
pub use encoding::sha256_of;
pub use errors::FBSError;
pub use laws::lemma_cheat_detected;
pub use laws::lemma_completeness;
pub use laws::lemma_honest_check_passes;
pub use laws::lemma_length_invariants;
pub use laws::lemma_subset_partition;
pub use laws::lemma_traceability;
pub use laws::lemma_unblinding_law;
pub use laws::lemma_verify_deterministic;
pub use laws::rsa_keypair_valid;
pub use rng::RandomSource;
pub use rng::SystemRandom;
pub use rng::is_alnum;
pub use rng::random_alnum;
pub use rng::random_coprime;
pub use sender::FBSSender;
pub use sender::SenderState;
pub use sender::blind_ensures;
pub use sender::blind_rel;
pub use sender::byte_rows;
pub use sender::check_parameter_rel;
pub use sender::sel;
pub use sender::sender_committed_wf;
pub use sender::sender_wf;
pub use sender::unblind_rel;
pub use signer::FBSSigner;
pub use signer::SignerState;
pub use signer::check_spec;
pub use signer::setup_subset_ensures;
pub use signer::signer_wf;
pub use types::BlindSignature;
pub use types::BlindedDigest;
pub use types::CheckParameter;
pub use types::EncryptedID;
pub use types::EncryptedMessage;
pub use types::FBSParameters;
pub use types::RandomStrings;
pub use types::Signature;
pub use types::SignerPubKey;
pub use types::Subset;
pub use types::Unblinder;
pub use types::commit_m;
pub use types::params_wf;
pub use types::seq_contains;
pub use types::strictly_increasing;
pub use types::subset_check;
pub use types::subset_wf;
pub use types::u_plain;
pub use types::v_plain;
pub use verifyer::FBSVerifyer;
pub use verifyer::signature_wf;
pub use verifyer::verify_hashes;
pub use verifyer::verify_spec;
