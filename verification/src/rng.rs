//! Randomness as an injected capability.
//!
//! Every consumer states what holds of any outcome, so a deterministic
//! source can stand in for the system generator in reproducible runs.

use vstd::prelude::*;

verus! {

use crate::arith::is_invertible;
use crate::arith::modinv;

/// A source of random words.  Nothing is promised of the values.
pub trait RandomSource {
    /// The next word from the source.
    fn next_u64(&mut self) -> u64;
}

/// Relies on rand::random: a word from the thread-local generator.  The
/// value depends on generator state, so nothing is stated of it.
#[verifier::external_body]
fn os_random_u64() -> u64 {
    rand::random::<u64>()
}

/// The process-wide cryptographically secure generator.
pub struct SystemRandom {
    /// All system sources are alike; the field keeps the struct
    /// constructible by callers outside the crate.
    pub marker: u8,
}

impl RandomSource for SystemRandom {
    fn next_u64(&mut self) -> u64 {
        os_random_u64()
    }
}

/// Is `b` the ASCII code of an alphanumeric character?
pub open spec fn is_alnum(b: u8) -> bool {
    (48 <= b <= 57) || (65 <= b <= 90) || (97 <= b <= 122)
}

/// Draws one random alphanumeric byte (62-character alphabet, by rejection).
pub fn random_alnum<R: RandomSource>(rng: &mut R) -> (r: u8)
    ensures
        is_alnum(r),
{
    let mut tries: u32 = 0;
    while tries < 0x1000_0000
        invariant
            true,
        decreases 0x1000_0000 - tries,
    {
        let x = rng.next_u64() % 64;
        if x < 10 {
            return 48 + (x as u8);
        } else if x < 36 {
            return 65 + (x as u8) - 10;
        } else if x < 62 {
            return 97 + (x as u8) - 36;
        }
        tries = tries + 1;
    }
    48
}

/// Draws a blinding scalar: below `n`, nonzero, and a unit mod `n`;
/// values sharing a factor with `n` are rejected and resampled.
pub fn random_coprime<R: RandomSource>(rng: &mut R, n: u64) -> (r: u64)
    requires
        n >= 2,
    ensures
        1 <= r < n,
        is_invertible(r as int, n as int),
{
    let mut tries: u32 = 0;
    while tries < 0x1000_0000
        invariant
            n >= 2,
        decreases 0x1000_0000 - tries,
    {
        let x = rng.next_u64() % n;
        match modinv(x, n) {
            Ok(ix) => {
                proof {
                    if x == 0 {
                        assert((x as int) * (ix as int) == 0);
                        vstd::arithmetic::div_mod::lemma_small_mod(0nat, n as nat);
                    }
                }
                return x;
            },
            Err(_) => {},
        }
        tries = tries + 1;
    }
    proof {
        assert((1int * 1int) % (n as int) == 1) by {
            vstd::arithmetic::div_mod::lemma_small_mod(1nat, n as nat);
        }
    }
    1
}

} // verus!
