//! Codec for the line-oriented, tab-delimited authentication protocol of a
//! multiplayer game service: it decodes server response lines into typed
//! messages and encodes typed requests into wire bytes. The codec is pure:
//! bytes in, typed value or error out; it does no I/O and holds no state.

use vstd::prelude::*;

pub mod fields;
pub mod grammar;
pub mod messages;

pub use crate::fields::NAccess;
pub use crate::fields::NEnvironment;
pub use crate::fields::NProtocol;
pub use crate::fields::PaymentStatus;
pub use crate::messages::A;
pub use crate::messages::C;
pub use crate::messages::Error;
pub use crate::messages::F;
pub use crate::messages::G;
pub use crate::messages::K;
pub use crate::messages::L;
pub use crate::messages::M;
pub use crate::messages::N;
pub use crate::messages::P;

verus! {

/// One byte of the password obfuscation: shift down by 0x20, mix with the
/// key byte by exclusive or, shift back up, all modulo 256.
pub open spec fn spec_hash_byte(p: u8, k: u8) -> u8 {
    (((((((p as int) - 0x20) % 256) as u8) ^ k) as int + 0x20) % 256) as u8
}

fn hash_byte(p: u8, k: u8) -> (r: u8)
    ensures
        r == spec_hash_byte(p, k),
{
    let d: u8 = if p >= 0x20 {
        p - 0x20
    } else {
        p + 0xE0
    };
    proof {
        assert(d == ((p as int) - 0x20) % 256);
    }
    let x: u8 = d ^ k;
    let r: u8 = if x <= 0xDF {
        x + 0x20
    } else {
        x - 0xE0
    };
    proof {
        assert(r == ((x as int) + 0x20) % 256);
    }
    r
}

/// Obfuscates a password with the session hash key: each password byte is
/// paired with the key byte at the same position and transformed by
/// `spec_hash_byte`; pairing stops at the shorter of the two inputs, so
/// excess password bytes are dropped from the output.
pub fn hash_password(password: &[u8], hash_key: &[u8]) -> (r: Vec<u8>)
    ensures
        r@.len() == if password@.len() <= hash_key@.len() {
            password@.len()
        } else {
            hash_key@.len()
        },
        forall|k: int| 0 <= k < r@.len() ==> r@[k] == spec_hash_byte(password@[k], hash_key@[k]),
{
    let n: usize = if password.len() <= hash_key.len() {
        password.len()
    } else {
        hash_key.len()
    };
    let mut out: Vec<u8> = Vec::new();
    let mut k: usize = 0;
    while k < n
        invariant
            0 <= k <= n,
            n <= password@.len(),
            n <= hash_key@.len(),
            out@.len() == k,
            forall|m: int| 0 <= m < k ==> out@[m] == spec_hash_byte(password@[m], hash_key@[m]),
        decreases n - k,
    {
        out.push(hash_byte(password[k], hash_key[k]));
        k += 1;
    }
    out
}

} // verus!
