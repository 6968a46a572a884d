//! Identities and authenticators as plain 32-byte values.
//!
//! The ledger never computes a digest or checks a signature itself: a
//! [`PublicKey`] only names a party and a [`Digest`] only carries an authenticator
//! that the host produced. Both are compared byte by byte.

use vstd::prelude::*;
use vstd::std_specs::cmp::PartialEqSpecImpl;

verus! {

/// Number of bytes in a public key.
pub const PUBLIC_KEY_LENGTH: usize = 32;

/// Number of bytes in a digest.
pub const HASH_SIZE: usize = 32;

/// True iff the two arrays hold the same bytes.
fn same_bytes(a: &[u8; 32], b: &[u8; 32]) -> (r: bool)
    ensures
        r == (*a == *b),
{
    let mut i: usize = 0;
    while i < 32
        invariant
            i <= 32,
            forall|j: int| 0 <= j < i ==> a[j] == b[j],
        decreases 32 - i,
    {
        if a[i] != b[i] {
            return false;
        }
        i += 1;
    }
    proof {
        assert(*a =~= *b);
    }
    true
}

/// The first 32 bytes of `bytes` as an array, if there are exactly 32.
fn array_from_slice(bytes: &[u8]) -> (r: Option<[u8; 32]>)
    ensures
        r is Some <==> bytes@.len() == 32,
        r is Some ==> r->0@ == bytes@,
{
    if bytes.len() != 32 {
        return None;
    }
    let mut out: [u8; 32] = [0u8;32];
    let mut i: usize = 0;
    while i < 32
        invariant
            i <= 32,
            bytes@.len() == 32,
            forall|j: int| 0 <= j < i ==> out[j] == bytes[j],
        decreases 32 - i,
    {
        out[i] = bytes[i];
        i += 1;
    }
    Some(out)
}

/// The identity of a party: the subject of a voting, the drone that opened it,
/// or a validator that votes on it.
#[derive(Clone, Copy, Debug, Eq)]
pub struct PublicKey {
    pub bytes: [u8; 32],
}

impl PublicKey {
    /// The key made of the given bytes.
    pub fn new(bytes: [u8; 32]) -> (key: Self)
        ensures
            key.bytes == bytes,
    {
        PublicKey { bytes }
    }

    /// The key made of 32 zero bytes.
    pub fn zero() -> (key: Self)
        ensures
            forall|i: int| 0 <= i < 32 ==> key.bytes[i] == 0,
    {
        PublicKey { bytes: [0u8;32] }
    }

    /// The key held in `bytes`, which must be exactly 32 bytes long.
    pub fn from_slice(bytes: &[u8]) -> (key: Option<Self>)
        ensures
            key is Some <==> bytes@.len() == PUBLIC_KEY_LENGTH,
            key is Some ==> key->0.bytes@ == bytes@,
    {
        match array_from_slice(bytes) {
            Some(bytes) => Some(PublicKey { bytes }),
            None => None,
        }
    }
}

impl PartialEq for PublicKey {
    fn eq(&self, other: &Self) -> (r: bool) {
        same_bytes(&self.bytes, &other.bytes)
    }
}

impl PartialEqSpecImpl for PublicKey {
    open spec fn obeys_eq_spec() -> bool {
        true
    }

    open spec fn eq_spec(&self, other: &Self) -> bool {
        *self == *other
    }
}

/// An authenticator: the reference hash of a transaction, or the root of an
/// authenticated structure of the host.
#[derive(Clone, Copy, Debug, Eq)]
pub struct Digest {
    pub bytes: [u8; 32],
}

impl Digest {
    /// The hash made of the given bytes.
    pub fn new(bytes: [u8; 32]) -> (hash: Self)
        ensures
            hash.bytes == bytes,
    {
        Digest { bytes }
    }

    /// The hash made of 32 zero bytes.
    pub fn zero() -> (hash: Self)
        ensures
            forall|i: int| 0 <= i < 32 ==> hash.bytes[i] == 0,
    {
        Digest { bytes: [0u8;32] }
    }

    /// The hash held in `bytes`, which must be exactly 32 bytes long.
    pub fn from_slice(bytes: &[u8]) -> (hash: Option<Self>)
        ensures
            hash is Some <==> bytes@.len() == HASH_SIZE,
            hash is Some ==> hash->0.bytes@ == bytes@,
    {
        match array_from_slice(bytes) {
            Some(bytes) => Some(Digest { bytes }),
            None => None,
        }
    }
}

impl PartialEq for Digest {
    fn eq(&self, other: &Self) -> (r: bool) {
        same_bytes(&self.bytes, &other.bytes)
    }
}

impl PartialEqSpecImpl for Digest {
    open spec fn obeys_eq_spec() -> bool {
        true
    }

    open spec fn eq_spec(&self, other: &Self) -> bool {
        *self == *other
    }
}

} // verus!
