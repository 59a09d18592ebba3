//! Key-management types: the kinds of keys the service stores.

use vstd::prelude::*;

verus! {

/// The key types.
#[derive(Debug, PartialEq, Eq, Copy, Clone, Structural)]
pub enum KeyType {
    /// A key used to seal and unseal data; generated by the service, not
    /// the user.
    SealingKey,
    /// An asymmetric private key, usable to sign data.
    AsymmetricPrivateKey,
}

} // verus!
