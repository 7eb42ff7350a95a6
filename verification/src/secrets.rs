//! Storing a secret: an empty value removes it from the keychain.

use vstd::prelude::*;
use crate::models::SecretKey;

verus! {

/// The keychain service the secrets are stored under.
pub const SERVICE: &'static str = "cz.lubosmatejcik.flowrly";

/// What storing a secret does to the keychain.
#[derive(Debug, Clone)]
pub enum SecretWrite {
    /// Remove the entry (a missing entry counts as removed).
    Delete(SecretKey),
    /// Store the value.
    Store(SecretKey, String),
}

/// Storing an empty value deletes the secret; any other value is stored as given.
pub fn set(key: SecretKey, value: &str) -> (w: SecretWrite)
    ensures
        value@.len() == 0 ==> w == SecretWrite::Delete(key),
        value@.len() > 0 ==> (w matches SecretWrite::Store(k, v) && k == key && v@ == value@),
{
    if value.is_empty() {
        SecretWrite::Delete(key)
    } else {
        SecretWrite::Store(key, String::from_str(value))
    }
}

} // verus!
