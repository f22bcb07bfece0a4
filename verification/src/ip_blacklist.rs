//! The store-backed identity blacklist.
//!
//! The blacklist itself is a set of keys in the remote store, each with
//! an expiry.  This module owns the key discipline: how an identity maps
//! to its key, what an entry holds, and how identities are read back out
//! of a key listing.  The caller performs the store operations.

use vstd::prelude::*;
use crate::text::{concat_str, strip_prefix_str, strip_prefix_spec};

verus! {

/// The store key that blacklists `ip`.
pub open spec fn blacklist_key_spec(ip: Seq<char>) -> Seq<char> {
    "blacklist:"@ + ip
}

/// Builds the store key that blacklists `ip`.
pub fn blacklist_key(ip: &str) -> (k: String)
    ensures
        k@ == blacklist_key_spec(ip@),
{
    concat_str("blacklist:", ip)
}

/// The store write that blacklists one identity.
pub struct BlacklistEntry {
    /// The key to create.
    pub key: String,
    /// The value stored under the key.
    pub value: String,
    /// The entry's expiry, in seconds.
    pub expiry_seconds: u64,
}

/// Owns the blacklist's key discipline.
pub struct IpBlacklist {
    /// How long an entry lasts, in seconds.
    pub expiration_seconds: u64,
}

impl IpBlacklist {
    /// Creates a blacklist whose entries expire after
    /// `expiration_seconds`.
    pub fn new(expiration_seconds: u64) -> (b: Self)
        ensures
            b.expiration_seconds == expiration_seconds,
    {
        IpBlacklist { expiration_seconds }
    }

    /// The store write that adds `ip` to the blacklist.
    pub fn add_ip(&self, ip: &str) -> (e: BlacklistEntry)
        ensures
            e.key@ == blacklist_key_spec(ip@),
            e.value@ == "1"@,
            e.expiry_seconds == self.expiration_seconds,
    {
        BlacklistEntry {
            key: blacklist_key(ip),
            value: String::from_str("1"),
            expiry_seconds: self.expiration_seconds,
        }
    }

    /// The store key to delete when removing `ip` from the blacklist.
    /// The same key, when present in the store, marks `ip` as
    /// blacklisted.
    pub fn remove_ip(&self, ip: &str) -> (k: String)
        ensures
            k@ == blacklist_key_spec(ip@),
    {
        blacklist_key(ip)
    }

    /// Reads the blacklisted identities back out of a listing of the
    /// blacklist's keys.
    pub fn get_all_blacklisted_ips(&self, keys: &Vec<String>) -> (ips: Vec<String>)
        ensures
            ips@.len() == keys@.len(),
            forall|i: int|
                0 <= i < keys@.len() ==> #[trigger] ips@[i]@ == strip_prefix_spec(
                    keys@[i]@,
                    "blacklist:"@,
                ),
    {
        let n = keys.len();
        let mut ips: Vec<String> = Vec::new();
        let mut i: usize = 0;
        while i < n
            invariant
                n == keys@.len(),
                i <= n,
                ips@.len() == i,
                forall|j: int|
                    0 <= j < i ==> #[trigger] ips@[j]@ == strip_prefix_spec(
                        keys@[j]@,
                        "blacklist:"@,
                    ),
            decreases n - i,
        {
            ips.push(strip_prefix_str(keys[i].as_str(), "blacklist:"));
            i += 1;
        }
        ips
    }
}

} // verus!
