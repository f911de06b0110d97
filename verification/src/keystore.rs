//! The key store: a single slot that holds the derived key while the
//! application is unlocked.
//!
//! The slot is empty at startup, filled by a successful unlock, and emptied on
//! logout or when a downgrade to the free plan is observed. The key it holds,
//! and every copy it hands out, wipes its bytes when dropped.

use vstd::prelude::*;
use crate::crypto::SecretKey;

verus! {

/// A single-slot holder for the derived key.
pub struct KeyStore {
    slot: Option<SecretKey>,
}

impl View for KeyStore {
    type V = Option<Seq<u8>>;

    closed spec fn view(&self) -> Option<Seq<u8>> {
        match self.slot {
            Some(key) => Some(key@),
            None => None,
        }
    }
}

impl KeyStore {
    /// An empty key store.
    pub fn new() -> (r: KeyStore)
        ensures
            r@ is None,
    {
        KeyStore { slot: None }
    }

    /// Whether a key is installed.
    pub fn is_unlocked(&self) -> (r: bool)
        ensures
            r == (self@ is Some),
    {
        self.slot.is_some()
    }

    /// A copy of the installed key, if there is one. The copy wipes itself on drop.
    pub fn get(&self) -> (r: Option<SecretKey>)
        ensures
            match r {
                Some(key) => self@ == Some(key@),
                None => self@ is None,
            },
    {
        match &self.slot {
            Some(key) => Some(key.duplicate()),
            None => None,
        }
    }

    /// Installs a key, replacing the one that was there.
    pub fn set(&mut self, key: SecretKey)
        ensures
            final(self)@ == Some(key@),
    {
        self.slot = Some(key);
    }

    /// Empties the slot. The key that was there is wiped as it is dropped.
    pub fn clear(&mut self)
        ensures
            final(self)@ is None,
    {
        self.slot = None;
    }
}

} // verus!
