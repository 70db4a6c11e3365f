//! Fingerprint and single-slot bucket primitives.
//!
//! A bucket stores at most one (fingerprint, value) pair. Emptiness is
//! determined solely by the fingerprint field: one reserved byte pattern
//! marks an unoccupied slot and is never produced as the fingerprint of a
//! real key.

use vstd::prelude::*;

verus! {

/// Width in bytes of a stored fingerprint.
pub const FINGERPRINT_SIZE: usize = 1;

/// Width in bytes of a stored value.
pub const VALUE_SIZE: usize = 1;

/// The byte reserved as the "empty slot" marker. It is deliberately non-zero:
/// a natural hash byte can legitimately be zero, so zero must remain a valid
/// fingerprint. Derivation of a fingerprint from a hash perturbs any digest
/// byte that would collide with this marker.
pub const EMPTY_BYTE: u8 = 0xff;

/// A fixed-width digest of a key, stored in place of the key itself.
///
/// Invariant of the surrounding map: `data` equals the empty marker exactly
/// when the slot holding this fingerprint is unoccupied.
#[derive(Clone, Copy, PartialEq, Hash)]
pub struct Fingerprint {
    pub data: [u8; FINGERPRINT_SIZE],
}

impl View for Fingerprint {
    type V = u8;

    open spec fn view(&self) -> u8 {
        self.data[0]
    }
}

impl Fingerprint {
    /// Attempts to build a fingerprint from raw digest bytes. Fails exactly
    /// when the bytes equal the empty marker, which is not representable as
    /// a real fingerprint; the caller must perturb its digest and retry.
    pub fn from_data(data: [u8; FINGERPRINT_SIZE]) -> (r: Option<Self>)
        ensures
            data[0] == EMPTY_BYTE ==> r is None,
            data[0] != EMPTY_BYTE ==> r == Some((Fingerprint { data })),
    {
        let result = Self { data };
        if result.is_empty() {
            None
        } else {
            Some(result)
        }
    }

    /// Returns the empty fingerprint, the marker of an unoccupied slot.
    pub fn empty() -> (r: Self)
        ensures
            r@ == EMPTY_BYTE,
    {
        Self { data: [EMPTY_BYTE; FINGERPRINT_SIZE] }
    }

    /// Checks whether this is the empty fingerprint.
    pub fn is_empty(&self) -> (r: bool)
        ensures
            r == (self@ == EMPTY_BYTE),
    {
        self.data[0] == EMPTY_BYTE
    }

    /// Compares two fingerprints byte for byte.
    pub fn matches(&self, other: &Fingerprint) -> (r: bool)
        ensures
            r == (self@ == other@),
    {
        self.data[0] == other.data[0]
    }

    /// Restores a fingerprint from previously exported raw bytes via an
    /// in-memory copy.
    pub fn slice_copy(&mut self, fingerprint: &[u8])
        requires
            fingerprint@.len() == FINGERPRINT_SIZE,
        ensures
            final(self)@ == fingerprint@[0],
    {
        self.data = [fingerprint[0]];
    }
}

/// One storage slot: a fingerprint together with its attached value.
#[derive(Clone, Copy)]
pub struct Bucket {
    pub fingerprint: Fingerprint,
    pub value: [u8; VALUE_SIZE],
}

impl Bucket {
    /// True of a slot that holds a real fingerprint.
    pub open spec fn spec_occupied(self) -> bool {
        self.fingerprint@ != EMPTY_BYTE
    }

    /// The stored fingerprint byte (the empty marker on an unoccupied slot).
    pub open spec fn spec_fp(self) -> u8 {
        self.fingerprint@
    }

    /// Creates a new, empty bucket.
    pub fn new() -> (r: Self)
        ensures
            !r.spec_occupied(),
            r.value[0] == 0,
    {
        Self { fingerprint: Fingerprint::empty(), value: [0; VALUE_SIZE] }
    }

    /// Stores `fingerprint` and `value` if the bucket is empty or already
    /// holds `fingerprint` (overwriting the value); otherwise leaves the
    /// bucket untouched and reports failure. This rejection on an occupied
    /// slot with a different fingerprint is what drives the map's eviction
    /// chain.
    pub fn set(&mut self, fingerprint: Fingerprint, value: [u8; VALUE_SIZE]) -> (r: bool)
        ensures
            (!old(self).spec_occupied() || old(self).spec_fp() == fingerprint@) ==> ({
                &&& r
                &&& final(self).fingerprint == fingerprint
                &&& final(self).value == value
            }),
            (old(self).spec_occupied() && old(self).spec_fp() != fingerprint@) ==> ({
                &&& !r
                &&& *final(self) == *old(self)
            }),
    {
        if self.fingerprint.is_empty() || self.fingerprint.matches(&fingerprint) {
            self.fingerprint = fingerprint;
            self.value = value;
            return true;
        }
        false
    }

    /// Empties the bucket if it holds exactly `fingerprint`; otherwise a
    /// no-op. The stored value bytes are left behind, since emptiness is
    /// decided by the fingerprint field alone.
    pub fn reset(&mut self, fingerprint: Fingerprint) -> (r: bool)
        ensures
            old(self).spec_fp() == fingerprint@ ==> ({
                &&& r
                &&& !final(self).spec_occupied()
                &&& final(self).value == old(self).value
            }),
            old(self).spec_fp() != fingerprint@ ==> ({
                &&& !r
                &&& *final(self) == *old(self)
            }),
    {
        if self.fingerprint.matches(&fingerprint) {
            self.fingerprint = Fingerprint::empty();
            true
        } else {
            false
        }
    }

    /// Unconditionally resets the bucket to empty, keeping the stale value
    /// bytes.
    pub fn clear(&mut self)
        ensures
            !final(self).spec_occupied(),
            final(self).value == old(self).value,
    {
        self.fingerprint = Fingerprint::empty()
    }
}

} // verus!
