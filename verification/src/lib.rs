//! A fixed-capacity, array-backed associative filter built on cuckoo
//! hashing: a compact key-to-small-value store that answers "is this key
//! present, and if so what value is attached" with a bounded false-positive
//! rate and no false negatives for keys it has not evicted.
//!
//! Keys are never stored: each key is reduced to a fixed-width fingerprint
//! and two candidate bucket indices, and every operation touches only those
//! two slots (or a short chain reachable from them during insertion).

use vstd::prelude::*;

pub mod bucket;
pub mod util;

use crate::bucket::{Bucket, Fingerprint, EMPTY_BYTE, VALUE_SIZE};
use crate::util::{
    fp_of, get_alt_index, get_fai, i1_of, i2_of, is_pow2, lemma_alt_slot_congruent,
    lemma_fp_not_empty,
};
use vstd::arithmetic::power2::{lemma_pow2_strictly_increases, lemma_pow2_unfold, pow2};

verus! {

/// Bound on the displacements one insertion may perform before giving up.
pub const MAX_REBUCKET: u32 = 500;

/// The default requested capacity of `CuckooMap::new`: one below the
/// twentieth power of two, so the default map rounds up to that power.
pub const DEFAULT_CAPACITY: usize = 0xfffff;

/// The single error of the map: the bounded eviction chain failed to find a
/// free slot, and the entry it displaced last was dropped — usually an
/// unrelated stored entry, not the requested pair (see `CuckooMap::insert`).
#[derive(Debug)]
pub enum CuckooError {
    NotEnoughSpace,
}

/// The payload attached to a key's fingerprint: a fixed-size value, opaque
/// to the engine, copied byte for byte and never interpreted.
#[derive(Clone, Copy)]
pub struct Value(pub u8);

/// Count of the occupied slots in a bucket array.
pub open spec fn count_occupied(s: Seq<Bucket>) -> int
    decreases s.len(),
{
    if s.len() == 0 {
        0
    } else {
        count_occupied(s.drop_last()) + if s.last().spec_occupied() {
            1int
        } else {
            0int
        }
    }
}

/// The occupied-slot count lies between 0 and the array length.
pub proof fn lemma_count_occupied_bounds(s: Seq<Bucket>)
    ensures
        0 <= count_occupied(s) <= s.len(),
    decreases s.len(),
{
    if s.len() > 0 {
        lemma_count_occupied_bounds(s.drop_last());
    }
}

/// Overwriting one slot changes the occupied-slot count by the difference
/// between the new and the old slot's occupancy.
pub proof fn lemma_count_occupied_update(s: Seq<Bucket>, j: int, b: Bucket)
    ensures
        0 <= j < s.len() ==> count_occupied(s.update(j, b)) == count_occupied(s) - (if s[
            j
        ].spec_occupied() {
            1int
        } else {
            0int
        }) + (if b.spec_occupied() {
            1int
        } else {
            0int
        }),
    decreases s.len(),
{
    if 0 <= j < s.len() {
        let t = s.update(j, b);
        if j == s.len() - 1 {
            assert(t.drop_last() =~= s.drop_last());
        } else {
            assert(t.drop_last() =~= s.drop_last().update(j, b));
            lemma_count_occupied_update(s.drop_last(), j, b);
        }
    }
}

/// The occupied-slot count is zero exactly when every slot is unoccupied.
pub proof fn lemma_count_occupied_all_empty(s: Seq<Bucket>)
    ensures
        (count_occupied(s) == 0) <==> (forall|t: int|
            0 <= t < s.len() ==> !s[t].spec_occupied()),
    decreases s.len(),
{
    if s.len() > 0 {
        lemma_count_occupied_all_empty(s.drop_last());
        lemma_count_occupied_bounds(s.drop_last());
        assert(forall|t: int| 0 <= t < s.len() - 1 ==> s.drop_last()[t] == s[t]);
        assert(s.last() == s[s.len() - 1]);
    }
}

/// An occupied slot witnesses a positive occupied-slot count.
pub proof fn lemma_count_occupied_pos(s: Seq<Bucket>, j: int)
    requires
        0 <= j < s.len(),
        s[j].spec_occupied(),
    ensures
        count_occupied(s) >= 1,
{
    lemma_count_occupied_bounds(s);
    lemma_count_occupied_all_empty(s);
}

/// `post` is `pre` with slot `s` overwritten by the pair `(f, v)` and every
/// other slot unchanged.
pub open spec fn spec_slot_set(
    pre: Seq<Bucket>,
    post: Seq<Bucket>,
    s: int,
    f: u8,
    v: [u8; VALUE_SIZE],
) -> bool {
    &&& post.len() == pre.len()
    &&& 0 <= s < pre.len()
    &&& post[s].spec_fp() == f
    &&& post[s].value == v
    &&& forall|t: int| 0 <= t < pre.len() && t != s ==> post[t] == pre[t]
}

/// `post` is `pre` with slot `s` emptied, its stale value bytes kept, and
/// every other slot unchanged.
pub open spec fn spec_slot_cleared(pre: Seq<Bucket>, post: Seq<Bucket>, s: int) -> bool {
    &&& post.len() == pre.len()
    &&& 0 <= s < pre.len()
    &&& !post[s].spec_occupied()
    &&& post[s].value == pre[s].value
    &&& forall|t: int| 0 <= t < pre.len() && t != s ==> post[t] == pre[t]
}

/// The map: a fixed-length array of single-slot buckets and a running count
/// of the occupied ones. The array length is a power of two, fixed at
/// construction; there is no resizing.
pub struct CuckooMap {
    pub buckets: Vec<Bucket>,
    pub len: usize,
}

impl CuckooMap {
    /// Number of bucket slots.
    pub open spec fn spec_num_slots(self) -> int {
        self.buckets@.len() as int
    }

    /// Well-formedness: at least one slot, a power-of-two slot count, and a
    /// length counter that equals the literal count of occupied slots, on
    /// every path that occupies or frees one.
    pub open spec fn wf(self) -> bool {
        &&& 1 <= self.buckets@.len()
        &&& is_pow2(self.buckets@.len() as int)
        &&& self.len == count_occupied(self.buckets@)
    }

    /// The slot that a key's first candidate index selects.
    pub open spec fn spec_slot1(self, k: Seq<u8>) -> int {
        i1_of(k) as int % self.spec_num_slots()
    }

    /// The slot that a key's second candidate index selects.
    pub open spec fn spec_slot2(self, k: Seq<u8>) -> int {
        i2_of(k) as int % self.spec_num_slots()
    }

    /// The fingerprint byte stored at slot `s`.
    pub open spec fn spec_fp_at(self, s: int) -> u8 {
        self.buckets@[s].spec_fp()
    }

    /// Whether a probe for key `k` matches: its fingerprint is stored in one
    /// of its two candidate slots.
    pub open spec fn spec_found(self, k: Seq<u8>) -> bool {
        ||| self.spec_fp_at(self.spec_slot1(k)) == fp_of(k)
        ||| self.spec_fp_at(self.spec_slot2(k)) == fp_of(k)
    }

    /// What a lookup of key `k` returns: the value stored beside the first
    /// matching candidate slot, or nothing.
    pub open spec fn spec_get(self, k: Seq<u8>) -> Option<[u8; VALUE_SIZE]> {
        if self.spec_fp_at(self.spec_slot1(k)) == fp_of(k) {
            Some(self.buckets@[self.spec_slot1(k)].value)
        } else if self.spec_fp_at(self.spec_slot2(k)) == fp_of(k) {
            Some(self.buckets@[self.spec_slot2(k)].value)
        } else {
            None
        }
    }

    /// Whether an insertion of key `k` can place directly into its first
    /// candidate slot: that slot is free or already holds `k`'s fingerprint.
    pub open spec fn spec_direct1(self, k: Seq<u8>) -> bool {
        ||| !self.buckets@[self.spec_slot1(k)].spec_occupied()
        ||| self.spec_fp_at(self.spec_slot1(k)) == fp_of(k)
    }

    /// Whether an insertion of key `k` can place directly into its second
    /// candidate slot.
    pub open spec fn spec_direct2(self, k: Seq<u8>) -> bool {
        ||| !self.buckets@[self.spec_slot2(k)].spec_occupied()
        ||| self.spec_fp_at(self.spec_slot2(k)) == fp_of(k)
    }
}

/// Rounds `cap` up to the least power of two that is at least `max(1, cap)`.
#[verifier::loop_isolation(false)]
fn next_pow2(cap: usize) -> (r: usize)
    requires
        cap as int <= (usize::MAX as int + 1) / 2,
    ensures
        is_pow2(r as int),
        r >= 1,
        r >= cap,
        r == 1 || r < 2 * cap,
{
    let mut p: usize = 1;
    let ghost mut k: nat = 0;
    proof {
        vstd::arithmetic::power2::lemma2_to64();
    }
    while p < cap
        invariant
            p >= 1,
            p == pow2(k),
            k < 64,
            k == 0 || pow2((k - 1) as nat) < cap,
        decreases 64 - k,
    {
        proof {
            lemma_pow2_unfold(k + 1);
            if k + 1 >= 64 {
                if k + 1 > 64 {
                    lemma_pow2_strictly_increases(64, k + 1);
                }
                vstd::arithmetic::power2::lemma2_to64();
            }
        }
        p = p * 2;
        proof {
            k = k + 1;
        }
    }
    proof {
        if k != 0 {
            lemma_pow2_unfold(k);
        }
    }
    p
}

impl CuckooMap {
    /// Builds a map with `max(1, next_power_of_two(cap))` empty buckets.
    pub fn with_capacity(cap: usize) -> (r: Self)
        requires
            cap as int <= (usize::MAX as int + 1) / 2,
        ensures
            r.wf(),
            r.len == 0,
            r.spec_num_slots() >= 1,
            r.spec_num_slots() >= cap,
            r.spec_num_slots() == 1 || r.spec_num_slots() < 2 * cap,
            forall|t: int| 0 <= t < r.spec_num_slots() ==> !r.buckets@[t].spec_occupied(),
    {
        let capacity = next_pow2(cap);
        let mut buckets: Vec<Bucket> = Vec::new();
        while buckets.len() < capacity
            invariant
                buckets@.len() <= capacity,
                forall|t: int| 0 <= t < buckets@.len() ==> !buckets@[t].spec_occupied(),
            decreases capacity - buckets@.len(),
        {
            buckets.push(Bucket::new());
        }
        proof {
            lemma_count_occupied_all_empty(buckets@);
        }
        CuckooMap { buckets, len: 0 }
    }

    /// Builds a map with the default capacity.
    pub fn new() -> (r: Self)
        ensures
            r.wf(),
            r.len == 0,
            r.spec_num_slots() >= DEFAULT_CAPACITY,
            forall|t: int| 0 <= t < r.spec_num_slots() ==> !r.buckets@[t].spec_occupied(),
    {
        Self::with_capacity(DEFAULT_CAPACITY)
    }

    /// Number of entries in the map.
    pub fn len(&self) -> (r: usize)
        ensures
            r == self.len,
    {
        self.len
    }

    /// Whether the map holds no entry.
    pub fn is_empty(&self) -> (r: bool)
        ensures
            r == (self.len == 0),
    {
        self.len == 0
    }

    /// Number of bucket slots the map was built with.
    pub fn bucket_count(&self) -> (r: usize)
        ensures
            r == self.spec_num_slots(),
    {
        self.buckets.len()
    }

    /// Counts the occupied buckets by a full scan. Under well-formedness the
    /// result coincides with the length counter; the scan recomputes it from
    /// the slots themselves, for diagnostics such as a load-factor readout.
    pub fn occupied_buckets(&self) -> (r: usize)
        ensures
            r == count_occupied(self.buckets@),
            self.wf() ==> r == self.len,
    {
        let ghost all = self.buckets@;
        let mut count: usize = 0;
        let mut t: usize = 0;
        while t < self.buckets.len()
            invariant
                t <= self.buckets@.len(),
                self.buckets@ == all,
                count == count_occupied(all.take(t as int)),
                count <= t,
            decreases self.buckets@.len() - t,
        {
            proof {
                assert(all.take(t as int + 1).drop_last() =~= all.take(t as int));
                assert(all.take(t as int + 1).last() == all[t as int]);
            }
            if !self.buckets[t].fingerprint.is_empty() {
                count = count + 1;
            }
            t = t + 1;
        }
        proof {
            assert(all.take(all.len() as int) =~= all);
        }
        count
    }

    /// Number of bytes the map occupies in memory: the struct itself plus
    /// the bucket array, saturating at the address-space limit.
    pub fn memory_usage(&self) -> (r: usize)
        ensures
            ({
                let exact = core::mem::size_of::<CuckooMap>() + self.buckets@.len()
                    * core::mem::size_of::<Bucket>();
                if exact <= usize::MAX {
                    r == exact
                } else {
                    r == usize::MAX
                }
            }),
    {
        let base: usize = core::mem::size_of::<CuckooMap>();
        let per: usize = core::mem::size_of::<Bucket>();
        match self.buckets.len().checked_mul(per) {
            Some(array_bytes) => match base.checked_add(array_bytes) {
                Some(total) => total,
                None => usize::MAX,
            },
            None => usize::MAX,
        }
    }

    /// Looks a key up: probes the two candidate slots for an exact
    /// fingerprint match and returns the stored value on the first match.
    /// A `None` is definitive (no false negatives for keys not evicted);
    /// a `Some` may be a false positive of a colliding key.
    pub fn get(&self, key: &[u8]) -> (r: Option<[u8; VALUE_SIZE]>)
        requires
            self.wf(),
        ensures
            r == self.spec_get(key@),
    {
        let fai = get_fai(key);
        let n = self.buckets.len();
        let s1 = (fai.i1 % (n as u64)) as usize;
        if self.buckets[s1].fingerprint.matches(&fai.fp) {
            return Some(self.buckets[s1].value);
        }
        let s2 = (fai.i2 % (n as u64)) as usize;
        if self.buckets[s2].fingerprint.matches(&fai.fp) {
            return Some(self.buckets[s2].value);
        }
        None
    }
}

impl CuckooMap {
    /// Writes `(fp, value)` into the slot that raw index `i` selects, if
    /// that slot is free or already holds `fp`; updates the length counter
    /// exactly when a free slot becomes occupied.
    fn put(&mut self, i: u64, fp: Fingerprint, value: [u8; VALUE_SIZE]) -> (r: bool)
        requires
            old(self).wf(),
            fp@ != EMPTY_BYTE,
        ensures
            final(self).wf(),
            final(self).spec_num_slots() == old(self).spec_num_slots(),
            ({
                let s = i as int % old(self).spec_num_slots();
                let b = old(self).buckets@[s];
                if !b.spec_occupied() || b.spec_fp() == fp@ {
                    &&& r
                    &&& spec_slot_set(old(self).buckets@, final(self).buckets@, s, fp@, value)
                    &&& final(self).len == old(self).len + (if b.spec_occupied() {
                        0int
                    } else {
                        1int
                    })
                } else {
                    &&& !r
                    &&& *final(self) == *old(self)
                }
            }),
    {
        let n = self.buckets.len();
        let s = (i % (n as u64)) as usize;
        let mut b = self.buckets[s];
        let was_empty = b.fingerprint.is_empty();
        if b.set(fp, value) {
            proof {
                lemma_count_occupied_update(self.buckets@, s as int, b);
                lemma_count_occupied_bounds(self.buckets@.update(s as int, b));
            }
            self.buckets[s] = b;
            if was_empty {
                self.len = self.len + 1;
            }
            proof {
                assert(self.buckets@ =~= old(self).buckets@.update(s as int, b));
            }
            true
        } else {
            false
        }
    }

    /// Empties the slot that raw index `i` selects if it holds exactly `fp`,
    /// decrementing the length counter on success.
    fn remove(&mut self, fp: Fingerprint, i: u64) -> (r: bool)
        requires
            old(self).wf(),
            fp@ != EMPTY_BYTE,
        ensures
            final(self).wf(),
            final(self).spec_num_slots() == old(self).spec_num_slots(),
            ({
                let s = i as int % old(self).spec_num_slots();
                let b = old(self).buckets@[s];
                if b.spec_fp() == fp@ {
                    &&& r
                    &&& spec_slot_cleared(old(self).buckets@, final(self).buckets@, s)
                    &&& final(self).len == old(self).len - 1
                } else {
                    &&& !r
                    &&& *final(self) == *old(self)
                }
            }),
    {
        let n = self.buckets.len();
        let s = (i % (n as u64)) as usize;
        let mut b = self.buckets[s];
        if b.reset(fp) {
            proof {
                lemma_count_occupied_pos(self.buckets@, s as int);
                lemma_count_occupied_update(self.buckets@, s as int, b);
            }
            self.buckets[s] = b;
            self.len = self.len - 1;
            proof {
                assert(self.buckets@ =~= old(self).buckets@.update(s as int, b));
            }
            true
        } else {
            false
        }
    }

    /// Deletes a key: empties the first of its two candidate slots that
    /// holds its fingerprint. Returns whether a slot was emptied, that is,
    /// whether a lookup of the key would have matched beforehand.
    pub fn delete(&mut self, key: &[u8]) -> (r: bool)
        requires
            old(self).wf(),
        ensures
            final(self).wf(),
            final(self).spec_num_slots() == old(self).spec_num_slots(),
            r == old(self).spec_found(key@),
            ({
                let s1 = old(self).spec_slot1(key@);
                let s2 = old(self).spec_slot2(key@);
                let f = fp_of(key@);
                if old(self).spec_fp_at(s1) == f {
                    &&& spec_slot_cleared(old(self).buckets@, final(self).buckets@, s1)
                    &&& final(self).len == old(self).len - 1
                } else if old(self).spec_fp_at(s2) == f {
                    &&& spec_slot_cleared(old(self).buckets@, final(self).buckets@, s2)
                    &&& final(self).len == old(self).len - 1
                } else {
                    *final(self) == *old(self)
                }
            }),
    {
        proof {
            lemma_fp_not_empty(key@);
        }
        let fai = get_fai(key);
        if self.remove(fai.fp, fai.i1) {
            true
        } else {
            self.remove(fai.fp, fai.i2)
        }
    }

    /// Empties every bucket and resets the length counter; a no-op on an
    /// already-empty map. Stale value bytes are kept, as bucket emptiness is
    /// decided by the fingerprint field alone.
    #[verifier::loop_isolation(false)]
    pub fn clear(&mut self)
        requires
            old(self).wf(),
        ensures
            final(self).wf(),
            final(self).spec_num_slots() == old(self).spec_num_slots(),
            final(self).len == 0,
            forall|t: int|
                0 <= t < final(self).spec_num_slots() ==> !final(self).buckets@[t].spec_occupied(),
    {
        if self.is_empty() {
            proof {
                lemma_count_occupied_all_empty(self.buckets@);
            }
            return ;
        }
        let n = self.buckets.len();
        let mut t: usize = 0;
        while t < n
            invariant
                t <= n,
                self.buckets@.len() == n,
                self.len == old(self).len,
                forall|u: int| 0 <= u < t ==> !self.buckets@[u].spec_occupied(),
            decreases n - t,
        {
            let mut b = self.buckets[t];
            b.clear();
            self.buckets[t] = b;
            t = t + 1;
        }
        self.len = 0;
        proof {
            lemma_count_occupied_all_empty(self.buckets@);
        }
    }
}

/// Relies on rand::random: one draw of a bool from the process-wide
/// thread-local generator. Nothing is promised of the result; every caller
/// must be correct for either outcome.
#[verifier::external_body]
fn random_bool() -> bool {
    rand::random::<bool>()
}

impl CuckooMap {
    /// Inserts a key with its value. The two candidate slots are tried
    /// directly first; if both are occupied by foreign fingerprints, stored
    /// entries are displaced along a bounded eviction chain that starts at a
    /// randomly chosen candidate, each displaced entry moving to its own
    /// alternate slot.
    ///
    /// On `Ok` the key's fingerprint sits in one of its candidate slots.
    /// When a direct placement applies — a candidate slot is free or already
    /// holds the fingerprint — the outcome is exact: that slot carries the
    /// pair afterwards, so a lookup returns `value`, and re-inserting a
    /// stored key is an in-place overwrite.
    ///
    /// `Err(NotEnoughSpace)` means the chain was cut off after
    /// `MAX_REBUCKET` displacements and the entry displaced last was
    /// dropped. This failure is lossy, not a rollback: the table keeps every
    /// other displaced entry where the chain left it, and the entry lost is
    /// usually an unrelated stored one, not the requested pair.
    #[verifier::loop_isolation(false)]
    pub fn insert(&mut self, key: &[u8], value: [u8; VALUE_SIZE]) -> (r: Result<
        (),
        CuckooError,
    >)
        requires
            old(self).wf(),
        ensures
            final(self).wf(),
            final(self).spec_num_slots() == old(self).spec_num_slots(),
            old(self).spec_direct1(key@) ==> r is Ok && spec_slot_set(
                old(self).buckets@,
                final(self).buckets@,
                old(self).spec_slot1(key@),
                fp_of(key@),
                value,
            ),
            !old(self).spec_direct1(key@) && old(self).spec_direct2(key@) ==> r is Ok
                && spec_slot_set(
                old(self).buckets@,
                final(self).buckets@,
                old(self).spec_slot2(key@),
                fp_of(key@),
                value,
            ),
            r is Ok ==> final(self).spec_found(key@),
            r is Ok ==> old(self).len <= final(self).len <= old(self).len + 1,
            r is Err ==> final(self).len == old(self).len,
            r is Err ==> !old(self).spec_direct1(key@) && !old(self).spec_direct2(key@),
    {
        proof {
            lemma_fp_not_empty(key@);
        }
        let fai = get_fai(key);
        if self.put(fai.i1, fai.fp, value) {
            return Ok(());
        }
        if self.put(fai.i2, fai.fp, value) {
            return Ok(());
        }
        let n = self.buckets.len();
        let ghost f = fp_of(key@);
        let ghost s1 = old(self).spec_slot1(key@);
        let ghost s2 = old(self).spec_slot2(key@);
        let mut i: u64 = if random_bool() {
            fai.i1
        } else {
            fai.i2
        };
        let mut current = Bucket { fingerprint: fai.fp, value };
        let mut step: u32 = 0;
        while step < MAX_REBUCKET
            invariant
                self.wf(),
                self.buckets@.len() == n,
                self.len == old(self).len,
                current.spec_occupied(),
                self.buckets@[i as int % n as int].spec_occupied(),
                ({
                    ||| self.spec_fp_at(s1) == f
                    ||| self.spec_fp_at(s2) == f
                    ||| (current.spec_fp() == f && (i as int % n as int == s1 || i as int % n
                        as int == s2))
                }),
            decreases MAX_REBUCKET - step,
        {
            let s = (i % (n as u64)) as usize;
            let kicked = self.buckets[s];
            let ghost pre = self.buckets@;
            proof {
                lemma_count_occupied_update(pre, s as int, current);
            }
            self.buckets[s] = current;
            proof {
                assert(self.buckets@ =~= pre.update(s as int, current));
            }
            let ghost i_prev = i;
            i = get_alt_index(kicked.fingerprint, i);
            proof {
                if kicked.spec_fp() == f {
                    if i_prev as int % n as int == s1 {
                        lemma_alt_slot_congruent(i_prev, i1_of(key@), f, n as u64);
                    } else if i_prev as int % n as int == s2 {
                        lemma_alt_slot_congruent(i_prev, i2_of(key@), f, n as u64);
                        crate::util::lemma_alt_involutive(i1_of(key@), f);
                    }
                }
            }
            if self.put(i, kicked.fingerprint, kicked.value) {
                return Ok(());
            }
            current = kicked;
            step = step + 1;
        }
        Err(CuckooError::NotEnoughSpace)
    }

    /// Adds a key only if a lookup does not already match: returns
    /// `Ok(false)` without mutation when the key (or a colliding one) is
    /// already present, and otherwise delegates to `insert`, reporting a
    /// successful fresh insertion as `Ok(true)`.
    pub fn test_and_add(&mut self, key: &[u8], value: [u8; VALUE_SIZE]) -> (r: Result<
        bool,
        CuckooError,
    >)
        requires
            old(self).wf(),
        ensures
            final(self).wf(),
            final(self).spec_num_slots() == old(self).spec_num_slots(),
            old(self).spec_found(key@) ==> r == Ok::<bool, CuckooError>(false) && *final(self)
                == *old(self),
            !old(self).spec_found(key@) ==> {
                &&& old(self).spec_direct1(key@) ==> r == Ok::<bool, CuckooError>(true)
                    && spec_slot_set(
                    old(self).buckets@,
                    final(self).buckets@,
                    old(self).spec_slot1(key@),
                    fp_of(key@),
                    value,
                )
                &&& !old(self).spec_direct1(key@) && old(self).spec_direct2(key@) ==> r == Ok::<
                    bool,
                    CuckooError,
                >(true) && spec_slot_set(
                    old(self).buckets@,
                    final(self).buckets@,
                    old(self).spec_slot2(key@),
                    fp_of(key@),
                    value,
                )
                &&& r is Ok ==> r == Ok::<bool, CuckooError>(true) && final(self).spec_found(
                    key@,
                )
                &&& r is Ok ==> old(self).len <= final(self).len <= old(self).len + 1
                &&& r is Err ==> final(self).len == old(self).len
            },
    {
        if self.get(key).is_some() {
            Ok(false)
        } else {
            match self.insert(key, value) {
                Ok(()) => Ok(true),
                Err(e) => Err(e),
            }
        }
    }
}

/// No false negative: when a key's fingerprint is stored in one of its
/// candidate slots — which `insert` guarantees whenever it returns `Ok` —
/// a lookup of that key matches.
pub proof fn lemma_found_get_some(m: CuckooMap, k: Seq<u8>)
    requires
        m.spec_found(k),
    ensures
        m.spec_get(k) is Some,
{
}

/// A direct placement is retrievable: when `insert` wrote the pair into a
/// candidate slot — as its contract states whenever a direct placement
/// applied — the lookup afterwards returns exactly the value written.
pub proof fn lemma_direct_insert_get(m: CuckooMap, m2: CuckooMap, k: Seq<u8>, v: [u8; VALUE_SIZE])
    requires
        m.wf(),
        m2.wf(),
        m2.buckets@.len() == m.buckets@.len(),
        if m.spec_direct1(k) {
            spec_slot_set(m.buckets@, m2.buckets@, m.spec_slot1(k), fp_of(k), v)
        } else {
            m.spec_direct2(k) && spec_slot_set(m.buckets@, m2.buckets@, m.spec_slot2(k), fp_of(k), v)
        },
    ensures
        m2.spec_get(k) == Some(v),
{
    lemma_fp_not_empty(k);
}

/// Re-inserting a stored key overwrites in place. When the key's
/// fingerprint is already stored and its first candidate slot is occupied,
/// the direct placement of `insert` writes the slot that already holds the
/// fingerprint: the occupied-slot count does not change and a lookup
/// afterwards returns the new value. (If the first candidate slot is free
/// while the fingerprint sits in the second, the direct placement writes a
/// second copy instead and the count grows by one.)
pub proof fn lemma_reinsert_same_key(m: CuckooMap, m2: CuckooMap, k: Seq<u8>, v: [u8; VALUE_SIZE])
    requires
        m.wf(),
        m2.wf(),
        m.spec_found(k),
        m.buckets@[m.spec_slot1(k)].spec_occupied(),
        m2.buckets@.len() == m.buckets@.len(),
        if m.spec_direct1(k) {
            spec_slot_set(m.buckets@, m2.buckets@, m.spec_slot1(k), fp_of(k), v)
        } else {
            spec_slot_set(m.buckets@, m2.buckets@, m.spec_slot2(k), fp_of(k), v)
        },
    ensures
        m2.len == m.len,
        m2.spec_get(k) == Some(v),
{
    let s1 = m.spec_slot1(k);
    let s2 = m.spec_slot2(k);
    if m.spec_direct1(k) {
        lemma_count_occupied_update(m.buckets@, s1, m2.buckets@[s1]);
        assert(m2.buckets@ =~= m.buckets@.update(s1, m2.buckets@[s1]));
    } else {
        lemma_count_occupied_update(m.buckets@, s2, m2.buckets@[s2]);
        assert(m2.buckets@ =~= m.buckets@.update(s2, m2.buckets@[s2]));
    }
}

/// Deleting a key stored in exactly one candidate slot removes it for good:
/// the lookup afterwards misses, and one of the key's candidate slots is
/// free again, so a re-insertion places directly, as into a fresh map.
pub proof fn lemma_delete_then_absent(m: CuckooMap, m2: CuckooMap, k: Seq<u8>)
    requires
        m.wf(),
        m2.wf(),
        m2.buckets@.len() == m.buckets@.len(),
        m.spec_found(k),
        !(m.spec_fp_at(m.spec_slot1(k)) == fp_of(k) && m.spec_fp_at(m.spec_slot2(k)) == fp_of(k)
            && m.spec_slot1(k) != m.spec_slot2(k)),
        if m.spec_fp_at(m.spec_slot1(k)) == fp_of(k) {
            spec_slot_cleared(m.buckets@, m2.buckets@, m.spec_slot1(k))
        } else {
            spec_slot_cleared(m.buckets@, m2.buckets@, m.spec_slot2(k))
        },
    ensures
        m2.spec_get(k) is None,
        m2.spec_direct1(k) || m2.spec_direct2(k),
{
    lemma_fp_not_empty(k);
}

/// A fully cleared map finds nothing: with every slot unoccupied — as
/// `clear` leaves them — it holds no entry and no key's lookup matches.
pub proof fn lemma_cleared_finds_nothing(m: CuckooMap, k: Seq<u8>)
    requires
        m.wf(),
        forall|t: int| 0 <= t < m.spec_num_slots() ==> !m.buckets@[t].spec_occupied(),
    ensures
        m.len == 0,
        m.spec_get(k) is None,
{
    lemma_fp_not_empty(k);
    lemma_count_occupied_all_empty(m.buckets@);
}

impl Default for CuckooMap {
    /// Same as `CuckooMap::new`.
    fn default() -> (r: Self)
        ensures
            r.wf(),
            r.len == 0,
            r.spec_num_slots() >= DEFAULT_CAPACITY,
    {
        Self::new()
    }
}

} // verus!
