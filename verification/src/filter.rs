//! Deduplication filter: a fixed-size probabilistic membership structure.
//!
//! The filter answers "was this key inserted before?" with possible false
//! positives and no false negatives. Each key sets a fixed number of
//! hash-derived positions in a bit array; a key is reported present exactly
//! when all of its positions are set.

use vstd::prelude::*;

verus! {

/// Largest accepted `expected_items`, so that the bit array stays a sane
/// allocation and derived quantities fit comfortably in machine words.
pub const MAX_EXPECTED_ITEMS: usize = 1048576;

/// Largest bit-array length `configure` can produce.
pub const MAX_FILTER_BITS: usize = 0x10000000;

/// Offset basis of the byte-at-a-time hash.
pub const HASH_INIT: u64 = 0xcbf29ce484222325;

/// Multiplier of the byte-at-a-time hash.
pub const HASH_PRIME: u64 = 0x100000001b3;

/// Seed multiplier separating the hash functions of one filter.
pub const SEED_STRIDE: u64 = 0x9e3779b97f4a7c15;

/// Rejected filter configurations.
#[derive(Clone, Copy, Debug, PartialEq, Eq, Structural)]
pub enum FilterError {
    /// The requested rate is outside (0, 1) or the expected load is zero or
    /// beyond the accepted maximum.
    InvalidParameter,
}

/// One mixing step of the hash: fold one byte in, then multiply, wrapping.
pub open spec fn hash_step(h: u64, b: u8) -> u64 {
    vstd::wrapping::u64_specs::wrapping_mul(h ^ (b as u64), HASH_PRIME)
}

/// The hash of a whole key starting from state `h0`.
pub open spec fn hash_of(key: Seq<u8>, h0: u64) -> u64
    decreases key.len(),
{
    if key.len() == 0 {
        h0
    } else {
        hash_step(hash_of(key.drop_last(), h0), key.last())
    }
}

/// The starting state of hash function number `j`.
pub open spec fn hash_seed(j: u64) -> u64 {
    vstd::wrapping::u64_specs::wrapping_add(
        HASH_INIT,
        vstd::wrapping::u64_specs::wrapping_mul(j, SEED_STRIDE),
    )
}

/// The bit position probed by hash function `j` for `key` in an array of
/// `n` bits.
pub open spec fn bit_pos(j: u64, key: Seq<u8>, n: int) -> int
    recommends
        n > 0,
{
    (hash_of(key, hash_seed(j)) as int) % n
}

/// A deduplication filter over byte-string keys.
///
/// The set of keys inserted so far is carried as ghost state; the structural
/// invariant ties it to the bit array: every probe position of every
/// inserted key is set.
pub struct DedupFilter {
    bits: Vec<bool>,
    hash_count: u64,
    keys: Ghost<Set<Seq<u8>>>,
}

impl DedupFilter {
    /// The number of bits in the array.
    pub closed spec fn nbits(self) -> int {
        self.bits@.len() as int
    }

    /// The bit array itself.
    pub closed spec fn bits_view(self) -> Seq<bool> {
        self.bits@
    }

    /// The number of hash functions.
    pub closed spec fn k(self) -> int {
        self.hash_count as int
    }

    /// The keys inserted so far.
    pub closed spec fn keys(self) -> Set<Seq<u8>> {
        self.keys@
    }

    /// All probe positions of `key` are set in the bit array.
    pub closed spec fn all_probes_set(self, key: Seq<u8>) -> bool {
        forall|j: u64|
            0 <= j < self.hash_count ==> #[trigger] self.bits@[bit_pos(j, key, self.nbits())]
    }

    /// No bit of the array is set.
    pub closed spec fn all_clear(self) -> bool {
        forall|i: int| 0 <= i < self.bits@.len() ==> !(#[trigger] self.bits@[i])
    }

    /// Structural invariant: a non-empty bounded bit array, at least one
    /// hash function, and every inserted key fully set.
    pub closed spec fn wf(self) -> bool {
        &&& 1 <= self.bits@.len() <= MAX_FILTER_BITS
        &&& 1 <= self.hash_count <= 64
        &&& forall|key: Seq<u8>| self.keys@.contains(key) ==> #[trigger] self.all_probes_set(key)
    }

    /// Whether an (items, rate) pair is an accepted configuration.
    pub open spec fn valid_config(expected_items: usize, fp_rate_ppm: u32) -> bool {
        &&& 1 <= expected_items <= MAX_EXPECTED_ITEMS
        &&& 0 < fp_rate_ppm < 1000000
    }

    /// Build a filter for an accepted configuration.
    ///
    /// The number of hash functions approximates the base-2 logarithm of the
    /// inverse false-positive rate, and the array holds 1.44 bits per
    /// expected item per hash function, the usual sizing of such filters.
    pub fn build(expected_items: usize, fp_rate_ppm: u32) -> (f: DedupFilter)
        requires
            Self::valid_config(expected_items, fp_rate_ppm),
        ensures
            f.wf(),
            f.keys() == Set::<Seq<u8>>::empty(),
            f.all_clear(),
    {
        let ratio: u64 = 1000000 / (fp_rate_ppm as u64);
        let mut k: u64 = 1;
        let mut reach: u64 = 2;
        while reach < ratio && k < 20
            invariant
                1 <= k <= 20,
                2 <= reach <= 2000000,
                ratio <= 1000000,
            decreases 20 - k,
        {
            k = k + 1;
            reach = reach * 2;
        }
        let ei: u64 = expected_items as u64;
        assert(ei * k <= 20971520) by (nonlinear_arith)
            requires
                ei <= 1048576 && 1 <= k <= 20,
        ;
        assert(1 * 1 <= ei * k) by (nonlinear_arith)
            requires
                1 <= ei && 1 <= k,
        ;
        let nbits_wide: u64 = ei * k * 144 / 100;
        let nbits: usize = if nbits_wide < 1 {
            1
        } else {
            nbits_wide as usize
        };
        assert(1 <= nbits && nbits <= MAX_FILTER_BITS);
        let mut bits: Vec<bool> = Vec::new();
        let mut i: usize = 0;
        while i < nbits
            invariant
                i <= nbits,
                bits@.len() == i,
                forall|q: int| 0 <= q < i ==> !(#[trigger] bits@[q]),
            decreases nbits - i,
        {
            bits.push(false);
            i = i + 1;
        }
        DedupFilter { bits, hash_count: k, keys: Ghost(Set::<Seq<u8>>::empty()) }
    }

    /// In an all-clear well-formed filter, no key has all its probe
    /// positions set, and no position counts towards the load.
    pub proof fn lemma_all_clear_consequences(self)
        requires
            self.wf(),
            self.all_clear(),
        ensures
            forall|key: Seq<u8>| !(#[trigger] self.all_probes_set(key)),
            Self::count_set(self.bits_view()) == 0,
    {
        assert forall|key: Seq<u8>| !(#[trigger] self.all_probes_set(key)) by {
            assert(0 <= bit_pos(0u64, key, self.nbits()) < self.nbits());
            assert(!self.bits@[bit_pos(0u64, key, self.nbits())]);
        }
        Self::lemma_count_set_all_clear(self.bits@);
    }

    proof fn lemma_count_set_all_clear(s: Seq<bool>)
        requires
            forall|i: int| 0 <= i < s.len() ==> !(#[trigger] s[i]),
        ensures
            Self::count_set(s) == 0,
        decreases s.len(),
    {
        if s.len() > 0 {
            assert forall|i: int| 0 <= i < s.drop_last().len() implies !(
            #[trigger] s.drop_last()[i]) by {
                assert(!s[i]);
            }
            Self::lemma_count_set_all_clear(s.drop_last());
            assert(!s[s.len() - 1]);
        }
    }

    /// Size a filter for an expected load and a target false-positive rate
    /// given in parts per million; rejects a rate outside (0, 1) and a load
    /// of zero or beyond the accepted maximum.
    pub fn configure(expected_items: usize, fp_rate_ppm: u32) -> (r: Result<
        DedupFilter,
        FilterError,
    >)
        ensures
            Self::valid_config(expected_items, fp_rate_ppm) <==> r is Ok,
            r matches Ok(f) ==> f.wf() && f.keys() == Set::<Seq<u8>>::empty() && f.all_clear(),
            r matches Err(e) ==> e == FilterError::InvalidParameter,
    {
        if expected_items == 0 || expected_items > MAX_EXPECTED_ITEMS || fp_rate_ppm == 0
            || fp_rate_ppm >= 1000000 {
            return Err(FilterError::InvalidParameter);
        }
        Ok(Self::build(expected_items, fp_rate_ppm))
    }

    /// The probe position of hash function `j` for `key`.
    fn probe(&self, j: u64, key: &Vec<u8>) -> (r: usize)
        requires
            self.nbits() >= 1,
        ensures
            r == bit_pos(j, key@, self.nbits()),
    {
        let mut h: u64 = HASH_INIT.wrapping_add(j.wrapping_mul(SEED_STRIDE));
        assert(h == hash_seed(j));
        let ghost h0: u64 = h;
        let mut i: usize = 0;
        while i < key.len()
            invariant
                i <= key.len(),
                h == hash_of(key@.take(i as int), h0),
            decreases key.len() - i,
        {
            proof {
                assert(key@.take(i + 1 as int).drop_last() =~= key@.take(i as int));
                assert(key@.take(i + 1 as int).last() == key@[i as int]);
            }
            h = (h ^ (key[i] as u64)).wrapping_mul(HASH_PRIME);
            i = i + 1;
        }
        proof {
            assert(key@.take(key@.len() as int) =~= key@);
        }
        let n: usize = self.bits.len();
        let r: u64 = h % (n as u64);
        r as usize
    }

    /// Record `key`; idempotent, never fails. Exactly the probe positions
    /// of `key` become set; every other bit keeps its value.
    pub fn insert(&mut self, key: &Vec<u8>)
        requires
            old(self).wf(),
        ensures
            final(self).wf(),
            final(self).keys() == old(self).keys().insert(key@),
            final(self).nbits() == old(self).nbits(),
            final(self).k() == old(self).k(),
            forall|i: int|
                0 <= i < old(self).nbits() ==> #[trigger] final(self).bits_view()[i] == (old(
                self).bits_view()[i] || exists|j: u64|
                    0 <= j < old(self).k() && i == #[trigger] bit_pos(j, key@, old(self).nbits())),
    {
        let kcount: u64 = self.hash_count;
        let mut j: u64 = 0;
        while j < kcount
            invariant
                old(self).wf(),
                j <= kcount,
                kcount == self.hash_count,
                self.hash_count == old(self).hash_count,
                self.bits@.len() == old(self).bits@.len(),
                self.keys@ == old(self).keys@,
                forall|i: int|
                    0 <= i < old(self).bits@.len() && old(self).bits@[i] ==> #[trigger] self.bits@[i],
                forall|jj: u64|
                    0 <= jj < j ==> #[trigger] self.bits@[bit_pos(jj, key@, old(self).nbits())],
                forall|i: int|
                    0 <= i < old(self).bits@.len() ==> #[trigger] self.bits@[i] == (old(
                    self).bits@[i] || exists|jj: u64|
                        0 <= jj < j && i == #[trigger] bit_pos(jj, key@, old(self).nbits())),
            decreases kcount - j,
        {
            let p = self.probe(j, key);
            let ghost prior_bits = self.bits@;
            self.bits.set(p, true);
            proof {
                let ghost n = old(self).nbits();
                assert forall|i: int| 0 <= i < old(self).bits@.len() implies #[trigger] self
                    .bits@[i] == (old(self).bits@[i] || exists|jj: u64|
                    0 <= jj < j + 1 && i == #[trigger] bit_pos(jj, key@, n)) by {
                    if i == bit_pos(j, key@, n) {
                        assert(self.bits@[i]);
                        assert(0 <= j < j + 1 && i == bit_pos(j, key@, n));
                    } else {
                        assert(self.bits@[i] == prior_bits[i]);
                        if prior_bits[i] {
                            if !old(self).bits@[i] {
                                let jj = choose|jj: u64|
                                    0 <= jj < j && i == #[trigger] bit_pos(jj, key@, n);
                                assert(0 <= jj < j + 1 && i == bit_pos(jj, key@, n));
                            }
                        } else {
                            if exists|jj: u64|
                                0 <= jj < j + 1 && i == #[trigger] bit_pos(jj, key@, n) {
                                let jj = choose|jj: u64|
                                    0 <= jj < j + 1 && i == #[trigger] bit_pos(jj, key@, n);
                                assert(jj < j);
                                assert(prior_bits[i]);
                            }
                        }
                    }
                }
            }
            j = j + 1;
        }
        proof {
            self.keys@ = self.keys@.insert(key@);
            assert forall|k2: Seq<u8>| self.keys@.contains(k2) implies #[trigger] self
                .all_probes_set(k2) by {
                if k2 =~= key@ {
                    assert forall|jj: u64| 0 <= jj < self.hash_count implies #[trigger] self
                        .bits@[bit_pos(jj, k2, self.nbits())] by {
                        assert(self.bits@[bit_pos(jj, key@, old(self).nbits())]);
                    }
                } else {
                    assert(old(self).keys@.contains(k2));
                    assert(old(self).all_probes_set(k2));
                    assert forall|jj: u64| 0 <= jj < self.hash_count implies #[trigger] self
                        .bits@[bit_pos(jj, k2, self.nbits())] by {
                        assert(old(self).bits@[bit_pos(jj, k2, old(self).nbits())]);
                    }
                }
            }
        }
    }

    /// Whether `key` might have been inserted: true exactly when all probe
    /// positions of `key` are set, so an inserted key is always reported
    /// present, and a positive answer may be spurious.
    pub fn might_contain(&self, key: &Vec<u8>) -> (r: bool)
        requires
            self.wf(),
        ensures
            r == self.all_probes_set(key@),
            self.keys().contains(key@) ==> r,
    {
        let kcount: u64 = self.hash_count;
        let mut j: u64 = 0;
        while j < kcount
            invariant
                self.wf(),
                j <= kcount,
                kcount == self.hash_count,
                forall|jj: u64|
                    0 <= jj < j ==> #[trigger] self.bits@[bit_pos(jj, key@, self.nbits())],
            decreases kcount - j,
        {
            let p = self.probe(j, key);
            if !self.bits[p] {
                proof {
                    assert(!self.bits@[bit_pos(j, key@, self.nbits())]);
                    if self.keys@.contains(key@) {
                        assert(self.all_probes_set(key@));
                    }
                }
                return false;
            }
            j = j + 1;
        }
        true
    }

    /// How many positions of `s` are set.
    pub closed spec fn count_set(s: Seq<bool>) -> int
        decreases s.len(),
    {
        if s.len() == 0 {
            0int
        } else {
            Self::count_set(s.drop_last()) + if s.last() {
                1int
            } else {
                0int
            }
        }
    }

    proof fn lemma_count_set_bound(s: Seq<bool>)
        ensures
            0 <= Self::count_set(s) <= s.len(),
        decreases s.len(),
    {
        if s.len() > 0 {
            Self::lemma_count_set_bound(s.drop_last());
        }
    }

    /// The fraction of bits set, in parts per thousand; callers are expected
    /// to rebuild the filter once this crosses their high-water mark.
    pub fn load_permille(&self) -> (r: u64)
        requires
            self.wf(),
        ensures
            r == 1000 * Self::count_set(self.bits_view()) / self.nbits(),
    {
        let mut count: u64 = 0;
        let mut i: usize = 0;
        while i < self.bits.len()
            invariant
                self.wf(),
                i <= self.bits@.len(),
                count == Self::count_set(self.bits@.take(i as int)),
                0 <= count <= i,
            decreases self.bits@.len() - i,
        {
            proof {
                assert(self.bits@.take(i + 1 as int).drop_last() =~= self.bits@.take(i as int));
                Self::lemma_count_set_bound(self.bits@.take(i as int));
            }
            if self.bits[i] {
                count = count + 1;
            }
            i = i + 1;
        }
        proof {
            assert(self.bits@.take(self.bits@.len() as int) =~= self.bits@);
        }
        (1000 * count) / (self.bits.len() as u64)
    }

    /// Clear every bit, forgetting all keys; the configuration is kept.
    pub fn reset(&mut self)
        requires
            old(self).wf(),
        ensures
            final(self).wf(),
            final(self).keys() == Set::<Seq<u8>>::empty(),
            final(self).nbits() == old(self).nbits(),
            final(self).k() == old(self).k(),
            final(self).all_clear(),
    {
        let n = self.bits.len();
        let mut i: usize = 0;
        while i < n
            invariant
                i <= n,
                n == self.bits@.len(),
                self.bits@.len() == old(self).bits@.len(),
                self.hash_count == old(self).hash_count,
                old(self).wf(),
                forall|q: int| 0 <= q < i ==> !(#[trigger] self.bits@[q]),
            decreases n - i,
        {
            self.bits.set(i, false);
            i = i + 1;
        }
        proof {
            self.keys@ = Set::<Seq<u8>>::empty();
        }
    }
}

} // verus!
