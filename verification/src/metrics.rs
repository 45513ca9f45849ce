//! Counts of what a reader read.
use vstd::prelude::*;

verus! {

/// What a reader has read, and how its cache fared.
#[derive(Clone, Copy, Debug, PartialEq, Eq, Structural)]
pub struct FullTextReadMetrics {
    pub pread_calls: u64,
    pub pread_ranges: u64,
    pub pread_bytes: u64,
    pub cache_hits: u64,
    pub cache_misses: u64,
    pub cache_evictions: u64,
    pub cached_blocks: u64,
}

impl Default for FullTextReadMetrics {
    fn default() -> (r: Self)
        ensures
            r == (FullTextReadMetrics {
                pread_calls: 0,
                pread_ranges: 0,
                pread_bytes: 0,
                cache_hits: 0,
                cache_misses: 0,
                cache_evictions: 0,
                cached_blocks: 0,
            }),
    {
        FullTextReadMetrics {
            pread_calls: 0,
            pread_ranges: 0,
            pread_bytes: 0,
            cache_hits: 0,
            cache_misses: 0,
            cache_evictions: 0,
            cached_blocks: 0,
        }
    }
}

/// The length of the first `n` ranges together.
pub open spec fn total_length(lengths: Seq<usize>, n: int) -> nat
    decreases n,
{
    if n <= 0 {
        0
    } else {
        total_length(lengths, n - 1) + lengths[n - 1] as nat
    }
}

/// A count after some more, kept below two to the power of 64 by wrapping around.
pub open spec fn wrapped(count: nat) -> nat {
    count % 0x1_0000_0000_0000_0000
}

impl FullTextReadMetrics {
    /// Counts one call that reads ranges of these lengths.
    pub fn record_pread(&mut self, lengths: &Vec<usize>)
        ensures
            final(self).pread_calls == wrapped(old(self).pread_calls as nat + 1),
            final(self).pread_ranges == wrapped(old(self).pread_ranges as nat + lengths@.len()),
            final(self).pread_bytes == wrapped(
                old(self).pread_bytes as nat + total_length(lengths@, lengths@.len() as int),
            ),
            *final(self) == (FullTextReadMetrics {
                pread_calls: final(self).pread_calls,
                pread_ranges: final(self).pread_ranges,
                pread_bytes: final(self).pread_bytes,
                ..*old(self)
            }),
    {
        let mut bytes: u64 = self.pread_bytes;
        let mut i: usize = 0;
        while i < lengths.len()
            invariant
                i <= lengths.len(),
                *self == *old(self),
                bytes == wrapped(
                    old(self).pread_bytes as nat + total_length(lengths@, i as int),
                ),
            decreases lengths.len() - i,
        {
            bytes = bytes.wrapping_add(lengths[i] as u64);
            i = i + 1;
        }
        self.pread_calls = self.pread_calls.wrapping_add(1);
        self.pread_ranges = self.pread_ranges.wrapping_add(lengths.len() as u64);
        self.pread_bytes = bytes;
    }
}

/// What a reader has read, as it is handed to callers in other languages.
#[derive(Clone, Copy, Debug, PartialEq, Eq, Structural)]
pub struct PaimonFtindexReadMetrics {
    pub pread_calls: u64,
    pub pread_ranges: u64,
    pub pread_bytes: u64,
    pub cache_hits: u64,
    pub cache_misses: u64,
    pub cache_evictions: u64,
    pub cached_blocks: u64,
}

impl Default for PaimonFtindexReadMetrics {
    fn default() -> (r: Self)
        ensures
            r == (PaimonFtindexReadMetrics {
                pread_calls: 0,
                pread_ranges: 0,
                pread_bytes: 0,
                cache_hits: 0,
                cache_misses: 0,
                cache_evictions: 0,
                cached_blocks: 0,
            }),
    {
        PaimonFtindexReadMetrics {
            pread_calls: 0,
            pread_ranges: 0,
            pread_bytes: 0,
            cache_hits: 0,
            cache_misses: 0,
            cache_evictions: 0,
            cached_blocks: 0,
        }
    }
}

impl From<FullTextReadMetrics> for PaimonFtindexReadMetrics {
    fn from(metrics: FullTextReadMetrics) -> (r: Self) {
        PaimonFtindexReadMetrics {
            pread_calls: metrics.pread_calls,
            pread_ranges: metrics.pread_ranges,
            pread_bytes: metrics.pread_bytes,
            cache_hits: metrics.cache_hits,
            cache_misses: metrics.cache_misses,
            cache_evictions: metrics.cache_evictions,
            cached_blocks: metrics.cached_blocks,
        }
    }
}

impl vstd::std_specs::convert::FromSpecImpl<FullTextReadMetrics> for PaimonFtindexReadMetrics {
    open spec fn obeys_from_spec() -> bool {
        true
    }

    open spec fn from_spec(metrics: FullTextReadMetrics) -> Self {
        PaimonFtindexReadMetrics {
            pread_calls: metrics.pread_calls,
            pread_ranges: metrics.pread_ranges,
            pread_bytes: metrics.pread_bytes,
            cache_hits: metrics.cache_hits,
            cache_misses: metrics.cache_misses,
            cache_evictions: metrics.cache_evictions,
            cached_blocks: metrics.cached_blocks,
        }
    }
}

/// Lengths are added up, one after the other.
pub proof fn lengths_add_up(lengths: Seq<usize>, length: usize)
    ensures
        total_length(Seq::empty(), 0) == 0,
        total_length(lengths.push(length), (lengths.len() + 1) as int) == total_length(
            lengths,
            lengths.len() as int,
        ) + length,
{
    first_lengths(lengths, length, lengths.len() as int);
}

proof fn first_lengths(lengths: Seq<usize>, length: usize, n: int)
    requires
        0 <= n <= lengths.len(),
    ensures
        total_length(lengths.push(length), n) == total_length(lengths, n),
    decreases n,
{
    if n > 0 {
        first_lengths(lengths, length, n - 1);
    }
}

/// A count is exact as long as it fits in 64 bits.
pub proof fn counts_are_exact_while_they_fit(count: nat)
    requires
        count <= u64::MAX,
    ensures
        wrapped(count) == count,
{
}

} // verus!
