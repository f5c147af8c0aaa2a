//! The hash-repartition plan: per-(worker, bucket) write offsets and
//! per-bucket element counts, computed in one counting pass over the hash
//! chunks and one prefix scan across workers.

use vstd::prelude::*;

verus! {

/// How many of the first `k` hashes fall into bucket `b` under `mask`.
pub open spec fn count_rows(h: Seq<u64>, mask: u64, b: u64, k: int) -> nat
    decreases k,
{
    if k <= 0 {
        0
    } else {
        count_rows(h, mask, b, k - 1) + if h[k - 1] & mask == b {
            1nat
        } else {
            0nat
        }
    }
}

/// How many hashes of partitions `[0, p)` fall into bucket `b` under `mask`.
pub open spec fn count_parts(hs: Seq<Seq<u64>>, mask: u64, b: u64, p: int) -> nat
    decreases p,
{
    if p <= 0 {
        0
    } else {
        count_parts(hs, mask, b, p - 1) + count_rows(hs[p - 1], mask, b, hs[p - 1].len() as int)
    }
}

/// The total number of hashes in partitions `[0, p)`.
pub open spec fn total_rows(hs: Seq<Seq<u64>>, p: int) -> nat
    decreases p,
{
    if p <= 0 {
        0
    } else {
        total_rows(hs, p - 1) + hs[p - 1].len()
    }
}

/// The number of hashes in buckets `[0, nb)` of partitions `[0, p)`.
pub open spec fn sum_buckets(hs: Seq<Seq<u64>>, mask: u64, p: int, nb: int) -> nat
    decreases nb,
{
    if nb <= 0 {
        0
    } else {
        sum_buckets(hs, mask, p, nb - 1) + count_parts(hs, mask, (nb - 1) as u64, p)
    }
}

/// The hash-repartition plan: for each worker chunk and bucket, the write
/// offset inside the bucket, and each bucket's total element count.
#[derive(Debug)]
pub struct TableToTableMap {
    /// Partitions per worker chunk.
    pub target_partition_size: usize,
    /// The number of buckets, a power of two.
    pub number_of_buckets: usize,
    /// The bucket-bit count: buckets are selected by `hash & (2^bits - 1)`.
    pub bucket_bits: usize,
    /// `write_offsets[w][b]`: where worker `w` starts writing in bucket `b`.
    pub write_offsets: Vec<Vec<usize>>,
    /// Per-bucket element counts.
    pub bucket_number_of_elements: Vec<usize>,
}

impl TableToTableMap {
    /// The plan's correspondence to the hash chunks it was built from.
    pub open spec fn wf_for(&self, hs: Seq<Seq<u64>>) -> bool {
        let mask = (self.number_of_buckets - 1) as u64;
        let tps = self.target_partition_size as int;
        &&& self.number_of_buckets >= 1
        &&& self.bucket_number_of_elements@.len() == self.number_of_buckets
        &&& forall|b: int|
            0 <= b < self.number_of_buckets ==> #[trigger] self.bucket_number_of_elements@[b]
                == count_parts(hs, mask, b as u64, hs.len() as int)
        &&& forall|w: int, b: int|
            0 <= w < self.write_offsets@.len() && 0 <= b < self.number_of_buckets
                ==> #[trigger] self.write_offsets@[w]@[b] == count_parts(
                hs,
                mask,
                b as u64,
                if w * tps <= hs.len() {
                    w * tps
                } else {
                    hs.len() as int
                },
            )
        &&& forall|w: int|
            0 <= w < self.write_offsets@.len() ==> (#[trigger] self.write_offsets@[w])@.len()
                == self.number_of_buckets
    }

    /// Builds the plan: count per (worker chunk, bucket), then prefix-scan
    /// the counts across workers into write offsets.
    pub fn new(hash: &Vec<Vec<u64>>, number_of_worker_threads: usize, bucket_bits: usize) -> (r:
        Self)
        requires
            1 <= number_of_worker_threads,
            bucket_bits < 32,
            hash@.len() + number_of_worker_threads <= usize::MAX,
            total_rows(hash@.map_values(|v: Vec<u64>| v@), hash@.len() as int) < usize::MAX,
        ensures
            r.wf_for(hash@.map_values(|v: Vec<u64>| v@)),
            r.number_of_buckets == (1usize << (bucket_bits as usize)),
            r.bucket_bits == bucket_bits,
            r.target_partition_size as int == if hash@.len() == 0 {
                1int
            } else {
                ((hash@.len() + number_of_worker_threads - 1) as int) / (
                number_of_worker_threads as int)
            },
    {
        let ghost hs = hash@.map_values(|v: Vec<u64>| v@);
        let number_of_buckets: usize = 1usize << bucket_bits;
        proof {
            assert((1usize << bucket_bits) >= 1 && (1usize << bucket_bits) <= 0x8000_0000usize)
                by (bit_vector)
                requires
                    bucket_bits < 32,
            ;
        }
        let bucket_mask: u64 = (number_of_buckets - 1) as u64;
        let target_partition_size: usize = (hash.len() + number_of_worker_threads - 1)
            / number_of_worker_threads;
        let tps: usize = if target_partition_size == 0 {
            1
        } else {
            target_partition_size
        };
        proof {
            if hash@.len() == 0 {
                assert(((number_of_worker_threads - 1) as int) / (number_of_worker_threads as int)
                    == 0) by (nonlinear_arith)
                    requires
                        number_of_worker_threads >= 1,
                ;
            } else {
                assert(((hash@.len() + number_of_worker_threads - 1) as int) / (
                number_of_worker_threads as int) >= 1) by (nonlinear_arith)
                    requires
                        hash@.len() >= 1,
                        number_of_worker_threads >= 1,
                ;
            }
        }
        let p_total = hash.len();
        let mut write_offsets: Vec<Vec<usize>> = Vec::new();
        let mut current: Vec<usize> = crate::binarycolumn::vec_fill_usize(number_of_buckets);
        let mut p: usize = 0;
        let mut nchunks: usize = 0;
        while p < p_total
            invariant
                p <= p_total,
                p_total == hs.len(),
                hs == hash@.map_values(|v: Vec<u64>| v@),
                tps >= 1,
                number_of_buckets >= 1,
                bucket_mask == (number_of_buckets - 1) as u64,
                total_rows(hs, hs.len() as int) < usize::MAX,
                current@.len() == number_of_buckets,
                nchunks <= p,
                forall|b: int|
                    0 <= b < number_of_buckets ==> #[trigger] current@[b] == count_parts(
                        hs,
                        bucket_mask,
                        b as u64,
                        p as int,
                    ),
                write_offsets@.len() == nchunks,
                p as int == if nchunks * (tps as int) <= p_total {
                    nchunks * (tps as int)
                } else {
                    p_total as int
                },
                forall|w: int|
                    0 <= w < write_offsets@.len() ==> (#[trigger] write_offsets@[w])@.len()
                        == number_of_buckets,
                forall|w: int, b: int|
                    0 <= w < write_offsets@.len() && 0 <= b < number_of_buckets
                        ==> #[trigger] write_offsets@[w]@[b] == count_parts(
                        hs,
                        bucket_mask,
                        b as u64,
                        if w * (tps as int) <= hs.len() {
                            w * (tps as int)
                        } else {
                            hs.len() as int
                        },
                    ),
            decreases p_total - p,
        {
            let snapshot = clone_index_vec(&current);
            write_offsets.push(snapshot);
            proof {
                assert(nchunks * (tps as int) <= p_total);
                assert forall|w: int, b: int|
                    0 <= w < write_offsets@.len() && 0 <= b < number_of_buckets
                        implies #[trigger] write_offsets@[w]@[b] == count_parts(
                        hs,
                        bucket_mask,
                        b as u64,
                        if w * (tps as int) <= hs.len() {
                            w * (tps as int)
                        } else {
                            hs.len() as int
                        },
                    ) by {
                }
            }
            nchunks = nchunks + 1;
            proof {
                assert(nchunks * (tps as int) == (nchunks - 1) * (tps as int) + tps)
                    by (nonlinear_arith);
            }
            let chunk_end: usize = if p_total - p > tps {
                p + tps
            } else {
                p_total
            };
            while p < chunk_end
                invariant
                    p <= chunk_end,
                    chunk_end <= p_total,
                    p_total == hs.len(),
                    hs == hash@.map_values(|v: Vec<u64>| v@),
                    number_of_buckets >= 1,
                    bucket_mask == (number_of_buckets - 1) as u64,
                    total_rows(hs, hs.len() as int) < usize::MAX,
                    current@.len() == number_of_buckets,
                    forall|b: int|
                        0 <= b < number_of_buckets ==> #[trigger] current@[b] == count_parts(
                            hs,
                            bucket_mask,
                            b as u64,
                            p as int,
                        ),
                decreases chunk_end - p,
            {
                let h: &Vec<u64> = &hash[p];
                let m = h.len();
                let ghost hrow = hs[p as int];
                let mut k: usize = 0;
                while k < m
                    invariant
                        k <= m,
                        p < p_total,
                        p_total == hs.len(),
                        m == hrow.len(),
                        hrow == hs[p as int],
                        h@ == hrow,
                        number_of_buckets >= 1,
                        bucket_mask == (number_of_buckets - 1) as u64,
                        current@.len() == number_of_buckets,
                        total_rows(hs, hs.len() as int) < usize::MAX,
                        forall|b: int|
                            0 <= b < number_of_buckets ==> #[trigger] current@[b] == count_parts(
                                hs,
                                bucket_mask,
                                b as u64,
                                p as int,
                            ) + count_rows(hrow, bucket_mask, b as u64, k as int),
                    decreases m - k,
                {
                    let hv: u64 = h[k];
                    let bucket: u64 = hv & bucket_mask;
                    proof {
                        assert(hv & bucket_mask <= bucket_mask) by (bit_vector);
                        lemma_counts_bounded(hs, hrow, bucket_mask, bucket, p as int, k as int);
                        lemma_total_rows_bound(hs, p + 1, hs.len() as int);
                    }
                    let bu: usize = bucket as usize;
                    let cur = current[bu];
                    current[bu] = cur + 1;
                    k = k + 1;
                }
                p = p + 1;
            }
        }
        Self {
            target_partition_size: tps,
            number_of_buckets,
            bucket_bits,
            write_offsets,
            bucket_number_of_elements: current,
        }
    }
}

/// Counted rows never exceed the rows scanned.
pub proof fn lemma_count_rows_le(h: Seq<u64>, mask: u64, b: u64, k: int)
    requires
        k >= 0,
    ensures
        count_rows(h, mask, b, k) <= k,
    decreases k,
{
    if k > 0 {
        lemma_count_rows_le(h, mask, b, k - 1);
    }
}

/// A bucket's count never exceeds the total rows scanned.
pub proof fn lemma_count_le_rows(hs: Seq<Seq<u64>>, mask: u64, p: int)
    requires
        p >= 0,
    ensures
        forall|b: u64| #[trigger] count_parts(hs, mask, b, p) <= total_rows(hs, p),
    decreases p,
{
    if p > 0 {
        lemma_count_le_rows(hs, mask, p - 1);
        assert forall|b: u64| #[trigger] count_parts(hs, mask, b, p) <= total_rows(hs, p) by {
            lemma_count_rows_le(hs[p - 1], mask, b, hs[p - 1].len() as int);
            assert(count_parts(hs, mask, b, p) == count_parts(hs, mask, b, p - 1) + count_rows(
                hs[p - 1],
                mask,
                b,
                hs[p - 1].len() as int,
            ));
            assert(count_parts(hs, mask, b, p - 1) <= total_rows(hs, p - 1));
        }
    }
}

/// Totals grow with the number of partitions scanned.
pub proof fn lemma_total_rows_bound(hs: Seq<Seq<u64>>, i: int, j: int)
    requires
        i <= j,
    ensures
        total_rows(hs, i) <= total_rows(hs, j),
    decreases j - i,
{
    if i < j {
        lemma_total_rows_bound(hs, i, j - 1);
    }
}

/// Running bucket counts stay within the total row budget.
pub proof fn lemma_counts_bounded(
    hs: Seq<Seq<u64>>,
    hrow: Seq<u64>,
    mask: u64,
    b: u64,
    p: int,
    k: int,
)
    requires
        0 <= p < hs.len(),
        0 <= k < hrow.len(),
        hrow == hs[p],
    ensures
        count_parts(hs, mask, b, p) + count_rows(hrow, mask, b, k) + 1 <= total_rows(hs, p + 1),
{
    lemma_count_le_rows(hs, mask, p);
    lemma_count_rows_le(hrow, mask, b, k);
}

/// Counted rows grow with the rows scanned, by at most one per row.
pub proof fn lemma_count_rows_mono(h: Seq<u64>, mask: u64, b: u64, i: int, j: int)
    requires
        0 <= i <= j,
    ensures
        count_rows(h, mask, b, i) <= count_rows(h, mask, b, j),
        count_rows(h, mask, b, j) <= count_rows(h, mask, b, i) + (j - i),
    decreases j - i,
{
    if i < j {
        lemma_count_rows_mono(h, mask, b, i, j - 1);
    }
}

/// Clones an index vector.
pub fn clone_index_vec(v: &Vec<usize>) -> (r: Vec<usize>)
    ensures
        r@ == v@,
{
    let mut out: Vec<usize> = Vec::with_capacity(v.len());
    let mut i: usize = 0;
    while i < v.len()
        invariant
            i <= v@.len(),
            out@ == v@.subrange(0, i as int),
        decreases v@.len() - i,
    {
        out.push(v[i]);
        i = i + 1;
    }
    proof {
        assert(out@ =~= v@);
    }
    out
}

} // verus!
