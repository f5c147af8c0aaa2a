//! Engine-wide laws, stated and proved over the specification functions the
//! public contracts use.

use vstd::prelude::*;

use crate::columnop::{
    bytes_row_hash, first_match, group_ids, lemma_first_match_props, rows_key_eq,
};
use crate::c_max::max_groups_u64;
use crate::c_sum::sum_groups_u32;
use crate::helpers::{lemma_filter_all_true, surviving_positions, sum_prefix};
use crate::table::{count_firsts, Table};
use crate::tableexpression::filter_applied;
use crate::tabletotable::{count_parts, count_rows, sum_buckets, total_rows};

verus! {

/// With an all-true predicate, every position survives.
proof fn lemma_surviving_positions_all_true(keep: Seq<bool>, k: int)
    requires
        0 <= k <= keep.len(),
        forall|i: int| 0 <= i < keep.len() ==> #[trigger] keep[i],
    ensures
        surviving_positions(keep, None::<Seq<bool>>, k).len() == k,
    decreases k,
{
    if k > 0 {
        lemma_surviving_positions_all_true(keep, k - 1);
    }
}

/// Prefix sums of pointwise-equal length vectors agree.
proof fn lemma_sum_prefix_congruent(a: Seq<usize>, b: Seq<usize>, k: int)
    requires
        a =~= b,
    ensures
        sum_prefix(a, k) == sum_prefix(b, k),
    decreases k,
{
    if k > 0 {
        lemma_sum_prefix_congruent(a, b, k - 1);
    }
}

/// Filter identity: filtering by an all-true predicate with no bitmap keeps
/// the table's contents. The column storages stay untouched by definition of
/// `filter_applied`; beyond that, the partition sizes and row count are
/// unchanged, and every compacted index slot still selects the same
/// positions.
pub proof fn lemma_filter_all_true_identity(
    orig: Table,
    now: Table,
    keeps: Seq<Seq<bool>>,
    bms: Seq<Option<Seq<bool>>>,
)
    requires
        orig.wf(),
        filter_applied(orig, now, keeps, bms),
        forall|p: int, i: int|
            #![trigger keeps[p][i]]
            0 <= p < keeps.len() && 0 <= i < keeps[p].len() ==> keeps[p][i],
        forall|p: int| 0 <= p < bms.len() ==> (#[trigger] bms[p]) is None,
        forall|s: int, p: int|
            0 <= s < orig.indexes@.len() && 0 <= p < orig.partition_sizes@.len() ==> ((
            #[trigger] orig.indexes@[s]@[p]).len_spec() matches Some(l) ==> l
                == orig.partition_sizes@[p]),
    ensures
        now.partition_sizes@ == orig.partition_sizes@,
        now.table_rows == orig.table_rows,
        forall|s: int, p: int|
            0 <= s < orig.indexes@.len() && 0 <= p < orig.partition_sizes@.len() ==> ((
            #[trigger] orig.indexes@[s]@[p]).plain_model() matches Some(ix)
                ==> now.indexes@[s]@[p].plain_model() == Some(ix)),
{
    let np = orig.partition_sizes@.len() as int;
    assert forall|p: int| 0 <= p < np implies #[trigger] now.partition_sizes@[p]
        == orig.partition_sizes@[p] by {
        lemma_surviving_positions_all_true(keeps[p], orig.partition_sizes@[p] as int);
    }
    assert(now.partition_sizes@ =~= orig.partition_sizes@);
    lemma_sum_prefix_congruent(now.partition_sizes@, orig.partition_sizes@, np);
    assert forall|s: int, p: int|
        0 <= s < orig.indexes@.len() && 0 <= p < np implies ((
    #[trigger] orig.indexes@[s]@[p]).plain_model() matches Some(ix)
        ==> now.indexes@[s]@[p].plain_model() == Some(ix)) by {
        if orig.indexes@[s]@[p].plain_model() is Some {
            let ix = orig.indexes@[s]@[p].plain_model().unwrap();
            let n = orig.partition_sizes@[p] as int;
            assert(crate::tableexpression::index_compacted(
                orig.indexes@[s]@[p],
                now.indexes@[s]@[p],
                keeps[p],
                bms[p],
            ));
            assert(ix.len() == n);
            lemma_filter_all_true(ix, keeps[p], n);
            assert(ix.subrange(0, n) =~= ix);
        }
    }
}

/// Hash-key identity under nulls: two rows are equal as hash inputs exactly
/// when both are null, or both are valid and byte-equal; a null row hashes to
/// `u64::MAX`, and equal keys hash equally.
pub proof fn lemma_hash_key_identity(a: (bool, Seq<u8>), b: (bool, Seq<u8>))
    ensures
        rows_key_eq(a, b) <==> ((!a.0 && !b.0) || (a.0 && b.0 && a.1 == b.1)),
        !a.0 ==> bytes_row_hash(a) == u64::MAX,
        rows_key_eq(a, b) ==> bytes_row_hash(a) == bytes_row_hash(b),
{
}

/// Group ids land on first occurrences: the dense id of a row equals the
/// dense id of the first row with the same `(current id, key)` pair.
pub proof fn lemma_group_density<V>(prev: Seq<usize>, rows: Seq<(bool, V)>, i: int)
    requires
        rows.len() <= usize::MAX,
        0 <= i < rows.len(),
    ensures
        ({
            let raw = group_ids(prev, rows);
            let fm = first_match(prev, rows, i, 0);
            &&& raw[i] == fm as usize
            &&& count_firsts(raw, raw[i] as int) == count_firsts(raw, raw[raw[i] as int] as int)
        }),
{
    let raw = group_ids(prev, rows);
    lemma_first_match_props(prev, rows, i, 0);
    crate::columnop::lemma_group_ids_wf(prev, rows);
    assert(raw[raw[i] as int] == raw[i]);
}

/// The number of rows in each bucket of the sum over `[0, nb)` buckets of the
/// indicator of one row's bucket.
spec fn sum_ind(x: u64, nb: int) -> nat
    decreases nb,
{
    if nb <= 0 {
        0
    } else {
        sum_ind(x, nb - 1) + if x == (nb - 1) as u64 {
            1nat
        } else {
            0nat
        }
    }
}

proof fn lemma_sum_ind_high(x: u64, nb: int)
    requires
        nb >= 0,
        nb <= 0x1_0000_0000,
        x >= nb,
    ensures
        sum_ind(x, nb) == 0,
    decreases nb,
{
    if nb > 0 {
        lemma_sum_ind_high(x, nb - 1);
    }
}

proof fn lemma_sum_ind(x: u64, nb: int)
    requires
        x < nb,
        nb <= 0x1_0000_0000,
    ensures
        sum_ind(x, nb) == 1,
    decreases nb,
{
    if x == (nb - 1) as u64 {
        lemma_sum_ind_high(x, nb - 1);
    } else {
        lemma_sum_ind(x, nb - 1);
    }
}

/// The per-bucket row counts of one partition, summed over `[0, nb)` buckets.
spec fn sum_row_buckets(h: Seq<u64>, mask: u64, nb: int, k: int) -> nat
    decreases nb,
{
    if nb <= 0 {
        0
    } else {
        sum_row_buckets(h, mask, nb - 1, k) + count_rows(h, mask, (nb - 1) as u64, k)
    }
}

proof fn lemma_sum_row_buckets_step(h: Seq<u64>, mask: u64, nb: int, k: int)
    requires
        k >= 1,
        nb >= 0,
    ensures
        sum_row_buckets(h, mask, nb, k) == sum_row_buckets(h, mask, nb, k - 1) + sum_ind(
            h[k - 1] & mask,
            nb,
        ),
    decreases nb,
{
    if nb > 0 {
        lemma_sum_row_buckets_step(h, mask, nb - 1, k);
    }
}

proof fn lemma_sum_row_buckets_zero(h: Seq<u64>, mask: u64, nb: int)
    requires
        nb >= 0,
    ensures
        sum_row_buckets(h, mask, nb, 0) == 0,
    decreases nb,
{
    if nb > 0 {
        lemma_sum_row_buckets_zero(h, mask, nb - 1);
    }
}

/// Each row of a partition falls into exactly one bucket.
proof fn lemma_partition_buckets(h: Seq<u64>, mask: u64, nb: int, k: int)
    requires
        k >= 0,
        nb >= 1,
        mask == (nb - 1) as u64,
        nb <= 0x1_0000_0000,
    ensures
        sum_row_buckets(h, mask, nb, k) == k,
    decreases k,
{
    if k == 0 {
        lemma_sum_row_buckets_zero(h, mask, nb);
    } else {
        lemma_partition_buckets(h, mask, nb, k - 1);
        lemma_sum_row_buckets_step(h, mask, nb, k);
        let hv = h[k - 1];
        assert((hv & mask) <= mask) by (bit_vector);
        lemma_sum_ind(hv & mask, nb);
    }
}

proof fn lemma_sum_buckets_step(hs: Seq<Seq<u64>>, mask: u64, nb: int, p: int)
    requires
        p >= 1,
        nb >= 0,
    ensures
        sum_buckets(hs, mask, p, nb) == sum_buckets(hs, mask, p - 1, nb) + sum_row_buckets(
            hs[p - 1],
            mask,
            nb,
            hs[p - 1].len() as int,
        ),
    decreases nb,
{
    if nb > 0 {
        lemma_sum_buckets_step(hs, mask, nb - 1, p);
    }
}

proof fn lemma_sum_buckets_zero(hs: Seq<Seq<u64>>, mask: u64, nb: int)
    requires
        nb >= 0,
    ensures
        sum_buckets(hs, mask, 0, nb) == 0,
    decreases nb,
{
    if nb > 0 {
        lemma_sum_buckets_zero(hs, mask, nb - 1);
    }
}

/// Repartition totality: summing the per-bucket element counts over all
/// buckets gives the total row count, because every row's bucket is
/// `hash & (2^bits - 1)`, which lies below `2^bits`.
pub proof fn lemma_repartition_totality(hs: Seq<Seq<u64>>, mask: u64, nb: int, p: int)
    requires
        p >= 0,
        nb >= 1,
        mask == (nb - 1) as u64,
        nb <= 0x1_0000_0000,
    ensures
        sum_buckets(hs, mask, p, nb) == total_rows(hs, p),
    decreases p,
{
    if p == 0 {
        lemma_sum_buckets_zero(hs, mask, nb);
    } else {
        lemma_repartition_totality(hs, mask, nb, p - 1);
        lemma_sum_buckets_step(hs, mask, nb, p);
        lemma_partition_buckets(hs[p - 1], mask, nb, hs[p - 1].len() as int);
    }
}

/// Whether every row of group `g` among the first `k` is null.
pub open spec fn group_all_null<V>(
    src: Seq<(bool, V)>,
    gids: Seq<usize>,
    g: int,
    k: int,
) -> bool {
    forall|i: int| 0 <= i < k && gids[i] == g ==> !(#[trigger] src[i]).0
}

/// `SUM` over an all-null group yields zero: null rows add nothing and every
/// group starts at zero.
pub proof fn lemma_sum_all_null_group(
    src: Seq<(bool, u32)>,
    gids: Seq<usize>,
    gc: nat,
    g: int,
    k: int,
)
    requires
        k >= 0,
        0 <= g < gc,
        group_all_null(src, gids, g, k),
        forall|i: int| 0 <= i < k ==> #[trigger] gids[i] < gc,
    ensures
        sum_groups_u32(src, gids, Seq::new(gc, |i: int| 0u32), k)[g] == 0,
    decreases k,
{
    if k > 0 {
        lemma_sum_all_null_group(src, gids, gc, g, k - 1);
        crate::c_sum::lemma_sum_groups_u32_len(
            src,
            gids,
            Seq::new(gc, |i: int| 0u32),
            k - 1,
        );
    }
}

/// `MAX` over an all-null group keeps the default value with its output bit
/// false: null rows are absent.
pub proof fn lemma_max_all_null_group(
    src: Seq<(bool, u64)>,
    gids: Seq<usize>,
    gc: nat,
    g: int,
    k: int,
)
    requires
        k >= 0,
        0 <= g < gc,
        group_all_null(src, gids, g, k),
        forall|i: int| 0 <= i < k ==> #[trigger] gids[i] < gc,
    ensures
        max_groups_u64(src, gids, Seq::new(gc, |i: int| 0u64), Seq::new(gc, |i: int| false), k).0[g]
            == 0,
        !max_groups_u64(src, gids, Seq::new(gc, |i: int| 0u64), Seq::new(gc, |i: int| false), k).1[g],
    decreases k,
{
    if k > 0 {
        lemma_max_all_null_group(src, gids, gc, g, k - 1);
        lemma_max_groups_u64_len(
            src,
            gids,
            Seq::new(gc, |i: int| 0u64),
            Seq::new(gc, |i: int| false),
            k - 1,
        );
    }
}

/// The maxima fold keeps both accumulator lengths.
proof fn lemma_max_groups_u64_len(
    src: Seq<(bool, u64)>,
    gids: Seq<usize>,
    acc: Seq<u64>,
    bits: Seq<bool>,
    k: int,
)
    requires
        forall|i: int| 0 <= i < k ==> #[trigger] gids[i] < acc.len(),
        bits.len() == acc.len(),
    ensures
        max_groups_u64(src, gids, acc, bits, k).0.len() == acc.len(),
        max_groups_u64(src, gids, acc, bits, k).1.len() == bits.len(),
    decreases k,
{
    if k > 0 {
        lemma_max_groups_u64_len(src, gids, acc, bits, k - 1);
    }
}

/// The number of valid rows of group `g` among the first `k`.
pub open spec fn valid_in_group<V>(src: Seq<(bool, V)>, gids: Seq<usize>, g: int, k: int) -> nat
    decreases k,
{
    if k <= 0 {
        0
    } else {
        valid_in_group(src, gids, g, k - 1) + if gids[k - 1] == g && src[k - 1].0 {
            1nat
        } else {
            0nat
        }
    }
}

/// `COUNT` counts the non-null rows per group.
pub proof fn lemma_count_non_null(
    src: Seq<(bool, u32)>,
    gids: Seq<usize>,
    gc: nat,
    g: int,
    k: int,
)
    requires
        k >= 0,
        0 <= g < gc,
        valid_in_group(src, gids, g, k) < 0x1_0000_0000,
        forall|i: int| 0 <= i < k ==> #[trigger] gids[i] < gc,
    ensures
        crate::c_count::count_groups_u32(src, gids, Seq::new(gc, |i: int| 0u32), k)[g]
            == valid_in_group(src, gids, g, k),
    decreases k,
{
    if k > 0 {
        lemma_count_non_null(src, gids, gc, g, k - 1);
        crate::c_count::lemma_count_groups_u32_len(
            src,
            gids,
            Seq::new(gc, |i: int| 0u32),
            k - 1,
        );
    }
}

} // verus!
