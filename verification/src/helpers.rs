//! Row-index filtering and slice partitioning.
//!
//! A filter's survivors are the rows whose predicate output is true and, when
//! a bitmap is present, valid.

use vstd::prelude::*;

use crate::column::ColumnWrapper;
use crate::columndata::ColumnDataF;
use crate::errors::ErrorDesc;
use crate::index::ColumnDataIndex;
use crate::indexedreadcolumn::bit_at;

verus! {

/// Whether row `i` survives the filter.
pub open spec fn keep_at(keep: Seq<bool>, bitmap: Option<Seq<bool>>, i: int) -> bool {
    keep[i] && bit_at(bitmap, i)
}

/// The surviving entries of `index` among the first `k` rows, in order.
pub open spec fn survivors<T>(
    index: Seq<T>,
    keep: Seq<bool>,
    bitmap: Option<Seq<bool>>,
    k: int,
) -> Seq<T>
    decreases k,
{
    if k <= 0 {
        Seq::empty()
    } else {
        let p = survivors(index, keep, bitmap, k - 1);
        if keep_at(keep, bitmap, k - 1) {
            p.push(index[k - 1])
        } else {
            p
        }
    }
}

/// With an all-true predicate and no bitmap, filtering keeps everything:
/// the survivors are the original rows.
pub proof fn lemma_filter_all_true<T>(index: Seq<T>, keep: Seq<bool>, k: int)
    requires
        0 <= k <= index.len(),
        k <= keep.len(),
        forall|i: int| 0 <= i < keep.len() ==> keep[i],
    ensures
        survivors(index, keep, None::<Seq<bool>>, k) =~= index.subrange(0, k),
    decreases k,
{
    if k > 0 {
        lemma_filter_all_true(index, keep, k - 1);
    }
}

/// Surviving entries and surviving positions are counted alike: one per
/// surviving row.
pub proof fn lemma_survivors_count<T>(
    index: Seq<T>,
    keep: Seq<bool>,
    bitmap: Option<Seq<bool>>,
    k: int,
)
    ensures
        survivors(index, keep, bitmap, k).len() == surviving_positions(keep, bitmap, k).len(),
    decreases k,
{
    if k > 0 {
        lemma_survivors_count(index, keep, bitmap, k - 1);
    }
}

/// Whether `x` occurs among the first `k` entries.
pub open spec fn appears_in<T>(x: T, index: Seq<T>, k: int) -> bool {
    exists|i: int| 0 <= i < k && x == index[i]
}

/// Every surviving entry is one of the first `k` original entries.
pub proof fn lemma_survivors_member<T>(
    index: Seq<T>,
    keep: Seq<bool>,
    bitmap: Option<Seq<bool>>,
    k: int,
)
    ensures
        forall|j: int|
            0 <= j < survivors(index, keep, bitmap, k).len() ==> appears_in(
                #[trigger] survivors(index, keep, bitmap, k)[j],
                index,
                k,
            ),
    decreases k,
{
    if k > 0 {
        lemma_survivors_member(index, keep, bitmap, k - 1);
        let prev = survivors(index, keep, bitmap, k - 1);
        let cur = survivors(index, keep, bitmap, k);
        assert forall|j: int| 0 <= j < cur.len() implies appears_in(
            #[trigger] cur[j],
            index,
            k,
        ) by {
            if j < prev.len() {
                assert(appears_in(prev[j], index, k - 1));
                let i = choose|i: int| 0 <= i < k - 1 && prev[j] == index[i];
                assert(cur[j] == prev[j]);
                assert(0 <= i < k && cur[j] == index[i]);
            } else {
                assert(keep_at(keep, bitmap, k - 1));
                assert(cur[j] == index[k - 1]);
                assert(0 <= k - 1 < k && cur[j] == index[k - 1]);
            }
        }
    }
}

/// Every surviving position lies below the rows scanned.
pub proof fn lemma_surviving_positions_bound(keep: Seq<bool>, bitmap: Option<Seq<bool>>, k: int)
    ensures
        forall|j: int|
            0 <= j < surviving_positions(keep, bitmap, k).len()
                ==> #[trigger] surviving_positions(keep, bitmap, k)[j] < k,
    decreases k,
{
    if k > 0 {
        lemma_surviving_positions_bound(keep, bitmap, k - 1);
        let prev = surviving_positions(keep, bitmap, k - 1);
        let cur = surviving_positions(keep, bitmap, k);
        assert forall|j: int| 0 <= j < cur.len() implies #[trigger] cur[j] < k by {
            if j < prev.len() {
                assert(prev[j] < k - 1);
            }
        }
    }
}

/// Survivor counts never exceed the rows scanned.
pub proof fn lemma_survivors_len<T>(index: Seq<T>, keep: Seq<bool>, bitmap: Option<Seq<bool>>, k: int)
    requires
        k >= 0,
    ensures
        survivors(index, keep, bitmap, k).len() <= k,
    decreases k,
{
    if k > 0 {
        lemma_survivors_len(index, keep, bitmap, k - 1);
    }
}

/// Compacts an owned index in place: only surviving entries remain, in order.
pub fn filter_owned<T: Copy>(index: &mut Vec<T>, keep: &[bool], bitmap: &ColumnDataF<bool>)
    requires
        old(index)@.len() == keep@.len(),
        bitmap.model() matches Some(b) ==> b.len() == keep@.len(),
    ensures
        final(index)@ == survivors(old(index)@, keep@, bitmap.model(), keep@.len() as int),
{
    let n = index.len();
    let mut out: Vec<T> = Vec::new();
    let bm: Option<&Vec<bool>> = match bitmap.downcast_ref() {
        Ok(b) => Some(b),
        Err(_) => None,
    };
    let mut i: usize = 0;
    while i < n
        invariant
            i <= n,
            n == index@.len(),
            n == keep@.len(),
            match bm {
                Some(b) => bitmap.model() == Some(b@) && b@.len() == n,
                None => bitmap.model() is None,
            },
            out@ == survivors(index@, keep@, bitmap.model(), i as int),
        decreases n - i,
    {
        let valid: bool = match bm {
            Some(b) => b[i],
            None => true,
        };
        if keep[i] && valid {
            let v = index[i];
            out.push(v);
        }
        i = i + 1;
    }
    let mut tmp = out;
    core::mem::swap(index, &mut tmp);
}

/// Copies the surviving entries of a borrowed index into a new vector.
pub fn filter_ref<T: Copy>(
    index: &[T],
    keep: &[bool],
    bitmap: &ColumnDataF<bool>,
    size_hint: usize,
) -> (r: Vec<T>)
    requires
        index@.len() == keep@.len(),
        bitmap.model() matches Some(b) ==> b.len() == keep@.len(),
    ensures
        r@ == survivors(index@, keep@, bitmap.model(), keep@.len() as int),
{
    let n = index.len();
    let mut out: Vec<T> = Vec::with_capacity(size_hint);
    let bm: Option<&Vec<bool>> = match bitmap.downcast_ref() {
        Ok(b) => Some(b),
        Err(_) => None,
    };
    let mut i: usize = 0;
    while i < n
        invariant
            i <= n,
            n == index@.len(),
            n == keep@.len(),
            match bm {
                Some(b) => bitmap.model() == Some(b@) && b@.len() == n,
                None => bitmap.model() is None,
            },
            out@ == survivors(index@, keep@, bitmap.model(), i as int),
        decreases n - i,
    {
        let valid: bool = match bm {
            Some(b) => b[i],
            None => true,
        };
        if keep[i] && valid {
            out.push(index[i]);
        }
        i = i + 1;
    }
    out
}

/// The survivors of the identity index: the positions that survive.
pub open spec fn surviving_positions(keep: Seq<bool>, bitmap: Option<Seq<bool>>, k: int) -> Seq<
    usize,
>
    decreases k,
{
    if k <= 0 {
        Seq::empty()
    } else {
        let p = surviving_positions(keep, bitmap, k - 1);
        if keep_at(keep, bitmap, k - 1) {
            p.push((k - 1) as usize)
        } else {
            p
        }
    }
}

/// Filters a row index in place under a predicate column: owned shapes are
/// compacted, borrowed shapes are materialized into owned compacted ones, and
/// an absent index becomes the owned list of surviving positions.
pub fn filter(
    index: &mut ColumnDataIndex,
    keep: &[bool],
    bitmap: &ColumnDataF<bool>,
    size_hint: &Option<usize>,
) -> (r: Result<usize, ErrorDesc>)
    requires
        old(index).len_spec() matches Some(n) ==> n == keep@.len(),
        bitmap.model() matches Some(b) ==> b.len() == keep@.len(),
    ensures
        r is Ok,
        match r {
            Ok(n) => {
                &&& (old(index).plain_model() matches Some(ix) ==> final(index).plain_model()
                    == Some(survivors(ix, keep@, bitmap.model(), keep@.len() as int)))
                &&& (old(index).option_model() matches Some(ix) ==> final(index).option_model()
                    == Some(survivors(ix, keep@, bitmap.model(), keep@.len() as int)))
                &&& (*old(index) is Missing ==> final(index).plain_model() == Some(
                    surviving_positions(keep@, bitmap.model(), keep@.len() as int),
                ) && *final(index) is Owned)
                &&& final(index).len_spec() == Some(n as nat)
            },
            Err(_) => *final(index) == *old(index),
        },
{
    let hint: usize = match size_hint {
        Some(h) => *h,
        None => keep.len() / 2,
    };
    match index {
        ColumnDataIndex::Owned(ind) => {
            filter_owned(ind, keep, bitmap);
            Ok(ind.len())
        },
        ColumnDataIndex::SliceMut(ind) => {
            filter_owned(ind, keep, bitmap);
            Ok(ind.len())
        },
        ColumnDataIndex::Slice(ind) => {
            let fresh = filter_ref(ind.as_slice(), keep, bitmap, hint);
            let n = fresh.len();
            *index = ColumnDataIndex::Owned(fresh);
            Ok(n)
        },
        ColumnDataIndex::OwnedOption(ind) => {
            filter_owned(ind, keep, bitmap);
            Ok(ind.len())
        },
        ColumnDataIndex::SliceOption(ind) => {
            let fresh = filter_ref(ind.as_slice(), keep, bitmap, hint);
            let n = fresh.len();
            *index = ColumnDataIndex::OwnedOption(fresh);
            Ok(n)
        },
        ColumnDataIndex::Missing => {
            let n = keep.len();
            let mut out: Vec<usize> = Vec::with_capacity(hint);
            let bm: Option<&Vec<bool>> = match bitmap.downcast_ref() {
                Ok(b) => Some(b),
                Err(_) => None,
            };
            let mut i: usize = 0;
            while i < n
                invariant
                    i <= n,
                    n == keep@.len(),
                    match bm {
                        Some(b) => bitmap.model() == Some(b@) && b@.len() == n,
                        None => bitmap.model() is None,
                    },
                    out@ == surviving_positions(keep@, bitmap.model(), i as int),
                decreases n - i,
            {
                let valid: bool = match bm {
                    Some(b) => b[i],
                    None => true,
                };
                if keep[i] && valid {
                    out.push(i);
                }
                i = i + 1;
            }
            let m = out.len();
            *index = ColumnDataIndex::Owned(out);
            Ok(m)
        },
    }
}

/// Splits a slice (with an optional aligned bitmap) into borrowed-view
/// columns of the given partition lengths.
pub fn part_with_sizes<T: crate::sized_data::Element>(
    inp_data: &[T],
    inp_bitmap: &[bool],
    len_vec: &Vec<usize>,
) -> (r: Result<Vec<ColumnWrapper>, ErrorDesc>)
    ensures
        match r {
            Ok(cols) => {
                &&& cols@.len() == len_vec@.len()
                &&& forall|p: int|
                    0 <= p < cols@.len() ==> (#[trigger] cols@[p]).column.sized_model::<T>() is Some
                        && cols@[p].column.sized_model::<T>().unwrap().len() == len_vec@[p]
                        && cols@[p].wf() && cols@[p].column is Slice && (inp_bitmap@.len() > 0
                        ==> cols@[p].bitmap.model() is Some) && (inp_bitmap@.len() == 0
                        ==> cols@[p].bitmap is Missing)
                &&& sized_parts_of::<T>(cols@, len_vec@) =~= inp_data@
            },
            Err(_) => sum_prefix(len_vec@, len_vec@.len() as int) > usize::MAX || inp_data@.len()
                != sum_prefix(len_vec@, len_vec@.len() as int) || (inp_bitmap@.len() > 0
                && inp_bitmap@.len() != sum_prefix(len_vec@, len_vec@.len() as int)),
        },
{
    let total: usize = match sum_of(len_vec) {
        Some(t) => t,
        None => {
            return Err(ErrorDesc::LengthMismatch);
        },
    };
    if inp_data.len() != total {
        return Err(ErrorDesc::LengthMismatch);
    }
    if inp_bitmap.len() != total && inp_bitmap.len() > 0 {
        return Err(ErrorDesc::LengthMismatch);
    }
    let mut cur_pos: usize = 0;
    let mut out: Vec<ColumnWrapper> = Vec::new();
    let mut p: usize = 0;
    while p < len_vec.len()
        invariant
            p <= len_vec@.len(),
            cur_pos == sum_prefix(len_vec@, p as int),
            sum_prefix(len_vec@, len_vec@.len() as int) == total,
            inp_data@.len() == total,
            inp_bitmap@.len() == total || inp_bitmap@.len() == 0,
            out@.len() == p,
            forall|q: int|
                0 <= q < p ==> (#[trigger] out@[q]).column.sized_model::<T>() == Some(
                    inp_data@.subrange(
                        sum_prefix(len_vec@, q) as int,
                        sum_prefix(len_vec@, q) + len_vec@[q],
                    ),
                ) && out@[q].wf() && out@[q].column is Slice && (inp_bitmap@.len() > 0
                    ==> out@[q].bitmap.model() == Some(
                    inp_bitmap@.subrange(
                        sum_prefix(len_vec@, q) as int,
                        sum_prefix(len_vec@, q) + len_vec@[q],
                    ),
                )) && (inp_bitmap@.len() == 0 ==> out@[q].bitmap is Missing),
        decreases len_vec@.len() - p,
    {
        proof {
            lemma_sum_prefix_monotonic(len_vec@, p + 1, len_vec@.len() as int);
        }
        let l = len_vec[p];
        let mut c = ColumnWrapper::new_from_slice::<T>(&inp_data[cur_pos..cur_pos + l]);
        if inp_bitmap.len() > 0 {
            c.bitmap_set(ColumnDataF::new_from_slice(&inp_bitmap[cur_pos..cur_pos + l]));
        }
        proof {
            T::data_model_tag(&c.column.sized_of().unwrap());
        }
        out.push(c);
        cur_pos = cur_pos + l;
        p = p + 1;
    }
    proof {
        assert forall|q: int| 0 <= q < out@.len() implies (#[trigger] out@[q]).column.sized_model::<
            T,
        >().unwrap().len() == len_vec@[q] by {
            lemma_sum_prefix_monotonic(len_vec@, q + 1, len_vec@.len() as int);
        }
        lemma_sized_parts_roundtrip::<T>(out@, len_vec@, inp_data@, len_vec@.len() as int);
    }
    Ok(out)
}

/// The sum of the first `k` partition lengths.
pub open spec fn sum_prefix(lens: Seq<usize>, k: int) -> nat
    decreases k,
{
    if k <= 0 {
        0
    } else {
        (sum_prefix(lens, k - 1) + lens[k - 1]) as nat
    }
}

/// Prefix sums grow with their length.
pub proof fn lemma_sum_prefix_monotonic(lens: Seq<usize>, i: int, j: int)
    requires
        i <= j,
    ensures
        sum_prefix(lens, i) <= sum_prefix(lens, j),
    decreases j - i,
{
    if i < j {
        lemma_sum_prefix_monotonic(lens, i, j - 1);
    }
}

/// The concatenation of the first `k` partitions' contents.
pub open spec fn sized_parts_of<T: crate::sized_data::Element>(
    cols: Seq<ColumnWrapper>,
    lens: Seq<usize>,
) -> Seq<T> {
    sized_parts_upto::<T>(cols, lens, cols.len() as int)
}

/// The concatenation of the first `k` partitions' contents.
pub open spec fn sized_parts_upto<T: crate::sized_data::Element>(
    cols: Seq<ColumnWrapper>,
    lens: Seq<usize>,
    k: int,
) -> Seq<T>
    decreases k,
{
    if k <= 0 {
        Seq::empty()
    } else {
        sized_parts_upto::<T>(cols, lens, k - 1) + cols[k - 1].column.sized_model::<
            T,
        >().unwrap()
    }
}

/// Partitions cut from one slice concatenate back to it.
pub proof fn lemma_sized_parts_roundtrip<T: crate::sized_data::Element>(
    cols: Seq<ColumnWrapper>,
    lens: Seq<usize>,
    data: Seq<T>,
    k: int,
)
    requires
        0 <= k <= lens.len(),
        cols.len() == lens.len(),
        sum_prefix(lens, lens.len() as int) == data.len(),
        forall|q: int|
            0 <= q < k ==> (#[trigger] cols[q]).column.sized_model::<T>() == Some(
                data.subrange(sum_prefix(lens, q) as int, sum_prefix(lens, q) + lens[q]),
            ),
    ensures
        sized_parts_upto::<T>(cols, lens, k) =~= data.subrange(0, sum_prefix(lens, k) as int),
    decreases k,
{
    if k > 0 {
        lemma_sized_parts_roundtrip::<T>(cols, lens, data, k - 1);
        lemma_sum_prefix_monotonic(lens, k, lens.len() as int);
    }
}

/// The checked sum of partition lengths.
pub fn sum_of(lens: &Vec<usize>) -> (r: Option<usize>)
    ensures
        match r {
            Some(t) => t == sum_prefix(lens@, lens@.len() as int),
            None => sum_prefix(lens@, lens@.len() as int) > usize::MAX,
        },
{
    let mut total: usize = 0;
    let mut i: usize = 0;
    while i < lens.len()
        invariant
            i <= lens@.len(),
            total == sum_prefix(lens@, i as int),
        decreases lens@.len() - i,
    {
        proof {
            lemma_sum_prefix_monotonic(lens@, i as int, i + 1);
        }
        if total > usize::MAX - lens[i] {
            proof {
                lemma_sum_prefix_monotonic(lens@, i + 1, lens@.len() as int);
            }
            return None;
        }
        total = total + lens[i];
        i = i + 1;
    }
    Some(total)
}

} // verus!
