//! Columnar, partition-parallel query-engine core.
//!
//! Data lives in typed, column-oriented partitions; arithmetic, predicate,
//! aggregate, filter, grouping and hash-repartition operations run over them
//! with null-aware semantics.

use vstd::prelude::*;

mod binarycolumn;
mod bytesord;
mod c_add;
mod c_addassign;
mod c_count;
mod c_eq;
mod c_gt;
mod c_gteq;
mod c_lt;
mod c_lteq;
mod c_max;
mod c_sum;
mod column;
mod column_buffer;
mod columnop;
mod hashmap_buffer;
mod signature;
mod columndata;
mod dest;
mod dictionary;
mod display;
mod errors;
mod hashing;
mod ftype;
mod generic_functions_2;
mod generic_functions_3;
mod helpers;
mod index;
mod indexedreadbinarycolumn;
mod laws;
mod indexedreadcolumn;
mod ops;
mod owned;
mod sized_data;
mod table;
mod tableexpression;
mod tabletotable;
mod tag;

pub use binarycolumn::{BinarySlice, BinarySliceMut, OnwedBinaryColumn};
pub use column::{ColumnWrapper, PartitionedColumn};
pub use column_buffer::{new_empty_owned, ColumnBuffer};
pub use columndata::{ColumnData, ColumnDataF};
pub use helpers::{
    filter, filter_owned, filter_ref, keep_at, lemma_filter_all_true, lemma_survivors_len,
    part_with_sizes, sum_of, sum_prefix, surviving_positions, survivors,
};
pub use index::{ColumnDataIndex, PartitionedIndex};
pub use indexedreadcolumn::{
    bit_at, const_bit, resolved, IRCBitmapIndex, IRCBitmapIndexOption, IRCBitmapNoIndex, IRCConst,
    IRCNoBitmapIndex, IRCNoBitmapIndexOption, IRCNoBitmapNoIndex, ReadColumn,
};
pub use indexedreadbinarycolumn::{
    BinParts, IRCBinaryBitmapIndex, IRCBinaryBitmapIndexOption, IRCBinaryBitmapNoIndex,
    IRCBinaryConst, IRCBinaryNoBitmapIndex, IRCBinaryNoBitmapIndexOption, IRCBinaryNoBitmapNoIndex,
    ReadBinaryColumn,
};
pub use dest::{restore_sized_dest, take_sized_dest, DestKind};
pub use ftype::{AssignOp2, AssignOp3, BinaryAssignOp2, BinaryAssignOp3, BinaryUpdateOp2, UpdateOp2};
pub use generic_functions_2::{
    assign_2_sized_binary_unroll, assign_2_sized_sized_unroll, assigned_dest, fold_bin_update2,
    fold_update2, insert_2_sized_binary_unroll, insert_2_sized_sized_unroll, map_assign2,
    map_bin_assign2, update_2_sized_binary_unroll, update_2_sized_sized_unroll, update_dest_len,
    write_pos,
};
pub use generic_functions_3::{
    assign_3_sized_binary_binary_unroll, assign_3_sized_sized_sized_unroll, broadcast3_len,
    input_logical_len, insert_3_sized_binary_binary_unroll, insert_3_sized_sized_sized_unroll,
    map_assign3, map_bin_assign3, set3_inserts, set_3_sized_binary_binary_unroll,
    set_3_sized_sized_sized_unroll,
};
pub use bytesord::{bytes_eq, bytes_lt, lex_lt};
pub use c_add::{add_u32, add_u64, AddU32, AddU64};
pub use c_addassign::{addassign_u32, addassign_u64, AddAssignU32, AddAssignU64};
pub use c_count::{count_groups_u32, count_groups_u64, count_u32, count_u64};
pub use c_eq::{eq_binary, eq_u32, eq_u64, EqBinary, EqU32, EqU64};
pub use c_max::{max_groups_u32, max_groups_u64, max_u32, max_u64};
pub use c_sum::{sum_groups_u32, sum_groups_u64, sum_u32, sum_u64};
pub use c_gt::{gt_binary, gt_u32, gt_u64, GtBinary, GtU32, GtU64};
pub use c_gteq::{gteq_binary, gteq_u32, gteq_u64, GtEqBinary, GtEqU32, GtEqU64};
pub use c_lt::{lt_binary, lt_u32, lt_u64, LtBinary, LtU32, LtU64};
pub use c_lteq::{lteq_binary, lteq_u32, lteq_u64, LtEqBinary, LtEqU32, LtEqU64};
pub use columnop::{
    as_string_post, bytes_row_hash, display_rows, first_match, group_ids, group_in_post,
    group_in_post_rows, hash_in_post, hash_in_post_binary, hash_in_post_sized,
    lemma_first_match_bounds, lemma_first_match_skip, row_hash, rows_key_eq,
    wrapper_rows_binary, wrapper_rows_sized, CopyOp,
};
pub use hashmap_buffer::{lemma_nv_eq_equivalence, nv_eq, HashMapBuffer, NullableValue};
pub use dictionary::{is_assign_spec, op_post, Dictionary};
pub use signature::{OpName, Signature};
pub use laws::{
    group_all_null, lemma_count_non_null, lemma_group_density, lemma_hash_key_identity,
    lemma_max_all_null_group, lemma_repartition_totality, lemma_sum_all_null_group,
    valid_in_group,
};
pub use ops::{binary_input_ok, binary_input_rows, sized_input_ok, sized_input_rows, InputTypes, OpDictionary, Operation};
pub use display::{dec_digits, u64_to_dec};
pub use errors::ErrorDesc;
pub use hashing::{
    ahash_of_bool, ahash_of_bytes, ahash_of_u16, ahash_of_u32, ahash_of_u64, ahash_of_u8,
    ahash_of_usize, HASH_SEED_0, HASH_SEED_1, HASH_SEED_2, HASH_SEED_3,
};
pub use owned::{OwnedColumn, SliceRef, SliceRefMut};
pub use sized_data::{Element, SizedData};
pub use table::{
    binary_rows_concat, count_firsts, densify, index_in_bounds_exec, lemma_count_firsts_mono,
    lemma_count_firsts_surjective, null_display, null_display_spec, rows_bits, rows_vals,
    sized_rows_concat, zeros, Table,
};
pub use tableexpression::{ExpressionInput, TableExpression};
pub use tabletotable::{
    clone_index_vec, count_parts, count_rows, lemma_count_le_rows, lemma_count_rows_le, lemma_count_rows_mono,
    lemma_total_rows_bound, sum_buckets, total_rows, TableToTableMap,
};
pub use tag::ItemTypeId;

verus! {

/// The bitmap convention used throughout: `true` marks a valid row.
pub open spec fn all_valid(len: nat) -> Seq<bool> {
    Seq::new(len, |i: int| true)
}

} // verus!
