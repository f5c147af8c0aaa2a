//! Typed storage for sized (fixed-width) elements, and the trait that lets
//! generic code move values in and out of it.
//!
//! `SizedData` plays the role of a type-erased vector: it is a tagged union of
//! the supported element vectors, and `Element::take_vec` / `borrow_vec` are
//! the checked downcasts.

use vstd::prelude::*;

use crate::errors::ErrorDesc;
use crate::display::{dec_digits, u64_to_dec};
use crate::hashing::{
    ahash_bool, ahash_of_bool, ahash_of_u16, ahash_of_u32, ahash_of_u64, ahash_of_u8,
    ahash_of_usize, ahash_u16, ahash_u32, ahash_u64, ahash_u8, ahash_usize, HASH_SEED_0,
    HASH_SEED_1, HASH_SEED_2, HASH_SEED_3,
};
use crate::tag::ItemTypeId;

verus! {

/// Type-erased dense storage of sized elements.
#[derive(Debug)]
pub enum SizedData {
    U8(Vec<u8>),
    U16(Vec<u16>),
    U32(Vec<u32>),
    U64(Vec<u64>),
    USize(Vec<usize>),
    Bool(Vec<bool>),
}

/// The runtime tag of a sized storage.
pub open spec fn sized_tag(d: &SizedData) -> ItemTypeId {
    match d {
        SizedData::U8(_) => ItemTypeId::U8,
        SizedData::U16(_) => ItemTypeId::U16,
        SizedData::U32(_) => ItemTypeId::U32,
        SizedData::U64(_) => ItemTypeId::U64,
        SizedData::USize(_) => ItemTypeId::USize,
        SizedData::Bool(_) => ItemTypeId::Bool,
    }
}

/// The number of elements, independent of the element type.
pub open spec fn sized_len(d: &SizedData) -> nat {
    match d {
        SizedData::U8(v) => v@.len(),
        SizedData::U16(v) => v@.len(),
        SizedData::U32(v) => v@.len(),
        SizedData::U64(v) => v@.len(),
        SizedData::USize(v) => v@.len(),
        SizedData::Bool(v) => v@.len(),
    }
}

impl SizedData {
    /// The runtime tag of this storage.
    pub fn tag(&self) -> (t: ItemTypeId)
        ensures
            t == sized_tag(self),
    {
        match self {
            SizedData::U8(_) => ItemTypeId::U8,
            SizedData::U16(_) => ItemTypeId::U16,
            SizedData::U32(_) => ItemTypeId::U32,
            SizedData::U64(_) => ItemTypeId::U64,
            SizedData::USize(_) => ItemTypeId::USize,
            SizedData::Bool(_) => ItemTypeId::Bool,
        }
    }

    /// The number of elements held.
    pub fn len(&self) -> (n: usize)
        ensures
            n == sized_len(self),
    {
        match self {
            SizedData::U8(v) => v.len(),
            SizedData::U16(v) => v.len(),
            SizedData::U32(v) => v.len(),
            SizedData::U64(v) => v.len(),
            SizedData::USize(v) => v.len(),
            SizedData::Bool(v) => v.len(),
        }
    }

    /// Drops all elements, keeping the storage's element type.
    pub fn truncate(&mut self)
        ensures
            sized_tag(final(self)) == sized_tag(old(self)),
            sized_len(final(self)) == 0,
    {
        match self {
            SizedData::U8(v) => v.truncate(0),
            SizedData::U16(v) => v.truncate(0),
            SizedData::U32(v) => v.truncate(0),
            SizedData::U64(v) => v.truncate(0),
            SizedData::USize(v) => v.truncate(0),
            SizedData::Bool(v) => v.truncate(0),
        }
    }
}

/// A sized element type of the engine. The trait ties the Rust type to its
/// runtime tag and gives generic code checked access into `SizedData`.
pub trait Element: Sized + Copy {
    /// The tag that marks this element type at run time.
    spec fn tag_spec() -> ItemTypeId;

    /// The contents of a sized storage, if it holds this element type.
    spec fn data_model(d: &SizedData) -> Option<Seq<Self>>;

    /// The value used to pre-fill fresh storage.
    spec fn zero_spec() -> Self;

    fn tag() -> (t: ItemTypeId)
        ensures
            t == Self::tag_spec();

    proof fn data_model_tag(d: &SizedData)
        ensures
            (Self::data_model(d) is Some) <==> sized_tag(d) == Self::tag_spec(),
            Self::data_model(d) is Some ==> Self::data_model(d).unwrap().len() == sized_len(d);

    fn take_vec(d: SizedData) -> (r: Result<Vec<Self>, ErrorDesc>)
        ensures
            match r {
                Ok(v) => Self::data_model(&d) == Some(v@),
                Err(e) => Self::data_model(&d) is None && e == ErrorDesc::TypeMismatch,
            };

    fn wrap_vec(v: Vec<Self>) -> (d: SizedData)
        ensures
            Self::data_model(&d) == Some(v@);

    fn borrow_vec(d: &SizedData) -> (r: Result<&Vec<Self>, ErrorDesc>)
        ensures
            match r {
                Ok(v) => Self::data_model(d) == Some(v@),
                Err(e) => Self::data_model(d) is None && e == ErrorDesc::TypeMismatch,
            };

    fn eq_elem(a: &Self, b: &Self) -> (r: bool)
        ensures
            r == (a == b);

    fn zero() -> (r: Self)
        ensures
            r == Self::zero_spec();

    /// The hash of a valid element under the engine's fixed seeds.
    spec fn hash_spec(v: Self) -> u64;

    fn hash_elem(v: &Self) -> (h: u64)
        ensures
            h == Self::hash_spec(*v);

    /// The display form of an element, as bytes.
    spec fn display_spec(v: Self) -> Seq<u8>;

    fn to_display(v: &Self) -> (s: Vec<u8>)
        ensures
            s@ == Self::display_spec(*v);
}

impl Element for u8 {
    open spec fn tag_spec() -> ItemTypeId {
        ItemTypeId::U8
    }

    open spec fn data_model(d: &SizedData) -> Option<Seq<u8>> {
        match d {
            SizedData::U8(v) => Some(v@),
            _ => None,
        }
    }

    open spec fn zero_spec() -> u8 {
        0u8
    }

    fn tag() -> ItemTypeId {
        ItemTypeId::U8
    }

    proof fn data_model_tag(d: &SizedData) {
    }

    fn take_vec(d: SizedData) -> Result<Vec<u8>, ErrorDesc> {
        match d {
            SizedData::U8(v) => Ok(v),
            _ => Err(ErrorDesc::TypeMismatch),
        }
    }

    fn wrap_vec(v: Vec<u8>) -> SizedData {
        SizedData::U8(v)
    }

    fn borrow_vec(d: &SizedData) -> Result<&Vec<u8>, ErrorDesc> {
        match d {
            SizedData::U8(v) => Ok(v),
            _ => Err(ErrorDesc::TypeMismatch),
        }
    }

    fn eq_elem(a: &u8, b: &u8) -> bool {
        *a == *b
    }

    fn zero() -> u8 {
        0u8
    }

    open spec fn hash_spec(v: u8) -> u64 {
        ahash_of_u8(HASH_SEED_0, HASH_SEED_1, HASH_SEED_2, HASH_SEED_3, v)
    }

    fn hash_elem(v: &u8) -> u64 {
        ahash_u8(HASH_SEED_0, HASH_SEED_1, HASH_SEED_2, HASH_SEED_3, *v)
    }

    open spec fn display_spec(v: u8) -> Seq<u8> {
        dec_digits(v as nat)
    }

    fn to_display(v: &u8) -> Vec<u8> {
        u64_to_dec(*v as u64)
    }
}

impl Element for u16 {
    open spec fn tag_spec() -> ItemTypeId {
        ItemTypeId::U16
    }

    open spec fn data_model(d: &SizedData) -> Option<Seq<u16>> {
        match d {
            SizedData::U16(v) => Some(v@),
            _ => None,
        }
    }

    open spec fn zero_spec() -> u16 {
        0u16
    }

    fn tag() -> ItemTypeId {
        ItemTypeId::U16
    }

    proof fn data_model_tag(d: &SizedData) {
    }

    fn take_vec(d: SizedData) -> Result<Vec<u16>, ErrorDesc> {
        match d {
            SizedData::U16(v) => Ok(v),
            _ => Err(ErrorDesc::TypeMismatch),
        }
    }

    fn wrap_vec(v: Vec<u16>) -> SizedData {
        SizedData::U16(v)
    }

    fn borrow_vec(d: &SizedData) -> Result<&Vec<u16>, ErrorDesc> {
        match d {
            SizedData::U16(v) => Ok(v),
            _ => Err(ErrorDesc::TypeMismatch),
        }
    }

    fn eq_elem(a: &u16, b: &u16) -> bool {
        *a == *b
    }

    fn zero() -> u16 {
        0u16
    }

    open spec fn hash_spec(v: u16) -> u64 {
        ahash_of_u16(HASH_SEED_0, HASH_SEED_1, HASH_SEED_2, HASH_SEED_3, v)
    }

    fn hash_elem(v: &u16) -> u64 {
        ahash_u16(HASH_SEED_0, HASH_SEED_1, HASH_SEED_2, HASH_SEED_3, *v)
    }

    open spec fn display_spec(v: u16) -> Seq<u8> {
        dec_digits(v as nat)
    }

    fn to_display(v: &u16) -> Vec<u8> {
        u64_to_dec(*v as u64)
    }
}

impl Element for u32 {
    open spec fn tag_spec() -> ItemTypeId {
        ItemTypeId::U32
    }

    open spec fn data_model(d: &SizedData) -> Option<Seq<u32>> {
        match d {
            SizedData::U32(v) => Some(v@),
            _ => None,
        }
    }

    open spec fn zero_spec() -> u32 {
        0u32
    }

    fn tag() -> ItemTypeId {
        ItemTypeId::U32
    }

    proof fn data_model_tag(d: &SizedData) {
    }

    fn take_vec(d: SizedData) -> Result<Vec<u32>, ErrorDesc> {
        match d {
            SizedData::U32(v) => Ok(v),
            _ => Err(ErrorDesc::TypeMismatch),
        }
    }

    fn wrap_vec(v: Vec<u32>) -> SizedData {
        SizedData::U32(v)
    }

    fn borrow_vec(d: &SizedData) -> Result<&Vec<u32>, ErrorDesc> {
        match d {
            SizedData::U32(v) => Ok(v),
            _ => Err(ErrorDesc::TypeMismatch),
        }
    }

    fn eq_elem(a: &u32, b: &u32) -> bool {
        *a == *b
    }

    fn zero() -> u32 {
        0u32
    }

    open spec fn hash_spec(v: u32) -> u64 {
        ahash_of_u32(HASH_SEED_0, HASH_SEED_1, HASH_SEED_2, HASH_SEED_3, v)
    }

    fn hash_elem(v: &u32) -> u64 {
        ahash_u32(HASH_SEED_0, HASH_SEED_1, HASH_SEED_2, HASH_SEED_3, *v)
    }

    open spec fn display_spec(v: u32) -> Seq<u8> {
        dec_digits(v as nat)
    }

    fn to_display(v: &u32) -> Vec<u8> {
        u64_to_dec(*v as u64)
    }
}

impl Element for u64 {
    open spec fn tag_spec() -> ItemTypeId {
        ItemTypeId::U64
    }

    open spec fn data_model(d: &SizedData) -> Option<Seq<u64>> {
        match d {
            SizedData::U64(v) => Some(v@),
            _ => None,
        }
    }

    open spec fn zero_spec() -> u64 {
        0u64
    }

    fn tag() -> ItemTypeId {
        ItemTypeId::U64
    }

    proof fn data_model_tag(d: &SizedData) {
    }

    fn take_vec(d: SizedData) -> Result<Vec<u64>, ErrorDesc> {
        match d {
            SizedData::U64(v) => Ok(v),
            _ => Err(ErrorDesc::TypeMismatch),
        }
    }

    fn wrap_vec(v: Vec<u64>) -> SizedData {
        SizedData::U64(v)
    }

    fn borrow_vec(d: &SizedData) -> Result<&Vec<u64>, ErrorDesc> {
        match d {
            SizedData::U64(v) => Ok(v),
            _ => Err(ErrorDesc::TypeMismatch),
        }
    }

    fn eq_elem(a: &u64, b: &u64) -> bool {
        *a == *b
    }

    fn zero() -> u64 {
        0u64
    }

    open spec fn hash_spec(v: u64) -> u64 {
        ahash_of_u64(HASH_SEED_0, HASH_SEED_1, HASH_SEED_2, HASH_SEED_3, v)
    }

    fn hash_elem(v: &u64) -> u64 {
        ahash_u64(HASH_SEED_0, HASH_SEED_1, HASH_SEED_2, HASH_SEED_3, *v)
    }

    open spec fn display_spec(v: u64) -> Seq<u8> {
        dec_digits(v as nat)
    }

    fn to_display(v: &u64) -> Vec<u8> {
        u64_to_dec(*v as u64)
    }
}

impl Element for usize {
    open spec fn tag_spec() -> ItemTypeId {
        ItemTypeId::USize
    }

    open spec fn data_model(d: &SizedData) -> Option<Seq<usize>> {
        match d {
            SizedData::USize(v) => Some(v@),
            _ => None,
        }
    }

    open spec fn zero_spec() -> usize {
        0usize
    }

    fn tag() -> ItemTypeId {
        ItemTypeId::USize
    }

    proof fn data_model_tag(d: &SizedData) {
    }

    fn take_vec(d: SizedData) -> Result<Vec<usize>, ErrorDesc> {
        match d {
            SizedData::USize(v) => Ok(v),
            _ => Err(ErrorDesc::TypeMismatch),
        }
    }

    fn wrap_vec(v: Vec<usize>) -> SizedData {
        SizedData::USize(v)
    }

    fn borrow_vec(d: &SizedData) -> Result<&Vec<usize>, ErrorDesc> {
        match d {
            SizedData::USize(v) => Ok(v),
            _ => Err(ErrorDesc::TypeMismatch),
        }
    }

    fn eq_elem(a: &usize, b: &usize) -> bool {
        *a == *b
    }

    fn zero() -> usize {
        0usize
    }

    open spec fn hash_spec(v: usize) -> u64 {
        ahash_of_usize(HASH_SEED_0, HASH_SEED_1, HASH_SEED_2, HASH_SEED_3, v)
    }

    fn hash_elem(v: &usize) -> u64 {
        ahash_usize(HASH_SEED_0, HASH_SEED_1, HASH_SEED_2, HASH_SEED_3, *v)
    }

    open spec fn display_spec(v: usize) -> Seq<u8> {
        dec_digits(v as nat)
    }

    fn to_display(v: &usize) -> Vec<u8> {
        u64_to_dec(*v as u64)
    }
}

impl Element for bool {
    open spec fn tag_spec() -> ItemTypeId {
        ItemTypeId::Bool
    }

    open spec fn data_model(d: &SizedData) -> Option<Seq<bool>> {
        match d {
            SizedData::Bool(v) => Some(v@),
            _ => None,
        }
    }

    open spec fn zero_spec() -> bool {
        false
    }

    fn tag() -> ItemTypeId {
        ItemTypeId::Bool
    }

    proof fn data_model_tag(d: &SizedData) {
    }

    fn take_vec(d: SizedData) -> Result<Vec<bool>, ErrorDesc> {
        match d {
            SizedData::Bool(v) => Ok(v),
            _ => Err(ErrorDesc::TypeMismatch),
        }
    }

    fn wrap_vec(v: Vec<bool>) -> SizedData {
        SizedData::Bool(v)
    }

    fn borrow_vec(d: &SizedData) -> Result<&Vec<bool>, ErrorDesc> {
        match d {
            SizedData::Bool(v) => Ok(v),
            _ => Err(ErrorDesc::TypeMismatch),
        }
    }

    fn eq_elem(a: &bool, b: &bool) -> bool {
        *a == *b
    }

    fn zero() -> bool {
        false
    }

    open spec fn hash_spec(v: bool) -> u64 {
        ahash_of_bool(HASH_SEED_0, HASH_SEED_1, HASH_SEED_2, HASH_SEED_3, v)
    }

    fn hash_elem(v: &bool) -> u64 {
        ahash_bool(HASH_SEED_0, HASH_SEED_1, HASH_SEED_2, HASH_SEED_3, *v)
    }

    open spec fn display_spec(v: bool) -> Seq<u8> {
        if v {
            seq![116u8, 114u8, 117u8, 101u8]
        } else {
            seq![102u8, 97u8, 108u8, 115u8, 101u8]
        }
    }

    fn to_display(v: &bool) -> (s: Vec<u8>) {
        let mut s: Vec<u8> = Vec::new();
        if *v {
            // "true" in ASCII
            s.push(116);
            s.push(114);
            s.push(117);
            s.push(101);
        } else {
            // "false" in ASCII
            s.push(102);
            s.push(97);
            s.push(108);
            s.push(115);
            s.push(101);
        }
        proof {
            assert(s@ =~= bool::display_spec(*v));
        }
        s
    }
}

} // verus!
