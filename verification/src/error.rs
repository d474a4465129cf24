//! The errors the catalog surfaces.
//!
//! Failures that arise while aggregating over many groups (a missing record,
//! a record of the wrong shape) are absorbed by the aggregation itself and
//! never appear here; these variants are what single-entity operations hand
//! back to their caller.

use vstd::prelude::*;

verus! {

/// Why a catalog operation failed.
///
/// `NotFound` (the hash has no record) and `DeserializationError` (the
/// record exists but is not a product group) are distinct on purpose:
/// callers tolerate the latter in places where the former is a real fault.
#[derive(Clone, Copy, Debug, PartialEq, Eq, Structural)]
pub enum CatalogError {
    /// The hash has no record in the store.
    NotFound,
    /// The record exists but does not have the expected shape.
    DeserializationError,
    /// A group or batch was given zero products.
    EmptyGroup,
    /// A product reference's index lies beyond the group's products.
    IndexOutOfRange,
    /// A categorization names a product type without a subcategory.
    InvalidCategorization,
}

impl CatalogError {
    /// A short description of the error.
    pub fn message(&self) -> (m: &'static str)
        ensures
            m@.len() > 0,
    {
        proof {
            reveal_strlit("record not found");
            reveal_strlit("record has the wrong shape");
            reveal_strlit("group is empty");
            reveal_strlit("product index out of range");
            reveal_strlit("product type given without a subcategory");
        }
        match self {
            CatalogError::NotFound => "record not found",
            CatalogError::DeserializationError => "record has the wrong shape",
            CatalogError::EmptyGroup => "group is empty",
            CatalogError::IndexOutOfRange => "product index out of range",
            CatalogError::InvalidCategorization => "product type given without a subcategory",
        }
    }
}

} // verus!
