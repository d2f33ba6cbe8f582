//! Storage engine for labeled, block-sparse N-dimensional numerical data.
//!
//! Tensor-like quantities (values and their gradients with respect to named
//! parameters) are annotated along every axis by named, integer-keyed metadata
//! (labels) instead of bare indices. Constructing a block validates that
//! the data shape and the label shape agree, and the axis-migration operation
//! (`components_to_properties`) keeps values and gradients consistent while
//! moving a component axis into the property axis.

use vstd::prelude::*;

pub mod blocks;
pub mod data;
pub mod error;
pub mod labels;
pub mod tensor;
pub mod text;

verus! {

} // verus!
