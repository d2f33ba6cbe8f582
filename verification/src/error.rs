//! The error taxonomy of the library.
//!
//! Every failure is an invalid parameter of some form: a shape mismatch, a
//! duplicate label row or name, a reserved gradient name, an origin mismatch,
//! or a missing target dimension during axis migration. Each variant carries
//! the structured facts (which axis, which counts, which names) so that
//! contracts can state exactly which error a given input produces; `message`
//! renders them as human-readable text.

use vstd::prelude::*;
use vstd::string::StringExecFns;

use crate::text::{decimal_of, fmt_usize, join_names, joined_names};

verus! {

/// The reason a call was rejected. All variants are of the invalid-parameter
/// kind; each carries the data identifying the offending axis, label or name.
#[derive(Debug)]
pub enum Error {
    /// The array rank is not the number of label sets (samples + components
    /// + properties).
    WrongDimensionsCount { context: String, rank: usize, labels_count: usize },
    /// Axis 0 of the array does not have one entry per sample label.
    WrongSamplesCount { context: String, axis_len: usize, count: usize },
    /// Two component label sets use the same column names.
    DuplicateComponentNames { context: String },
    /// A component axis of the array does not match its component labels.
    WrongComponentsCount { context: String, axis: usize, axis_len: usize, count: usize },
    /// The last axis of the array does not have one entry per property label.
    WrongPropertiesCount { context: String, axis: usize, axis_len: usize, count: usize },
    /// A component label set has more than one column.
    NotSingleDimension { size: usize, names: Vec<String>, index: usize },
    /// A column name appears twice in one set of labels.
    DuplicateName { name: String },
    /// A label row does not have one value per column name.
    WrongRowLength { expected: usize, got: usize },
    /// A label row was added twice.
    DuplicateRow,
    /// A gradient with this parameter name is already stored in the block.
    GradientAlreadyDefined { parameter: String },
    /// A gradient parameter name can not be empty.
    EmptyGradientName,
    /// The gradient array comes from a different backend than the values.
    DifferentOrigin { gradient: usize, values: usize },
    /// `"values"` is reserved and can not name a gradient parameter.
    ReservedGradientName,
    /// Gradient samples must have at least one column.
    GradientSamplesWithoutNames,
    /// The first gradient sample column is not named `"sample"`.
    WrongGradientSamplesName { name: String },
    /// A gradient declares fewer components than the values.
    NotEnoughGradientComponents,
    /// A gradient component differs from the matching values component.
    GradientComponentsMismatch { component: usize, names: Vec<String> },
    /// No component labels have exactly the requested column names.
    ComponentNotFound { names: Vec<String> },
    /// A tensor map must hold exactly one block per row of its keys.
    WrongBlocksCount { blocks: usize, keys: usize },
    /// An axis index is past the rank of the array.
    AxisOutOfBounds { axis: usize, rank: usize },
}

/// The text that `Error::message` renders for each variant.
pub open spec fn message_of(e: Error) -> Seq<char> {
    match e {
        Error::WrongDimensionsCount { context, rank, labels_count } => "invalid parameter: "@
            + context@ + ": the array has "@ + decimal_of(rank as int)
            + " dimensions, but we have "@ + decimal_of(labels_count as int)
            + " separate labels"@,
        Error::WrongSamplesCount { context, axis_len, count } => "invalid parameter: "@ + context@
            + ": the array shape along axis 0 is "@ + decimal_of(axis_len as int)
            + " but we have "@ + decimal_of(count as int) + " sample labels"@,
        Error::DuplicateComponentNames { context } => "invalid parameter: "@ + context@
            + ": some of the component names appear more than once in component labels"@,
        Error::WrongComponentsCount { context, axis, axis_len, count } => "invalid parameter: "@
            + context@ + ": the array shape along axis "@ + decimal_of(axis as int) + " is "@
            + decimal_of(axis_len as int) + " but we have "@ + decimal_of(count as int)
            + " entries for the corresponding component"@,
        Error::WrongPropertiesCount { context, axis, axis_len, count } => "invalid parameter: "@
            + context@ + ": the array shape along axis "@ + decimal_of(axis as int) + " is "@
            + decimal_of(axis_len as int) + " but we have "@ + decimal_of(count as int)
            + " properties labels"@,
        Error::NotSingleDimension { size, names, index } => "invalid parameter: "@
            + "component labels must have a single dimension, got "@ + decimal_of(size as int)
            + ": ["@ + joined_names(names.deep_view()) + "] for component "@
            + decimal_of(index as int),
        Error::DuplicateName { name } => "invalid parameter: "@ + "label dimension '"@ + name@
            + "' appears more than once in the names"@,
        Error::WrongRowLength { expected, got } => "invalid parameter: "@
            + "label entry has "@ + decimal_of(got as int) + " values but we have "@
            + decimal_of(expected as int) + " dimension names"@,
        Error::DuplicateRow => "invalid parameter: "@
            + "can not have the same label entry multiple times"@,
        Error::GradientAlreadyDefined { parameter } => "invalid parameter: "@
            + "gradient with respect to '"@ + parameter@ + "' already exists for this block"@,
        Error::EmptyGradientName => "invalid parameter: "@
            + "gradient parameter name can not be empty"@,
        Error::DifferentOrigin { gradient, values } => "invalid parameter: "@
            + "the gradient array has a different origin ('"@ + decimal_of(gradient as int)
            + "') than the value array ('"@ + decimal_of(values as int) + "')"@,
        Error::ReservedGradientName => "invalid parameter: "@
            + "can not store gradient with respect to 'values'"@,
        Error::GradientSamplesWithoutNames => "invalid parameter: "@
            + "gradients samples must have at least one dimension named 'sample', we got none"@,
        Error::WrongGradientSamplesName { name } => "invalid parameter: "@ + "'"@ + name@
            + "' is not valid for the first dimension in the gradients samples labels. It must be 'sample'"@,
        Error::NotEnoughGradientComponents => "invalid parameter: "@
            + "gradients components should contain at least as many labels as the values components"@,
        Error::GradientComponentsMismatch { component, names } => "invalid parameter: "@
            + "gradients and values components mismatch for values component "@
            + decimal_of(component as int) + " (the corresponding names are ["@
            + joined_names(names.deep_view()) + "])"@,
        Error::ComponentNotFound { names } => "invalid parameter: "@ + "unable to find ["@
            + joined_names(names.deep_view()) + "] in the components"@,
        Error::WrongBlocksCount { blocks, keys } => "invalid parameter: "@ + "the number of blocks ("@
            + decimal_of(blocks as int) + ") must match the number of key entries ("@
            + decimal_of(keys as int) + ")"@,
        Error::AxisOutOfBounds { axis, rank } => "invalid parameter: "@ + "axis "@
            + decimal_of(axis as int) + " is out of bounds for an array with "@
            + decimal_of(rank as int) + " dimensions"@,
    }
}

impl Error {
    /// Render the human-readable description of this error.
    pub fn message(&self) -> (r: String)
        ensures
            r@ == message_of(*self),
    {
        let mut r: String = "invalid parameter: ".to_owned();
        match self {
            Error::WrongDimensionsCount { context, rank, labels_count } => {
                r.append(context.as_str());
                r.append(": the array has ");
                r.append(fmt_usize(*rank).as_str());
                r.append(" dimensions, but we have ");
                r.append(fmt_usize(*labels_count).as_str());
                r.append(" separate labels");
            },
            Error::WrongSamplesCount { context, axis_len, count } => {
                r.append(context.as_str());
                r.append(": the array shape along axis 0 is ");
                r.append(fmt_usize(*axis_len).as_str());
                r.append(" but we have ");
                r.append(fmt_usize(*count).as_str());
                r.append(" sample labels");
            },
            Error::DuplicateComponentNames { context } => {
                r.append(context.as_str());
                r.append(": some of the component names appear more than once in component labels");
            },
            Error::WrongComponentsCount { context, axis, axis_len, count } => {
                r.append(context.as_str());
                r.append(": the array shape along axis ");
                r.append(fmt_usize(*axis).as_str());
                r.append(" is ");
                r.append(fmt_usize(*axis_len).as_str());
                r.append(" but we have ");
                r.append(fmt_usize(*count).as_str());
                r.append(" entries for the corresponding component");
            },
            Error::WrongPropertiesCount { context, axis, axis_len, count } => {
                r.append(context.as_str());
                r.append(": the array shape along axis ");
                r.append(fmt_usize(*axis).as_str());
                r.append(" is ");
                r.append(fmt_usize(*axis_len).as_str());
                r.append(" but we have ");
                r.append(fmt_usize(*count).as_str());
                r.append(" properties labels");
            },
            Error::NotSingleDimension { size, names, index } => {
                r.append("component labels must have a single dimension, got ");
                r.append(fmt_usize(*size).as_str());
                r.append(": [");
                r.append(join_names(names).as_str());
                r.append("] for component ");
                r.append(fmt_usize(*index).as_str());
            },
            Error::DuplicateName { name } => {
                r.append("label dimension '");
                r.append(name.as_str());
                r.append("' appears more than once in the names");
            },
            Error::WrongRowLength { expected, got } => {
                r.append("label entry has ");
                r.append(fmt_usize(*got).as_str());
                r.append(" values but we have ");
                r.append(fmt_usize(*expected).as_str());
                r.append(" dimension names");
            },
            Error::DuplicateRow => {
                r.append("can not have the same label entry multiple times");
            },
            Error::GradientAlreadyDefined { parameter } => {
                r.append("gradient with respect to '");
                r.append(parameter.as_str());
                r.append("' already exists for this block");
            },
            Error::EmptyGradientName => {
                r.append("gradient parameter name can not be empty");
            },
            Error::DifferentOrigin { gradient, values } => {
                r.append("the gradient array has a different origin ('");
                r.append(fmt_usize(*gradient).as_str());
                r.append("') than the value array ('");
                r.append(fmt_usize(*values).as_str());
                r.append("')");
            },
            Error::ReservedGradientName => {
                r.append("can not store gradient with respect to 'values'");
            },
            Error::GradientSamplesWithoutNames => {
                r.append(
                    "gradients samples must have at least one dimension named 'sample', we got none",
                );
            },
            Error::WrongGradientSamplesName { name } => {
                r.append("'");
                r.append(name.as_str());
                r.append(
                    "' is not valid for the first dimension in the gradients samples labels. It must be 'sample'",
                );
            },
            Error::NotEnoughGradientComponents => {
                r.append(
                    "gradients components should contain at least as many labels as the values components",
                );
            },
            Error::GradientComponentsMismatch { component, names } => {
                r.append("gradients and values components mismatch for values component ");
                r.append(fmt_usize(*component).as_str());
                r.append(" (the corresponding names are [");
                r.append(join_names(names).as_str());
                r.append("])");
            },
            Error::ComponentNotFound { names } => {
                r.append("unable to find [");
                r.append(join_names(names).as_str());
                r.append("] in the components");
            },
            Error::WrongBlocksCount { blocks, keys } => {
                r.append("the number of blocks (");
                r.append(fmt_usize(*blocks).as_str());
                r.append(") must match the number of key entries (");
                r.append(fmt_usize(*keys).as_str());
                r.append(")");
            },
            Error::AxisOutOfBounds { axis, rank } => {
                r.append("axis ");
                r.append(fmt_usize(*axis).as_str());
                r.append(" is out of bounds for an array with ");
                r.append(fmt_usize(*rank).as_str());
                r.append(" dimensions");
            },
        }
        r
    }
}

} // verus!
