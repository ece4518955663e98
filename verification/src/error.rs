//! What can end a conversion before its time.

use crate::geometry::GeometryKind;
use crate::property::ValueKind;
use crate::schema::ColumnKind;
use vstd::prelude::*;

verus! {

/// What went wrong at a sink.
#[derive(Debug, PartialEq, Eq)]
pub enum SinkFault {
    /// The geometry sink could not be opened, or did not take a shape.
    Geometry,
    /// The attribute table could not be opened, or did not take a record.
    AttributeTable,
    /// The attribute table takes no column of this name.
    ColumnName { column: String },
}

/// The mathematical content of a [`SinkFault`].
pub enum SinkFaultModel {
    Geometry,
    AttributeTable,
    ColumnName { column: Seq<char> },
}

impl View for SinkFault {
    type V = SinkFaultModel;

    open spec fn view(&self) -> SinkFaultModel {
        match self {
            SinkFault::Geometry => SinkFaultModel::Geometry,
            SinkFault::AttributeTable => SinkFaultModel::AttributeTable,
            SinkFault::ColumnName { column } => SinkFaultModel::ColumnName { column: column@ },
        }
    }
}

impl Clone for SinkFault {
    fn clone(&self) -> (copy: Self)
        ensures
            copy@ == self@,
    {
        match self {
            SinkFault::Geometry => SinkFault::Geometry,
            SinkFault::AttributeTable => SinkFault::AttributeTable,
            SinkFault::ColumnName { column } => SinkFault::ColumnName { column: column.clone() },
        }
    }
}

/// Why a conversion failed. Every failure ends the run.
#[allow(inconsistent_fields)]
#[derive(Debug, PartialEq, Eq)]
pub enum ConvertError {
    /// The document is malformed, or its root is no feature collection.
    ParseError,
    /// The collection holds no feature, so no schema can be drawn from it.
    EmptyCollection,
    /// The feature has no geometry.
    MissingGeometry { feature_index: usize },
    /// The feature has no properties.
    MissingProperties { feature_index: usize },
    /// The feature's properties lack a column of the schema.
    MissingAttribute { feature_index: usize, column: String },
    /// The feature's geometry is of a kind that has no shape.
    UnsupportedGeometryType { feature_index: usize, kind: GeometryKind },
    /// A property of the first feature is of a kind that has no column.
    UnsupportedAttributeType { attribute: String, kind: ValueKind },
    /// The feature binds a column of the schema to a value of another kind.
    AttributeTypeMismatch {
        feature_index: usize,
        column: String,
        expected: ColumnKind,
        actual: ValueKind,
    },
    /// A sink failed.
    SinkIOError { fault: SinkFault },
}

/// The mathematical content of a [`ConvertError`].
#[allow(inconsistent_fields)]
pub enum ErrorModel {
    ParseError,
    EmptyCollection,
    MissingGeometry { feature_index: nat },
    MissingProperties { feature_index: nat },
    MissingAttribute { feature_index: nat, column: Seq<char> },
    UnsupportedGeometryType { feature_index: nat, kind: GeometryKind },
    UnsupportedAttributeType { attribute: Seq<char>, kind: ValueKind },
    AttributeTypeMismatch {
        feature_index: nat,
        column: Seq<char>,
        expected: ColumnKind,
        actual: ValueKind,
    },
    SinkIOError { fault: SinkFaultModel },
}

impl View for ConvertError {
    type V = ErrorModel;

    open spec fn view(&self) -> ErrorModel {
        match self {
            ConvertError::ParseError => ErrorModel::ParseError,
            ConvertError::EmptyCollection => ErrorModel::EmptyCollection,
            ConvertError::MissingGeometry { feature_index } => ErrorModel::MissingGeometry {
                feature_index: *feature_index as nat,
            },
            ConvertError::MissingProperties { feature_index } => ErrorModel::MissingProperties {
                feature_index: *feature_index as nat,
            },
            ConvertError::MissingAttribute { feature_index, column } => {
                ErrorModel::MissingAttribute {
                    feature_index: *feature_index as nat,
                    column: column@,
                }
            },
            ConvertError::UnsupportedGeometryType { feature_index, kind } => {
                ErrorModel::UnsupportedGeometryType {
                    feature_index: *feature_index as nat,
                    kind: *kind,
                }
            },
            ConvertError::UnsupportedAttributeType { attribute, kind } => {
                ErrorModel::UnsupportedAttributeType { attribute: attribute@, kind: *kind }
            },
            ConvertError::AttributeTypeMismatch { feature_index, column, expected, actual } => {
                ErrorModel::AttributeTypeMismatch {
                    feature_index: *feature_index as nat,
                    column: column@,
                    expected: *expected,
                    actual: *actual,
                }
            },
            ConvertError::SinkIOError { fault } => ErrorModel::SinkIOError { fault: fault@ },
        }
    }
}

impl Clone for ConvertError {
    fn clone(&self) -> (copy: Self)
        ensures
            copy@ == self@,
    {
        match self {
            ConvertError::ParseError => ConvertError::ParseError,
            ConvertError::EmptyCollection => ConvertError::EmptyCollection,
            ConvertError::MissingGeometry { feature_index } => ConvertError::MissingGeometry {
                feature_index: *feature_index,
            },
            ConvertError::MissingProperties { feature_index } => ConvertError::MissingProperties {
                feature_index: *feature_index,
            },
            ConvertError::MissingAttribute { feature_index, column } => {
                ConvertError::MissingAttribute {
                    feature_index: *feature_index,
                    column: column.clone(),
                }
            },
            ConvertError::UnsupportedGeometryType { feature_index, kind } => {
                ConvertError::UnsupportedGeometryType { feature_index: *feature_index, kind: *kind }
            },
            ConvertError::UnsupportedAttributeType { attribute, kind } => {
                ConvertError::UnsupportedAttributeType { attribute: attribute.clone(), kind: *kind }
            },
            ConvertError::AttributeTypeMismatch { feature_index, column, expected, actual } => {
                ConvertError::AttributeTypeMismatch {
                    feature_index: *feature_index,
                    column: column.clone(),
                    expected: *expected,
                    actual: *actual,
                }
            },
            ConvertError::SinkIOError { fault } => ConvertError::SinkIOError {
                fault: fault.clone(),
            },
        }
    }
}

} // verus!
