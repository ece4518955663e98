//! Attribute records, and their assembly from a feature's properties.

use crate::error::{ConvertError, ErrorModel};
use crate::property::{lookup, PropertiesModel, PropertyMap, PropertyValue, ValueModel};
use crate::schema::{
    all_supported, check_supported, first_unsupported, lemma_inferred_columns,
    unsupported_property, ColumnDescriptor, ColumnKind, ColumnModel, Schema, SchemaModel,
};
use crate::views::result_view;
use vstd::prelude::*;

verus! {

/// One value of an attribute record.
#[derive(Debug, PartialEq, Eq)]
pub enum FieldValue {
    /// The value of a numeric column, as the bit pattern of its IEEE 754
    /// binary64 value; `None` where the source number had no such value.
    Numeric(Option<u64>),
    /// The value of a text column, whole, whatever the column's width.
    Character(String),
}

/// The mathematical content of a [`FieldValue`].
pub enum FieldModel {
    Numeric(Option<u64>),
    Character(Seq<char>),
}

impl View for FieldValue {
    type V = FieldModel;

    open spec fn view(&self) -> FieldModel {
        match self {
            FieldValue::Numeric(bits) => FieldModel::Numeric(*bits),
            FieldValue::Character(text) => FieldModel::Character(text@),
        }
    }
}

impl Clone for FieldValue {
    fn clone(&self) -> (copy: Self)
        ensures
            copy@ == self@,
    {
        match self {
            FieldValue::Numeric(bits) => FieldValue::Numeric(*bits),
            FieldValue::Character(text) => FieldValue::Character(text.clone()),
        }
    }
}

/// One record of the attribute table: a value for each column of the schema,
/// in the schema's order.
#[derive(Debug, PartialEq, Eq)]
pub struct Record {
    values: Vec<FieldValue>,
}

/// The mathematical content of a [`Record`].
pub type RecordModel = Seq<FieldModel>;

/// The content of stored values.
spec fn values_model(values: Seq<FieldValue>) -> RecordModel {
    Seq::new(values.len(), |i: int| values[i]@)
}

impl View for Record {
    type V = RecordModel;

    closed spec fn view(&self) -> RecordModel {
        values_model(self.values@)
    }
}

impl Record {
    /// The number of values.
    pub fn len(&self) -> (count: usize)
        ensures
            count == self@.len(),
    {
        self.values.len()
    }

    /// The value at `index`: that of the schema's column at `index`.
    pub fn value(&self, index: usize) -> (value: &FieldValue)
        requires
            index < self@.len(),
        ensures
            value@ == self@[index as int],
    {
        &self.values[index]
    }
}

impl Clone for Record {
    fn clone(&self) -> (copy: Self)
        ensures
            copy@ == self@,
    {
        let mut values: Vec<FieldValue> = Vec::new();
        let mut i: usize = 0;
        while i < self.values.len()
            invariant
                i <= self.values@.len(),
                values@.len() == i,
                forall|j: int| 0 <= j < i ==> (#[trigger] values@[j])@ == self.values@[j]@,
            decreases self.values@.len() - i,
        {
            values.push(self.values[i].clone());
            i += 1;
        }
        assert(values_model(values@) =~= self@);
        Record { values }
    }
}

/// The value that a feature has in a column. The column's name must be bound,
/// and bound to a value of the column's kind: a number in a numeric column, a
/// string in a text column. The value is then taken as it is.
pub open spec fn assembled_field(
    feature_index: nat,
    column: ColumnModel,
    properties: PropertiesModel,
) -> Result<FieldModel, ErrorModel> {
    match lookup(properties, column.name) {
        None => Err(ErrorModel::MissingAttribute { feature_index, column: column.name }),
        Some(value) => match (column.kind, value) {
            (ColumnKind::Numeric, ValueModel::Number(bits)) => Ok(FieldModel::Numeric(bits)),
            (ColumnKind::Text, ValueModel::Text(text)) => Ok(FieldModel::Character(text)),
            _ => Err(
                ErrorModel::AttributeTypeMismatch {
                    feature_index,
                    column: column.name,
                    expected: column.kind,
                    actual: value.kind(),
                },
            ),
        },
    }
}

/// The values of a feature in the columns, in the schema's order. The first
/// column in which the feature has no value, if there is one, decides the
/// error.
pub open spec fn assembled_values(
    schema: SchemaModel,
    feature_index: nat,
    properties: PropertiesModel,
) -> Result<RecordModel, ErrorModel>
    decreases schema.len(),
{
    if schema.len() == 0 {
        Ok(Seq::empty())
    } else {
        match assembled_values(schema.drop_last(), feature_index, properties) {
            Err(error) => Err(error),
            Ok(values) => match assembled_field(feature_index, schema.last(), properties) {
                Err(error) => Err(error),
                Ok(value) => Ok(values.push(value)),
            },
        }
    }
}

/// The feature has a value in every column.
pub open spec fn conforms(schema: SchemaModel, feature_index: nat, properties: PropertiesModel)
    -> bool {
    forall|i: int|
        0 <= i < schema.len() ==> assembled_field(
            feature_index,
            #[trigger] schema[i],
            properties,
        ) is Ok
}

/// The feature has no value in the column at `index`, and has one in every
/// column before it.
pub open spec fn first_failing_column(
    schema: SchemaModel,
    feature_index: nat,
    properties: PropertiesModel,
    index: int,
) -> bool {
    &&& 0 <= index < schema.len()
    &&& assembled_field(feature_index, schema[index], properties) is Err
    &&& conforms(schema.take(index), feature_index, properties)
}

/// What [`assembled_values`] comes to, said outright. Where the feature has a
/// value in every column, the record has as many values as the schema has
/// columns, and the value at each place is the feature's value in the column
/// at that place. Otherwise the error is that of the first column in which
/// the feature has no value.
pub proof fn lemma_assembled_values(
    schema: SchemaModel,
    feature_index: nat,
    properties: PropertiesModel,
)
    ensures
        match assembled_values(schema, feature_index, properties) {
            Ok(values) => {
                &&& conforms(schema, feature_index, properties)
                &&& values.len() == schema.len()
                &&& forall|i: int|
                    0 <= i < schema.len() ==> Ok::<FieldModel, ErrorModel>(#[trigger] values[i])
                        == assembled_field(feature_index, schema[i], properties)
            },
            Err(error) => exists|index: int|
                #![trigger schema[index]]
                first_failing_column(schema, feature_index, properties, index) && Err::<
                    FieldModel,
                    ErrorModel,
                >(error) == assembled_field(feature_index, schema[index], properties),
        },
    decreases schema.len(),
{
    if schema.len() > 0 {
        let front = schema.drop_last();
        let last = schema.len() - 1;
        lemma_assembled_values(front, feature_index, properties);
        match assembled_values(front, feature_index, properties) {
            Err(error) => {
                let index = choose|index: int|
                    #![trigger front[index]]
                    first_failing_column(front, feature_index, properties, index) && Err::<
                        FieldModel,
                        ErrorModel,
                    >(error) == assembled_field(feature_index, front[index], properties);
                assert(front.take(index) =~= schema.take(index));
                assert(schema[index] == front[index]);
                assert(first_failing_column(schema, feature_index, properties, index));
            },
            Ok(values) => {
                assert(schema.take(last) =~= front);
                assert(schema[last] == schema.last());
                match assembled_field(feature_index, schema.last(), properties) {
                    Err(error) => {
                        assert(first_failing_column(schema, feature_index, properties, last));
                    },
                    Ok(value) => {
                        assert forall|i: int| 0 <= i < schema.len() implies assembled_field(
                            feature_index,
                            #[trigger] schema[i],
                            properties,
                        ) is Ok by {
                            if i < last {
                                assert(schema[i] == front[i]);
                            }
                        }
                        let grown = values.push(value);
                        assert forall|i: int| 0 <= i < schema.len() implies Ok::<
                            FieldModel,
                            ErrorModel,
                        >(#[trigger] grown[i]) == assembled_field(
                            feature_index,
                            schema[i],
                            properties,
                        ) by {
                            if i < last {
                                assert(grown[i] == values[i]);
                                assert(schema[i] == front[i]);
                            }
                        }
                    },
                }
            },
        }
    }
}

/// The record of a feature: its value in each column, in the schema's order,
/// and none where it holds a value that is neither a number nor a string,
/// under whatever name. The columns are looked at first: the first column
/// in which the feature has no value decides the error, and where there is
/// a value in every column, the first unsupported property does.
pub open spec fn assembled_record(
    schema: SchemaModel,
    feature_index: nat,
    properties: PropertiesModel,
) -> Result<RecordModel, ErrorModel> {
    match assembled_values(schema, feature_index, properties) {
        Err(error) => Err(error),
        Ok(values) => match unsupported_property(properties) {
            Some(error) => Err(error),
            None => Ok(values),
        },
    }
}

/// What [`assembled_record`] comes to, said outright. There is a record
/// where the feature has a value in every column and every one of its
/// properties is a number or a string; the value at each place is then the
/// feature's value in the column at that place. Otherwise the error is that
/// of the first column in which the feature has no value, or, where there is
/// none, it names the first property that is neither a number nor a string.
pub proof fn lemma_assembled_record(
    schema: SchemaModel,
    feature_index: nat,
    properties: PropertiesModel,
)
    ensures
        match assembled_record(schema, feature_index, properties) {
            Ok(values) => {
                &&& conforms(schema, feature_index, properties)
                &&& all_supported(properties)
                &&& values.len() == schema.len()
                &&& forall|i: int|
                    0 <= i < schema.len() ==> Ok::<FieldModel, ErrorModel>(#[trigger] values[i])
                        == assembled_field(feature_index, schema[i], properties)
            },
            Err(error) => {
                ||| exists|index: int|
                    #![trigger schema[index]]
                    first_failing_column(schema, feature_index, properties, index) && Err::<
                        FieldModel,
                        ErrorModel,
                    >(error) == assembled_field(feature_index, schema[index], properties)
                ||| conforms(schema, feature_index, properties) && exists|index: int|
                    #![trigger properties[index]]
                    first_unsupported(properties, index) && error
                        == (ErrorModel::UnsupportedAttributeType {
                        attribute: properties[index].0,
                        kind: properties[index].1.kind(),
                    })
            },
        },
{
    lemma_assembled_values(schema, feature_index, properties);
    lemma_inferred_columns(properties);
}

/// An error among the first `upto` columns is the error of them all.
proof fn lemma_failing_prefix(
    schema: SchemaModel,
    feature_index: nat,
    properties: PropertiesModel,
    upto: int,
)
    requires
        0 <= upto <= schema.len(),
        assembled_values(schema.take(upto), feature_index, properties) is Err,
    ensures
        assembled_values(schema, feature_index, properties) == assembled_values(
            schema.take(upto),
            feature_index,
            properties,
        ),
    decreases schema.len() - upto,
{
    if upto < schema.len() {
        assert(schema.take(upto + 1).drop_last() =~= schema.take(upto));
        lemma_failing_prefix(schema, feature_index, properties, upto + 1);
    } else {
        assert(schema.take(upto) =~= schema);
    }
}

/// The value that the feature at `feature_index` has in one column.
pub fn assemble_field(feature_index: usize, column: &ColumnDescriptor, properties: &PropertyMap) -> (value:
    Result<FieldValue, ConvertError>)
    ensures
        result_view(value) == assembled_field(feature_index as nat, column@, properties@),
{
    match properties.get(column.name()) {
        None => Err(
            ConvertError::MissingAttribute { feature_index, column: column.name().clone() },
        ),
        Some(found) => match (column.kind(), found) {
            (ColumnKind::Numeric, PropertyValue::Number(bits)) => Ok(FieldValue::Numeric(*bits)),
            (ColumnKind::Text, PropertyValue::Text(text)) => Ok(
                FieldValue::Character(text.clone()),
            ),
            (expected, other) => Err(
                ConvertError::AttributeTypeMismatch {
                    feature_index,
                    column: column.name().clone(),
                    expected,
                    actual: other.kind(),
                },
            ),
        },
    }
}

/// Assembles the record of the feature at `feature_index` from its
/// properties: one value per column, in the schema's order.
///
/// A column that the properties do not bind, or bind to a value of another
/// kind, is an error; the first such column decides which. Numbers and
/// strings that the schema does not name are passed over; a value of any
/// other kind is refused under whatever name it stands, with an error that
/// names the first such property, once every column has its value.
pub fn assemble_record(schema: &Schema, feature_index: usize, properties: &PropertyMap) -> (record:
    Result<Record, ConvertError>)
    ensures
        result_view(record) == assembled_record(schema@, feature_index as nat, properties@),
        record is Ok <==> conforms(schema@, feature_index as nat, properties@) && all_supported(
            properties@,
        ),
        record matches Ok(assembled) ==> assembled@.len() == schema@.len(),
{
    let mut values: Vec<FieldValue> = Vec::new();
    let count = schema.len();
    let mut i: usize = 0;
    assert(values_model(values@) =~= RecordModel::empty());
    while i < count
        invariant
            i <= count,
            count == schema@.len(),
            assembled_values(schema@.take(i as int), feature_index as nat, properties@) == Ok::<
                RecordModel,
                ErrorModel,
            >(values_model(values@)),
        decreases count - i,
    {
        let ghost seen = schema@.take(i as int + 1);
        assert(seen.drop_last() =~= schema@.take(i as int));
        assert(seen.last() == schema@[i as int]);
        match assemble_field(feature_index, schema.column(i), properties) {
            Err(error) => {
                proof {
                    lemma_failing_prefix(schema@, feature_index as nat, properties@, i as int + 1);
                    lemma_assembled_values(schema@, feature_index as nat, properties@);
                }
                return Err(error);
            },
            Ok(value) => {
                let ghost before = values_model(values@);
                values.push(value);
                assert(values_model(values@) =~= before.push(value@));
            },
        }
        i += 1;
    }
    proof {
        assert(schema@.take(i as int) =~= schema@);
        lemma_assembled_values(schema@, feature_index as nat, properties@);
    }
    match check_supported(properties) {
        Err(error) => Err(error),
        Ok(_) => Ok(Record { values }),
    }
}

} // verus!
