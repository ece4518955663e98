//! The attribute table's column definitions, as the dBase writer takes them.

use crate::error::{ConvertError, ErrorModel, SinkFault, SinkFaultModel};
use crate::schema::{ColumnKind, ColumnModel, Schema, SchemaModel};
use shapefile::dbase::{FieldName, TableWriterBuilder};
use vstd::prelude::*;
use vstd::string::StringSliceAdditionalSpecFns;
use vstd::utf8::encode_utf8;

verus! {

/// The most bytes that the dBase format allows a field name.
pub const FIELD_NAME_BYTES: usize = 11;

/// `shapefile::dbase::FieldName`: the name of a field, carried as it is.
#[verifier::external_type_specification]
#[verifier::external_body]
pub struct ExFieldName(FieldName);

/// `shapefile::dbase::TableWriterBuilder`: the field definitions of a table
/// that is yet to be given its destination, carried as it is.
#[verifier::external_type_specification]
#[verifier::external_body]
pub struct ExTableWriterBuilder(TableWriterBuilder);

/// The text that a field name holds.
pub uninterp spec fn field_name_text(name: FieldName) -> Seq<char>;

/// The field definitions that a builder holds, oldest first: each a name, the
/// letter of its dBase field type, its length in bytes and its number of
/// decimal places.
pub uninterp spec fn builder_fields(builder: TableWriterBuilder) -> Seq<(Seq<char>, char, u8, u8)>;

/// `shapefile::dbase::FieldName::try_from`, for a string slice: the name is
/// accepted exactly when its UTF-8 form has at most eleven bytes, and the
/// accepted name holds the text unchanged.
#[verifier::external_body]
fn field_name(name: &str) -> (made: Result<FieldName, &'static str>)
    ensures
        made is Ok <==> name.spec_bytes().len() <= FIELD_NAME_BYTES,
        made matches Ok(accepted) ==> field_name_text(accepted) == name@,
{
    FieldName::try_from(name)
}

/// `shapefile::dbase::TableWriterBuilder::add_numeric_field`: the definition
/// of a numeric field (type letter `N`) of the given name, length and decimal
/// places is added after those that the builder held.
pub assume_specification[ TableWriterBuilder::add_numeric_field ](
    builder: TableWriterBuilder,
    name: FieldName,
    length: u8,
    num_decimals: u8,
) -> (grown: TableWriterBuilder)
    ensures
        builder_fields(grown) == builder_fields(builder).push(
            (field_name_text(name), 'N', length, num_decimals),
        ),
;

/// `shapefile::dbase::TableWriterBuilder::add_character_field`: the
/// definition of a character field (type letter `C`) of the given name and
/// length, without decimal places, is added after those that the builder
/// held.
pub assume_specification[ TableWriterBuilder::add_character_field ](
    builder: TableWriterBuilder,
    name: FieldName,
    length: u8,
) -> (grown: TableWriterBuilder)
    ensures
        builder_fields(grown) == builder_fields(builder).push(
            (field_name_text(name), 'C', length, 0u8),
        ),
;

/// The letter of the dBase field type that stores a column.
pub open spec fn field_type_letter(kind: ColumnKind) -> char {
    match kind {
        ColumnKind::Numeric => 'N',
        ColumnKind::Text => 'C',
    }
}

/// The field definition that a column stands for.
pub open spec fn field_definition(column: ColumnModel) -> (Seq<char>, char, u8, u8) {
    (column.name, field_type_letter(column.kind), column.kind.width(), column.kind.precision())
}

/// The field definitions that a schema stands for, in the schema's order.
pub open spec fn field_definitions(schema: SchemaModel) -> Seq<(Seq<char>, char, u8, u8)> {
    Seq::new(schema.len(), |i: int| field_definition(schema[i]))
}

/// The name is short enough for a dBase field.
pub open spec fn name_fits(name: Seq<char>) -> bool {
    encode_utf8(name).len() <= FIELD_NAME_BYTES
}

/// Every column's name is short enough for a dBase field.
pub open spec fn names_fit(schema: SchemaModel) -> bool {
    forall|i: int| 0 <= i < schema.len() ==> name_fits((#[trigger] schema[i]).name)
}

/// The name of the column at `index` is too long, and none before it is.
pub open spec fn first_long_name(schema: SchemaModel, index: int) -> bool {
    &&& 0 <= index < schema.len()
    &&& !name_fits(schema[index].name)
    &&& names_fit(schema.take(index))
}

/// Adds the columns of a schema to the builder of the attribute table's
/// writer.
///
/// The builder is the caller's to make: making one reads the clock, which
/// is none of this library's business. After the fields that it holds it
/// gets one field per column, in the schema's order: a numeric field of 22
/// digits, 20 of them decimal places, for a numeric column, and a character
/// field of 255 bytes for a text column. The table takes names of at most
/// eleven bytes; the first column with a longer name is an error.
pub fn build_dbf_writer(builder: TableWriterBuilder, schema: &Schema) -> (made: Result<
    TableWriterBuilder,
    ConvertError,
>)
    ensures
        made is Ok <==> names_fit(schema@),
        made matches Ok(grown) ==> builder_fields(grown) == builder_fields(builder)
            + field_definitions(schema@),
        made matches Err(error) ==> exists|index: int|
            #![trigger schema@[index]]
            first_long_name(schema@, index) && error@ == (ErrorModel::SinkIOError {
                fault: SinkFaultModel::ColumnName { column: schema@[index].name },
            }),
{
    let ghost held = builder_fields(builder);
    let mut builder = builder;
    let count = schema.len();
    let mut i: usize = 0;
    assert(held + field_definitions(schema@.take(0)) =~= held);
    while i < count
        invariant
            i <= count,
            count == schema@.len(),
            names_fit(schema@.take(i as int)),
            builder_fields(builder) == held + field_definitions(schema@.take(i as int)),
        decreases count - i,
    {
        let column = schema.column(i);
        match field_name(column.name().as_str()) {
            Err(_) => {
                assert(first_long_name(schema@, i as int));
                return Err(
                    ConvertError::SinkIOError {
                        fault: SinkFault::ColumnName { column: column.name().clone() },
                    },
                );
            },
            Ok(name) => {
                builder = match column.kind() {
                    ColumnKind::Numeric => builder.add_numeric_field(
                        name,
                        column.width(),
                        column.precision(),
                    ),
                    ColumnKind::Text => builder.add_character_field(name, column.width()),
                };
                assert(held + field_definitions(schema@.take(i as int + 1)) =~= (held
                    + field_definitions(schema@.take(i as int))).push(
                    field_definition(schema@[i as int]),
                ));
                assert forall|j: int| 0 <= j < i + 1 implies name_fits(
                    (#[trigger] schema@.take(i as int + 1)[j]).name,
                ) by {
                    if j < i {
                        assert(schema@.take(i as int)[j] == schema@.take(i as int + 1)[j]);
                    }
                }
            },
        }
        i += 1;
    }
    assert(schema@.take(i as int) =~= schema@);
    Ok(builder)
}

} // verus!
