//! The attribute table's schema, and how it is drawn from the first feature.

use crate::error::{ConvertError, ErrorModel};
use crate::feature::{FeatureCollection, FeaturesModel};
use crate::property::{
    property_names, PropertiesModel, PropertyMap, PropertyValue, ValueKind, ValueModel,
};
use crate::views::result_view;
use vstd::prelude::*;

verus! {

/// The width of a numeric column, in digits.
pub const NUMERIC_WIDTH: u8 = 22;

/// The number of digits of a numeric column that follow the decimal point.
pub const NUMERIC_PRECISION: u8 = 20;

/// The width of a text column, in bytes.
pub const TEXT_WIDTH: u8 = 255;

/// The storage kind of a column.
#[derive(Clone, Copy, Debug, PartialEq, Eq, Structural)]
pub enum ColumnKind {
    Numeric,
    Text,
}

impl ColumnKind {
    /// The width of a column of this kind.
    pub open spec fn spec_width(self) -> u8 {
        match self {
            ColumnKind::Numeric => NUMERIC_WIDTH,
            ColumnKind::Text => TEXT_WIDTH,
        }
    }

    /// The number of decimal places of a column of this kind.
    pub open spec fn spec_precision(self) -> u8 {
        match self {
            ColumnKind::Numeric => NUMERIC_PRECISION,
            ColumnKind::Text => 0,
        }
    }

    /// The width of a column of this kind: 22 digits for a numeric column,
    /// 255 bytes for a text column.
    #[verifier::when_used_as_spec(spec_width)]
    pub fn width(self) -> (width: u8)
        ensures
            width == self.spec_width(),
    {
        match self {
            ColumnKind::Numeric => NUMERIC_WIDTH,
            ColumnKind::Text => TEXT_WIDTH,
        }
    }

    /// The number of decimal places of a column of this kind: 20 for a
    /// numeric column, none for a text column.
    #[verifier::when_used_as_spec(spec_precision)]
    pub fn precision(self) -> (precision: u8)
        ensures
            precision == self.spec_precision(),
    {
        match self {
            ColumnKind::Numeric => NUMERIC_PRECISION,
            ColumnKind::Text => 0,
        }
    }
}

/// The column kind that holds values of a kind, if any does.
pub open spec fn column_kind_for(kind: ValueKind) -> Option<ColumnKind> {
    match kind {
        ValueKind::Number => Some(ColumnKind::Numeric),
        ValueKind::Text => Some(ColumnKind::Text),
        _ => None,
    }
}

/// One column of the attribute table.
#[derive(Debug, PartialEq, Eq)]
pub struct ColumnDescriptor {
    name: String,
    kind: ColumnKind,
}

/// The mathematical content of a [`ColumnDescriptor`].
pub struct ColumnModel {
    pub name: Seq<char>,
    pub kind: ColumnKind,
}

impl View for ColumnDescriptor {
    type V = ColumnModel;

    closed spec fn view(&self) -> ColumnModel {
        ColumnModel { name: self.name@, kind: self.kind }
    }
}

impl ColumnDescriptor {
    /// The column's name.
    pub fn name(&self) -> (name: &String)
        ensures
            name@ == self@.name,
    {
        &self.name
    }

    /// The column's storage kind.
    pub fn kind(&self) -> (kind: ColumnKind)
        ensures
            kind == self@.kind,
    {
        self.kind
    }

    /// The column's width.
    pub fn width(&self) -> (width: u8)
        ensures
            width == self@.kind.width(),
    {
        self.kind.width()
    }

    /// The column's number of decimal places.
    pub fn precision(&self) -> (precision: u8)
        ensures
            precision == self@.kind.precision(),
    {
        self.kind.precision()
    }
}

impl Clone for ColumnDescriptor {
    fn clone(&self) -> (copy: Self)
        ensures
            copy@ == self@,
    {
        ColumnDescriptor { name: self.name.clone(), kind: self.kind }
    }
}

/// The column that one property gives rise to: a numeric column for a number,
/// a text column for a string, and an error that names the property for a
/// value of any other kind.
pub open spec fn inferred_column(name: Seq<char>, value: ValueModel) -> Result<
    ColumnModel,
    ErrorModel,
> {
    match column_kind_for(value.kind()) {
        Some(kind) => Ok(ColumnModel { name, kind }),
        None => Err(ErrorModel::UnsupportedAttributeType { attribute: name, kind: value.kind() }),
    }
}

/// Classifies one property.
pub fn infer_column(name: &String, value: &PropertyValue) -> (column: Result<
    ColumnDescriptor,
    ConvertError,
>)
    ensures
        result_view(column) == inferred_column(name@, value@),
{
    match value.kind() {
        ValueKind::Number => Ok(ColumnDescriptor { name: name.clone(), kind: ColumnKind::Numeric }),
        ValueKind::Text => Ok(ColumnDescriptor { name: name.clone(), kind: ColumnKind::Text }),
        kind => Err(ConvertError::UnsupportedAttributeType { attribute: name.clone(), kind }),
    }
}

/// The columns of an attribute table, in the table's order.
///
/// A schema is drawn once, from the first feature of a collection, and never
/// changed afterwards.
#[derive(Debug, PartialEq, Eq)]
pub struct Schema {
    columns: Vec<ColumnDescriptor>,
}

/// The mathematical content of a [`Schema`].
pub type SchemaModel = Seq<ColumnModel>;

/// The names of the columns, in the table's order.
pub open spec fn column_names(schema: SchemaModel) -> Seq<Seq<char>> {
    Seq::new(schema.len(), |i: int| schema[i].name)
}

/// The content of stored columns.
spec fn columns_model(columns: Seq<ColumnDescriptor>) -> SchemaModel {
    Seq::new(columns.len(), |i: int| columns[i]@)
}

impl View for Schema {
    type V = SchemaModel;

    closed spec fn view(&self) -> SchemaModel {
        columns_model(self.columns@)
    }
}

impl Schema {
    /// The number of columns.
    pub fn len(&self) -> (count: usize)
        ensures
            count == self@.len(),
    {
        self.columns.len()
    }

    /// The column at `index`.
    pub fn column(&self, index: usize) -> (column: &ColumnDescriptor)
        requires
            index < self@.len(),
        ensures
            column@ == self@[index as int],
    {
        &self.columns[index]
    }
}

impl Clone for Schema {
    fn clone(&self) -> (copy: Self)
        ensures
            copy@ == self@,
    {
        let mut columns: Vec<ColumnDescriptor> = Vec::new();
        let mut i: usize = 0;
        while i < self.columns.len()
            invariant
                i <= self.columns@.len(),
                columns@.len() == i,
                forall|j: int| 0 <= j < i ==> (#[trigger] columns@[j])@ == self@[j],
            decreases self.columns@.len() - i,
        {
            columns.push(self.columns[i].clone());
            i += 1;
        }
        assert(columns_model(columns@) =~= self@);
        Schema { columns }
    }
}

/// The columns that a set of properties gives rise to: one per property, in
/// the properties' order. The first property that has no column, if there is
/// one, decides the error.
pub open spec fn inferred_columns(properties: PropertiesModel) -> Result<SchemaModel, ErrorModel>
    decreases properties.len(),
{
    if properties.len() == 0 {
        Ok(Seq::empty())
    } else {
        match inferred_columns(properties.drop_last()) {
            Err(error) => Err(error),
            Ok(columns) => match inferred_column(properties.last().0, properties.last().1) {
                Err(error) => Err(error),
                Ok(column) => Ok(columns.push(column)),
            },
        }
    }
}

/// The schema of a collection: the columns that the properties of its first
/// feature give rise to.
pub open spec fn inferred_schema(features: FeaturesModel) -> Result<SchemaModel, ErrorModel> {
    if features.len() == 0 {
        Err(ErrorModel::EmptyCollection)
    } else {
        match features[0].properties {
            None => Err(ErrorModel::MissingProperties { feature_index: 0 }),
            Some(properties) => inferred_columns(properties),
        }
    }
}

/// Every property has a column.
pub open spec fn all_supported(properties: PropertiesModel) -> bool {
    forall|i: int|
        0 <= i < properties.len() ==> column_kind_for((#[trigger] properties[i]).1.kind()) is Some
}

/// The property at `index` has no column, and every one before it has one.
pub open spec fn first_unsupported(properties: PropertiesModel, index: int) -> bool {
    &&& 0 <= index < properties.len()
    &&& column_kind_for(properties[index].1.kind()) is None
    &&& all_supported(properties.take(index))
}

/// What [`inferred_columns`] comes to, said outright. Where every property
/// has a column, there are as many columns as properties, and the column at
/// each place bears the name of the property at that place and the kind that
/// holds its value. Otherwise the error names the first property without a
/// column, and its kind.
pub proof fn lemma_inferred_columns(properties: PropertiesModel)
    ensures
        match inferred_columns(properties) {
            Ok(columns) => {
                &&& all_supported(properties)
                &&& columns.len() == properties.len()
                &&& forall|i: int|
                    0 <= i < properties.len() ==> (#[trigger] columns[i]).name == properties[i].0
                        && Some(columns[i].kind) == column_kind_for(properties[i].1.kind())
            },
            Err(error) => exists|index: int|
                #![trigger properties[index]]
                first_unsupported(properties, index) && error
                    == (ErrorModel::UnsupportedAttributeType {
                    attribute: properties[index].0,
                    kind: properties[index].1.kind(),
                }),
        },
    decreases properties.len(),
{
    if properties.len() > 0 {
        let front = properties.drop_last();
        let last = properties.len() - 1;
        lemma_inferred_columns(front);
        match inferred_columns(front) {
            Err(error) => {
                let index = choose|index: int|
                    #![trigger front[index]]
                    first_unsupported(front, index) && error
                        == (ErrorModel::UnsupportedAttributeType {
                        attribute: front[index].0,
                        kind: front[index].1.kind(),
                    });
                assert(front.take(index) =~= properties.take(index));
                assert(properties[index] == front[index]);
                assert(first_unsupported(properties, index));
            },
            Ok(columns) => {
                assert(properties.take(last) =~= front);
                match inferred_column(properties.last().0, properties.last().1) {
                    Err(error) => {
                        assert(first_unsupported(properties, last));
                        assert(properties[last] == properties.last());
                    },
                    Ok(column) => {
                        assert forall|i: int| 0 <= i < properties.len() implies column_kind_for(
                            (#[trigger] properties[i]).1.kind(),
                        ) is Some by {
                            if i < last {
                                assert(properties[i] == front[i]);
                            }
                        }
                        let grown = columns.push(column);
                        assert forall|i: int| 0 <= i < properties.len() implies (
                        #[trigger] grown[i]).name == properties[i].0 && Some(grown[i].kind)
                            == column_kind_for(properties[i].1.kind()) by {
                            if i < last {
                                assert(grown[i] == columns[i]);
                                assert(properties[i] == front[i]);
                            }
                        }
                    },
                }
            },
        }
    }
}

/// Draws the columns from a set of properties: the inference of every
/// property, in the properties' order.
pub fn infer_columns(properties: &PropertyMap) -> (schema: Result<Schema, ConvertError>)
    ensures
        result_view(schema) == inferred_columns(properties@),
        schema is Ok <==> all_supported(properties@),
        schema matches Ok(drawn) ==> column_names(drawn@) == property_names(properties@),
{
    let mut columns: Vec<ColumnDescriptor> = Vec::new();
    let count = properties.len();
    let mut i: usize = 0;
    assert(columns_model(columns@) =~= SchemaModel::empty());
    while i < count
        invariant
            i <= count,
            count == properties@.len(),
            inferred_columns(properties@.take(i as int)) == Ok::<SchemaModel, ErrorModel>(
                columns_model(columns@),
            ),
        decreases count - i,
    {
        let ghost seen = properties@.take(i as int + 1);
        assert(seen.drop_last() =~= properties@.take(i as int));
        assert(seen.last() == properties@[i as int]);
        match infer_column(properties.name_at(i), properties.value_at(i)) {
            Err(error) => {
                proof {
                    lemma_unsupported_prefix(properties@, i as int + 1);
                    lemma_inferred_columns(properties@);
                }
                return Err(error);
            },
            Ok(column) => {
                let ghost before = columns_model(columns@);
                columns.push(column);
                assert(columns_model(columns@) =~= before.push(column@));
            },
        }
        i += 1;
    }
    proof {
        assert(properties@.take(i as int) =~= properties@);
        lemma_inferred_columns(properties@);
        assert(column_names(columns_model(columns@)) =~= property_names(properties@));
    }
    Ok(Schema { columns })
}

/// An error among the first `upto` properties is the error of them all.
proof fn lemma_unsupported_prefix(properties: PropertiesModel, upto: int)
    requires
        0 <= upto <= properties.len(),
        inferred_columns(properties.take(upto)) is Err,
    ensures
        inferred_columns(properties) == inferred_columns(properties.take(upto)),
    decreases properties.len() - upto,
{
    if upto < properties.len() {
        assert(properties.take(upto + 1).drop_last() =~= properties.take(upto));
        lemma_unsupported_prefix(properties, upto + 1);
    } else {
        assert(properties.take(upto) =~= properties);
    }
}

/// The error of the first property that has no column, if there is one: a
/// value that is neither a number nor a string is refused wherever it stands.
pub open spec fn unsupported_property(properties: PropertiesModel) -> Option<ErrorModel> {
    match inferred_columns(properties) {
        Err(error) => Some(error),
        Ok(_) => None,
    }
}

/// Looks for a property that has no column: the first one whose value is
/// neither a number nor a string is an error that names it and its kind.
pub fn check_supported(properties: &PropertyMap) -> (checked: Result<(), ConvertError>)
    ensures
        checked is Ok <==> all_supported(properties@),
        match checked {
            Ok(_) => unsupported_property(properties@) is None,
            Err(error) => unsupported_property(properties@) == Some(error@),
        },
{
    let count = properties.len();
    let mut i: usize = 0;
    assert(properties@.take(0) =~= PropertiesModel::empty());
    while i < count
        invariant
            i <= count,
            count == properties@.len(),
            inferred_columns(properties@.take(i as int)) is Ok,
        decreases count - i,
    {
        let ghost seen = properties@.take(i as int + 1);
        assert(seen.drop_last() =~= properties@.take(i as int));
        assert(seen.last() == properties@[i as int]);
        match properties.value_at(i).kind() {
            ValueKind::Number => {},
            ValueKind::Text => {},
            kind => {
                proof {
                    lemma_unsupported_prefix(properties@, i as int + 1);
                    lemma_inferred_columns(properties@);
                }
                return Err(
                    ConvertError::UnsupportedAttributeType {
                        attribute: properties.name_at(i).clone(),
                        kind,
                    },
                );
            },
        }
        i += 1;
    }
    proof {
        assert(properties@.take(i as int) =~= properties@);
        lemma_inferred_columns(properties@);
    }
    Ok(())
}

/// Draws the schema of a collection from its first feature.
///
/// An empty collection and a first feature without properties are errors, and
/// so is a property of the first feature whose value is neither a number nor a
/// string. Column order is the order of the first feature's properties.
pub fn build_schema(collection: &FeatureCollection) -> (schema: Result<Schema, ConvertError>)
    ensures
        result_view(schema) == inferred_schema(collection@),
        schema matches Ok(drawn) ==> collection@.len() > 0 && collection@[0].properties is Some
            && column_names(drawn@) == property_names(collection@[0].properties->0),
{
    if collection.features.len() == 0 {
        return Err(ConvertError::EmptyCollection);
    }
    match &collection.features[0].properties {
        None => Err(ConvertError::MissingProperties { feature_index: 0 }),
        Some(properties) => infer_columns(properties),
    }
}

} // verus!
