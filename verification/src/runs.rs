//! What holds of whole runs in which no sink fails.

use crate::converter::loaded;
use crate::error::ErrorModel;
use crate::feature::{DocumentModel, FeatureModel, FeaturesModel};
use crate::geometry::{GeometryModel, PositionModel};
use crate::property::{
    contains_name, distinct_names, index_of, lemma_index_of_entry, lookup, PropertiesModel,
    ValueModel,
};
use crate::record::{
    assembled_field, assembled_record, assembled_values, conforms, first_failing_column,
    lemma_assembled_record, FieldModel, RecordModel,
};
use crate::schema::{
    all_supported, column_kind_for, first_unsupported, inferred_columns, lemma_inferred_columns,
    ColumnKind, ColumnModel, SchemaModel,
};
use crate::shape::{ShapeModel, Vertex};
use crate::writer::{
    converts, feature_record, feature_shape, lemma_advance_consistent, opened, ActionModel,
    DriverState, SinkEventModel, WriterModel,
};
use vstd::prelude::*;

verus! {

/// What a run leaves behind: the shapes and the records that the sinks took,
/// each in the order of writing, and the driver as the run left it.
pub struct RunModel {
    pub shapes: Seq<ShapeModel>,
    pub records: Seq<RecordModel>,
    pub end: WriterModel,
}

impl WriterModel {
    /// A bound on the number of operations that a run has still to ask for.
    pub open spec fn steps_left(self) -> nat {
        if self.is_over() || self.position >= self.features.len() {
            0
        } else {
            let features_left = 2 * (self.features.len() - self.position);
            let opening: int = if self.state is Initialized {
                2
            } else {
                0
            };
            let shape: int = if self.shape_written {
                1
            } else {
                0
            };
            (features_left + opening - shape) as nat
        }
    }

    /// The rest of a run in which no sink fails: what is written from here
    /// on, and where the driver ends. The operation that is under way is
    /// taken to go through, and so is every one that the driver then asks
    /// for, until it asks for no more.
    pub open spec fn run(self) -> RunModel
        decreases self.steps_left(),
    {
        let (next, action) = self.advance(SinkEventModel::Done);
        match action {
            ActionModel::WriteShape(shape) => {
                let rest = next.run();
                RunModel { shapes: seq![shape] + rest.shapes, ..rest }
            },
            ActionModel::WriteRecord(record) => {
                let rest = next.run();
                RunModel { records: seq![record] + rest.records, ..rest }
            },
            _ => RunModel { shapes: Seq::empty(), records: Seq::empty(), end: next },
        }
    }
}

/// Every step that leaves a run going brings its end nearer: a run in which
/// no sink fails is over after finitely many steps.
pub proof fn lemma_step_shortens_run(driver: WriterModel)
    requires
        !driver.is_over(),
    ensures
        driver.advance(SinkEventModel::Done).0.is_over() || driver.advance(
            SinkEventModel::Done,
        ).0.steps_left() < driver.steps_left(),
{
}

/// The shape of the feature at `index`, where it has one.
pub open spec fn shape_at(features: FeaturesModel, index: int) -> ShapeModel {
    feature_shape(index as nat, features[index])->Ok_0
}

/// The record of the feature at `index`, where it has one.
pub open spec fn record_at(schema: SchemaModel, features: FeaturesModel, index: int)
    -> RecordModel {
    feature_record(schema, index as nat, features[index])->Ok_0
}

/// The first error of the feature at `index`, where it does not convert: that
/// of its shape, or else that of its record.
pub open spec fn error_at(schema: SchemaModel, features: FeaturesModel, index: int) -> ErrorModel {
    match feature_shape(index as nat, features[index]) {
        Err(error) => error,
        Ok(_) => feature_record(schema, index as nat, features[index])->Err_0,
    }
}

/// The feature at `index` exists and has a shape.
pub open spec fn has_shape(features: FeaturesModel, index: nat) -> bool {
    index < features.len() && feature_shape(index, features[index as int]) is Ok
}

/// Every feature before `stop` converts, and the feature at `stop` does not:
/// `stop` is where a run ends, the number of features where all convert.
pub open spec fn stops_at(schema: SchemaModel, features: FeaturesModel, stop: nat) -> bool {
    &&& stop <= features.len()
    &&& forall|i: int| 0 <= i < stop ==> converts(schema, i as nat, #[trigger] features[i])
    &&& stop < features.len() ==> !converts(schema, stop, features[stop as int])
}

/// The number of shapes that a run writes which ends at `stop`.
pub open spec fn shapes_until(features: FeaturesModel, stop: nat) -> nat {
    if has_shape(features, stop) {
        stop + 1
    } else {
        stop
    }
}

/// The driver at the end of a run which ends at `stop`.
pub open spec fn ended(driver: WriterModel, stop: nat) -> WriterModel {
    if stop >= driver.features.len() {
        WriterModel {
            state: DriverState::Completed,
            position: stop,
            shape_written: false,
            ..driver
        }
    } else {
        WriterModel {
            state: DriverState::Failed,
            position: stop,
            shape_written: has_shape(driver.features, stop),
            failure: Some(error_at(driver.schema, driver.features, stop as int)),
            ..driver
        }
    }
}

impl WriterModel {
    /// The number of shapes that the driver has asked to be written.
    pub open spec fn shapes_asked(self) -> nat {
        if self.state is Converting {
            self.position + 1
        } else {
            self.shapes_written()
        }
    }

    /// The number of records that the driver has asked to be written.
    pub open spec fn records_asked(self) -> nat {
        if self.state is Converting && self.shape_written {
            self.position + 1
        } else {
            self.position
        }
    }
}

/// There is a place where a run ends.
pub proof fn lemma_stop_exists(schema: SchemaModel, features: FeaturesModel, from: nat) -> (stop:
    nat)
    requires
        from <= features.len(),
        forall|i: int| 0 <= i < from ==> converts(schema, i as nat, #[trigger] features[i]),
    ensures
        from <= stop,
        stops_at(schema, features, stop),
    decreases features.len() - from,
{
    if from < features.len() && converts(schema, from, features[from as int]) {
        lemma_stop_exists(schema, features, from + 1)
    } else {
        from
    }
}

/// A run ends in one place only.
pub proof fn lemma_stop_unique(schema: SchemaModel, features: FeaturesModel, one: nat, other: nat)
    requires
        stops_at(schema, features, one),
        stops_at(schema, features, other),
    ensures
        one == other,
{
    if one < other {
        assert(converts(schema, one, features[one as int]));
    } else if other < one {
        assert(converts(schema, other, features[other as int]));
    }
}

/// The rest of a run that ends at `stop`, from any moment of it.
proof fn lemma_rest_of_run(driver: WriterModel, stop: nat)
    requires
        driver.consistent(),
        !driver.is_over(),
        stops_at(driver.schema, driver.features, stop),
    ensures
        driver.run().end == ended(driver, stop),
        driver.shapes_asked() <= shapes_until(driver.features, stop),
        driver.records_asked() <= stop,
        driver.run().shapes == Seq::new(
            (shapes_until(driver.features, stop) - driver.shapes_asked()) as nat,
            |j: int| shape_at(driver.features, driver.shapes_asked() + j),
        ),
        driver.run().records == Seq::new(
            (stop - driver.records_asked()) as nat,
            |j: int| record_at(driver.schema, driver.features, driver.records_asked() + j),
        ),
    decreases driver.steps_left(),
{
    let (next, _) = driver.advance(SinkEventModel::Done);
    lemma_advance_consistent(driver, SinkEventModel::Done);
    if stop < driver.position {
        assert(converts(driver.schema, stop, driver.features[stop as int]));
    }
    if driver.position < stop {
        assert(converts(driver.schema, driver.position, driver.features[driver.position as int]));
    }
    if !next.is_over() {
        lemma_rest_of_run(next, stop);
    }
    assert(driver.run().shapes =~= Seq::new(
        (shapes_until(driver.features, stop) - driver.shapes_asked()) as nat,
        |j: int| shape_at(driver.features, driver.shapes_asked() + j),
    ));
    assert(driver.run().records =~= Seq::new(
        (stop - driver.records_asked()) as nat,
        |j: int| record_at(driver.schema, driver.features, driver.records_asked() + j),
    ));
}

/// The run of a driver that has not begun, said outright. Where `stop` is
/// the first feature that does not convert, or the number of features where
/// all convert, the run writes the shapes and the records of the features
/// before `stop`, in the collection's order, and the shape of the feature at
/// `stop` too where it has one. It ends completed where every feature
/// converts, and else failed with the first error of the feature at `stop`.
pub proof fn lemma_run(driver: WriterModel, stop: nat)
    requires
        driver.consistent(),
        driver.state is Initialized,
        stops_at(driver.schema, driver.features, stop),
    ensures
        driver.run().end == ended(driver, stop),
        driver.run().shapes == Seq::new(
            shapes_until(driver.features, stop),
            |j: int| shape_at(driver.features, j),
        ),
        driver.run().records == Seq::new(
            stop,
            |j: int| record_at(driver.schema, driver.features, j),
        ),
{
    lemma_rest_of_run(driver, stop);
    assert(driver.run().shapes =~= Seq::new(
        shapes_until(driver.features, stop),
        |j: int| shape_at(driver.features, j),
    ));
    assert(driver.run().records =~= Seq::new(
        stop,
        |j: int| record_at(driver.schema, driver.features, j),
    ));
}

/// The geometry has a shape: it is a point or a line string.
pub open spec fn convertible(geometry: Option<GeometryModel>) -> bool {
    geometry matches Some(found) && (found is Point || found is LineString)
}

/// Two sets of properties bind the same names, and each name to values of
/// one kind.
pub open spec fn same_attributes(first: PropertiesModel, other: PropertiesModel) -> bool {
    forall|name: Seq<char>|
        #![trigger contains_name(first, name)]
        #![trigger contains_name(other, name)]
        {
            &&& contains_name(first, name) == contains_name(other, name)
            &&& contains_name(first, name) ==> lookup(other, name)->0.kind() == lookup(
                first,
                name,
            )->0.kind()
        }
}

/// A collection of at least one feature in which every feature has a
/// geometry with a shape and properties with distinct names, the first
/// feature's values are numbers and strings, and every feature binds the
/// names that the first one binds, each to a value of the same kind.
pub open spec fn uniform(features: FeaturesModel) -> bool {
    &&& features.len() >= 1
    &&& features[0].properties is Some
    &&& all_supported(features[0].properties->0)
    &&& forall|i: int|
        0 <= i < features.len() ==> {
            &&& convertible((#[trigger] features[i]).geometry)
            &&& features[i].properties is Some
            &&& distinct_names(features[i].properties->0)
            &&& same_attributes(features[0].properties->0, features[i].properties->0)
        }
}

/// Properties that bind the names of the first feature, each to a value of
/// the same kind, have a value in every column of the first feature's
/// schema, and hold nothing but numbers and strings.
proof fn lemma_same_attributes_conform(
    first: PropertiesModel,
    other: PropertiesModel,
    feature_index: nat,
)
    requires
        distinct_names(first),
        distinct_names(other),
        all_supported(first),
        same_attributes(first, other),
        inferred_columns(first) is Ok,
    ensures
        conforms(inferred_columns(first)->Ok_0, feature_index, other),
        all_supported(other),
        assembled_record(inferred_columns(first)->Ok_0, feature_index, other) is Ok,
{
    let schema = inferred_columns(first)->Ok_0;
    lemma_inferred_columns(first);
    assert forall|i: int| 0 <= i < schema.len() implies assembled_field(
        feature_index,
        #[trigger] schema[i],
        other,
    ) is Ok by {
        let name = schema[i].name;
        assert(name == first[i].0);
        lemma_index_of_entry(first, i);
        assert(contains_name(first, name));
        assert(contains_name(other, name));
    }
    assert forall|j: int| 0 <= j < other.len() implies column_kind_for(
        (#[trigger] other[j]).1.kind(),
    ) is Some by {
        let name = other[j].0;
        lemma_index_of_entry(other, j);
        assert(contains_name(other, name));
        assert(contains_name(first, name));
        let k = index_of(first, name);
        assert(first[k].0 == name);
        assert(column_kind_for(first[k].1.kind()) is Some);
    }
    lemma_assembled_record(schema, feature_index, other);
}

/// In a uniform collection every feature is written: the run completes, and
/// the geometry sink and the attribute table have each taken as many records
/// as the collection has features.
pub proof fn lemma_uniform_collection_is_written_in_full(features: FeaturesModel)
    requires
        uniform(features),
    ensures
        loaded(DocumentModel::FeatureCollection(features)) is Ok,
        ({
            let converter = loaded(DocumentModel::FeatureCollection(features))->Ok_0;
            let after = converter.converted();
            &&& after.driver.state is Completed
            &&& after.shapes.len() == features.len()
            &&& after.records.len() == features.len()
            &&& after.driver.shapes_written() == features.len()
            &&& after.driver.records_written() == features.len()
        }),
{
    let first = features[0].properties->0;
    lemma_inferred_columns(first);
    if inferred_columns(first) is Err {
        let index = choose|index: int| #![trigger first[index]] first_unsupported(first, index);
        assert(column_kind_for(first[index].1.kind()) is Some);
    }
    let schema = inferred_columns(first)->Ok_0;
    assert forall|i: int| 0 <= i < features.len() implies converts(
        schema,
        i as nat,
        #[trigger] features[i],
    ) by {
        lemma_same_attributes_conform(first, features[i].properties->0, i as nat);
    }
    let driver = opened(DocumentModel::FeatureCollection(features))->Ok_0;
    lemma_run(driver, features.len());
}

/// A feature whose geometry has no shape ends the run: where every feature
/// before it converts, the run fails with `UnsupportedGeometryType`, which
/// names the feature and the kind of its geometry, and neither a shape nor a
/// record of that feature is written.
pub proof fn lemma_unsupported_geometry_fails_run(driver: WriterModel, index: nat)
    requires
        driver.consistent(),
        driver.state is Initialized,
        index < driver.features.len(),
        forall|i: int|
            0 <= i < index ==> converts(driver.schema, i as nat, #[trigger] driver.features[i]),
        driver.features[index as int].geometry is Some,
        !convertible(driver.features[index as int].geometry),
    ensures
        driver.run().end.state is Failed,
        driver.run().end.failure == Some(
            ErrorModel::UnsupportedGeometryType {
                feature_index: index,
                kind: driver.features[index as int].geometry->0.kind(),
            },
        ),
        driver.run().shapes.len() == index,
        driver.run().records.len() == index,
{
    lemma_run(driver, index);
}

/// A column that the properties do not bind is a missing attribute: where
/// the feature has a value in every column before it, the record fails with
/// `MissingAttribute`, which names the feature and the column.
pub proof fn lemma_absent_column_is_missing(
    schema: SchemaModel,
    feature_index: nat,
    properties: PropertiesModel,
    column: int,
)
    requires
        0 <= column < schema.len(),
        !contains_name(properties, schema[column].name),
        conforms(schema.take(column), feature_index, properties),
    ensures
        assembled_record(schema, feature_index, properties) == Err::<RecordModel, ErrorModel>(
            ErrorModel::MissingAttribute { feature_index, column: schema[column].name },
        ),
{
    lemma_assembled_record(schema, feature_index, properties);
    assert(first_failing_column(schema, feature_index, properties, column));
    match assembled_record(schema, feature_index, properties) {
        Ok(_) => {
            assert(assembled_field(feature_index, schema[column], properties) is Ok);
        },
        Err(error) => {
            let found = choose|index: int|
                #![trigger schema[index]]
                first_failing_column(schema, feature_index, properties, index) && Err::<
                    FieldModel,
                    ErrorModel,
                >(error) == assembled_field(feature_index, schema[index], properties);
            if found < column {
                assert(schema.take(column)[found] == schema[found]);
            } else if column < found {
                assert(schema.take(found)[column] == schema[column]);
            }
        },
    }
}

/// A feature that lacks a column of the schema ends the run: where every
/// feature before it converts, and it has a shape and a value in every
/// column before the one it lacks, the run fails with `MissingAttribute`,
/// which names the feature and the column. The feature's shape is written,
/// its record is not.
pub proof fn lemma_missing_attribute_fails_run(driver: WriterModel, index: nat, column: int)
    requires
        driver.consistent(),
        driver.state is Initialized,
        index < driver.features.len(),
        forall|i: int|
            0 <= i < index ==> converts(driver.schema, i as nat, #[trigger] driver.features[i]),
        convertible(driver.features[index as int].geometry),
        driver.features[index as int].properties is Some,
        0 <= column < driver.schema.len(),
        !contains_name(driver.features[index as int].properties->0, driver.schema[column].name),
        conforms(
            driver.schema.take(column),
            index,
            driver.features[index as int].properties->0,
        ),
    ensures
        driver.run().end.state is Failed,
        driver.run().end.failure == Some(
            ErrorModel::MissingAttribute { feature_index: index, column: driver.schema[column].name },
        ),
        driver.run().shapes.len() == index + 1,
        driver.run().records.len() == index,
{
    lemma_absent_column_is_missing(
        driver.schema,
        index,
        driver.features[index as int].properties->0,
        column,
    );
    lemma_run(driver, index);
}

/// A first feature with a property that is neither a number nor a string
/// has no schema, so that no run begins and nothing is written: the
/// collection is refused with `UnsupportedAttributeType`, which names the
/// first such property and its kind.
pub proof fn lemma_unsupported_property_refuses_collection(features: FeaturesModel, index: int)
    requires
        features.len() > 0,
        features[0].properties is Some,
        first_unsupported(features[0].properties->0, index),
    ensures
        loaded(DocumentModel::FeatureCollection(features)) matches Err(error) && error == (
        ErrorModel::UnsupportedAttributeType {
            attribute: features[0].properties->0[index].0,
            kind: features[0].properties->0[index].1.kind(),
        }),
        opened(DocumentModel::FeatureCollection(features)) is Err,
{
    let first = features[0].properties->0;
    lemma_inferred_columns(first);
    match inferred_columns(first) {
        Ok(_) => {
            assert(column_kind_for(first[index].1.kind()) is Some);
        },
        Err(error) => {
            let found = choose|found: int|
                #![trigger first[found]]
                first_unsupported(first, found) && error == (ErrorModel::UnsupportedAttributeType {
                    attribute: first[found].0,
                    kind: first[found].1.kind(),
                });
            if found < index {
                assert(first.take(index)[found] == first[found]);
            } else if index < found {
                assert(first.take(found)[index] == first[index]);
            }
        },
    }
}

/// Properties that hold a value which is neither a number nor a string,
/// under whatever name, have no record.
pub proof fn lemma_unsupported_value_has_no_record(
    schema: SchemaModel,
    feature_index: nat,
    properties: PropertiesModel,
    entry: int,
)
    requires
        0 <= entry < properties.len(),
        column_kind_for(properties[entry].1.kind()) is None,
    ensures
        assembled_record(schema, feature_index, properties) is Err,
{
    lemma_assembled_record(schema, feature_index, properties);
}

/// Where the properties have a value in every column, the first property
/// that is neither a number nor a string decides the error: the record
/// fails with `UnsupportedAttributeType`, which names that property and its
/// kind.
pub proof fn lemma_unsupported_property_is_refused(
    schema: SchemaModel,
    feature_index: nat,
    properties: PropertiesModel,
    entry: int,
)
    requires
        conforms(schema, feature_index, properties),
        first_unsupported(properties, entry),
    ensures
        assembled_record(schema, feature_index, properties) == Err::<RecordModel, ErrorModel>(
            ErrorModel::UnsupportedAttributeType {
                attribute: properties[entry].0,
                kind: properties[entry].1.kind(),
            },
        ),
{
    lemma_assembled_record(schema, feature_index, properties);
    match assembled_record(schema, feature_index, properties) {
        Ok(_) => {
            assert(column_kind_for(properties[entry].1.kind()) is Some);
        },
        Err(error) => {
            if exists|index: int|
                #![trigger schema[index]]
                first_failing_column(schema, feature_index, properties, index) {
                let column = choose|index: int|
                    #![trigger schema[index]]
                    first_failing_column(schema, feature_index, properties, index);
                assert(assembled_field(feature_index, schema[column], properties) is Ok);
            }
            let found = choose|index: int|
                #![trigger properties[index]]
                first_unsupported(properties, index) && error
                    == (ErrorModel::UnsupportedAttributeType {
                    attribute: properties[index].0,
                    kind: properties[index].1.kind(),
                });
            if found < entry {
                assert(properties.take(entry)[found] == properties[found]);
            } else if entry < found {
                assert(properties.take(found)[entry] == properties[entry]);
            }
        },
    }
}

/// A feature that holds a value which is neither a number nor a string,
/// under whatever name, ends the run. Where every feature before it
/// converts and it has a shape, the run fails at that feature with the
/// error of its record; the feature's shape is written, and neither its
/// record nor anything of a later feature is.
pub proof fn lemma_unsupported_value_fails_run(driver: WriterModel, index: nat, entry: int)
    requires
        driver.consistent(),
        driver.state is Initialized,
        index < driver.features.len(),
        forall|i: int|
            0 <= i < index ==> converts(driver.schema, i as nat, #[trigger] driver.features[i]),
        convertible(driver.features[index as int].geometry),
        driver.features[index as int].properties is Some,
        0 <= entry < driver.features[index as int].properties->0.len(),
        column_kind_for(driver.features[index as int].properties->0[entry].1.kind()) is None,
    ensures
        driver.run().end.state is Failed,
        driver.run().end.position == index,
        driver.run().end.failure matches Some(error) && assembled_record(
            driver.schema,
            index,
            driver.features[index as int].properties->0,
        ) == Err::<RecordModel, ErrorModel>(error),
        driver.run().shapes.len() == index + 1,
        driver.run().records.len() == index,
{
    lemma_unsupported_value_has_no_record(
        driver.schema,
        index,
        driver.features[index as int].properties->0,
        entry,
    );
    lemma_run(driver, index);
}

/// In any collection, a feature that holds a value which is neither a number
/// nor a string does not convert, and the run fails at that feature or
/// before it: the attribute table never takes its record.
pub proof fn lemma_unsupported_value_is_never_written(
    driver: WriterModel,
    index: nat,
    entry: int,
)
    requires
        driver.consistent(),
        driver.state is Initialized,
        index < driver.features.len(),
        driver.features[index as int].properties is Some,
        0 <= entry < driver.features[index as int].properties->0.len(),
        column_kind_for(driver.features[index as int].properties->0[entry].1.kind()) is None,
    ensures
        !converts(driver.schema, index, driver.features[index as int]),
        driver.run().end.state is Failed,
        driver.run().records.len() <= index,
{
    lemma_unsupported_value_has_no_record(
        driver.schema,
        index,
        driver.features[index as int].properties->0,
        entry,
    );
    let stop = lemma_stop_exists(driver.schema, driver.features, 0);
    if index < stop {
        assert(converts(driver.schema, index, driver.features[index as int]));
    }
    lemma_run(driver, stop);
}

/// A collection of points, each with a text under one name and a number
/// under another, in that order.
pub open spec fn labelled_points(
    places: Seq<Vertex>,
    label: Seq<char>,
    texts: Seq<Seq<char>>,
    measure: Seq<char>,
    numbers: Seq<Option<u64>>,
) -> FeaturesModel {
    Seq::new(
        places.len(),
        |i: int|
            FeatureModel {
                geometry: Some(
                    GeometryModel::Point(
                        PositionModel { x: places[i].x, y: places[i].y, rest: Seq::empty() },
                    ),
                ),
                properties: Some(
                    seq![
                        (label, ValueModel::Text(texts[i])),
                        (measure, ValueModel::Number(numbers[i])),
                    ],
                ),
            },
    )
}

/// Points with a text and a number each come out as they went in. The schema
/// has a text column and a numeric column under the two names; the run
/// completes; the shapes are the points, and the records are the pairs of
/// text and number, both in the collection's order.
pub proof fn lemma_labelled_points_are_written_as_given(
    places: Seq<Vertex>,
    label: Seq<char>,
    texts: Seq<Seq<char>>,
    measure: Seq<char>,
    numbers: Seq<Option<u64>>,
)
    requires
        places.len() >= 1,
        texts.len() == places.len(),
        numbers.len() == places.len(),
        label != measure,
    ensures
        loaded(
            DocumentModel::FeatureCollection(
                labelled_points(places, label, texts, measure, numbers),
            ),
        ) is Ok,
        ({
            let features = labelled_points(places, label, texts, measure, numbers);
            let after = loaded(DocumentModel::FeatureCollection(features))->Ok_0.converted();
            &&& after.driver.state is Completed
            &&& after.driver.schema == seq![
                ColumnModel { name: label, kind: ColumnKind::Text },
                ColumnModel { name: measure, kind: ColumnKind::Numeric },
            ]
            &&& after.shapes == Seq::new(places.len(), |i: int| ShapeModel::Point(places[i]))
            &&& after.records == Seq::new(
                places.len(),
                |i: int| seq![FieldModel::Character(texts[i]), FieldModel::Numeric(numbers[i])],
            )
        }),
{
    let features = labelled_points(places, label, texts, measure, numbers);
    let first = features[0].properties->0;
    let schema = seq![
        ColumnModel { name: label, kind: ColumnKind::Text },
        ColumnModel { name: measure, kind: ColumnKind::Numeric },
    ];
    assert(inferred_columns(first) == Ok::<SchemaModel, ErrorModel>(schema)) by {
        reveal_with_fuel(inferred_columns, 3);
        assert(first.drop_last() =~= seq![first[0]]);
        assert(first.drop_last().drop_last() =~= Seq::empty());
        assert(inferred_columns(first)->Ok_0 =~= schema);
    }
    assert forall|i: int| 0 <= i < features.len() implies converts(
        schema,
        i as nat,
        #[trigger] features[i],
    ) && record_at(schema, features, i) == seq![
        FieldModel::Character(texts[i]),
        FieldModel::Numeric(numbers[i]),
    ] by {
        let properties = features[i].properties->0;
        assert(distinct_names(properties));
        lemma_index_of_entry(properties, 0);
        lemma_index_of_entry(properties, 1);
        reveal_with_fuel(assembled_values, 3);
        reveal_with_fuel(inferred_columns, 3);
        assert(properties.drop_last() =~= seq![properties[0]]);
        assert(properties.drop_last().drop_last() =~= Seq::empty());
        assert(inferred_columns(properties) is Ok);
        assert(schema.drop_last() =~= seq![schema[0]]);
        assert(schema.drop_last().drop_last() =~= Seq::empty());
        assert(assembled_record(schema, i as nat, properties)->Ok_0 =~= seq![
            FieldModel::Character(texts[i]),
            FieldModel::Numeric(numbers[i]),
        ]);
    }
    let driver = opened(DocumentModel::FeatureCollection(features))->Ok_0;
    lemma_run(driver, features.len());
    let after = loaded(DocumentModel::FeatureCollection(features))->Ok_0.converted();
    assert(after.shapes =~= Seq::new(places.len(), |i: int| ShapeModel::Point(places[i])));
    assert(after.records =~= Seq::new(
        places.len(),
        |i: int| seq![FieldModel::Character(texts[i]), FieldModel::Numeric(numbers[i])],
    ));
}

} // verus!
