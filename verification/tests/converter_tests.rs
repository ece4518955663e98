use geojson_to_shp::converter::FeatureCollectionToShpConverter;
use geojson_to_shp::error::ConvertError;
use geojson_to_shp::feature::{Document, Feature, FeatureCollection};
use geojson_to_shp::geometry::{Geometry, GeometryKind, Position};
use geojson_to_shp::property::{PropertyMap, PropertyValue, ValueKind};
use geojson_to_shp::record::FieldValue;
use geojson_to_shp::schema::ColumnKind;
use geojson_to_shp::shape::{Shape, Vertex};
use geojson_to_shp::writer::DriverState;

fn at(x: f64, y: f64) -> Position {
    Position::new(x.to_bits(), y.to_bits())
}

fn vertex(x: f64, y: f64) -> Vertex {
    Vertex { x: x.to_bits(), y: y.to_bits() }
}

fn number(value: f64) -> PropertyValue {
    PropertyValue::Number(Some(value.to_bits()))
}

fn text(value: &str) -> PropertyValue {
    PropertyValue::Text(String::from(value))
}

fn tagged(id: f64, name: &str) -> PropertyMap {
    PropertyMap::new().insert(String::from("id"), number(id)).insert(String::from("name"), text(name))
}

fn point(x: f64, y: f64, properties: PropertyMap) -> Feature {
    Feature { geometry: Some(Geometry::Point(at(x, y))), properties: Some(properties) }
}

fn document(features: Vec<Feature>) -> Document {
    Document::FeatureCollection(FeatureCollection { features })
}

fn values(converter: &FeatureCollectionToShpConverter, index: usize) -> Vec<FieldValue> {
    let record = &converter.records()[index];
    (0..record.len()).map(|column| record.value(column).clone()).collect()
}

#[test]
fn creates_new_converter_and_converts_without_error() {
    let features = vec![
        point(-122.4, 37.8, tagged(1.0, "San Francisco")),
        point(-73.9, 40.7, tagged(2.0, "New York")),
        point(2.35, 48.85, tagged(3.0, "Paris")),
    ];
    let mut converter = FeatureCollectionToShpConverter::new(document(features)).unwrap();
    converter.write_shapefile().expect("Shapes")
}

#[test]
fn two_points_with_id_and_name_give_two_shapes_and_two_records() {
    let features = vec![point(1.0, 2.0, tagged(1.0, "a")), point(3.0, 4.0, tagged(2.0, "b"))];
    let mut converter = FeatureCollectionToShpConverter::new(document(features)).unwrap();
    assert_eq!(converter.write_shapefile(), Ok(()));

    assert_eq!(converter.schema().len(), 2);
    assert_eq!(converter.schema().column(0).name(), "id");
    assert_eq!(converter.schema().column(0).kind(), ColumnKind::Numeric);
    assert_eq!(converter.schema().column(1).name(), "name");
    assert_eq!(converter.schema().column(1).kind(), ColumnKind::Text);

    assert_eq!(
        converter.shapes(),
        &vec![Shape::Point(vertex(1.0, 2.0)), Shape::Point(vertex(3.0, 4.0))]
    );
    assert_eq!(converter.records().len(), 2);
    assert_eq!(
        values(&converter, 0),
        vec![FieldValue::Numeric(Some(1.0f64.to_bits())), FieldValue::Character(String::from("a"))]
    );
    assert_eq!(
        values(&converter, 1),
        vec![FieldValue::Numeric(Some(2.0f64.to_bits())), FieldValue::Character(String::from("b"))]
    );
    assert_eq!(converter.state(), DriverState::Completed);
}

#[test]
fn a_uniform_collection_gives_one_shape_and_one_record_per_feature() {
    for count in [1usize, 2, 7, 40] {
        let features: Vec<Feature> = (0..count)
            .map(|i| {
                let properties = PropertyMap::new()
                    .insert(String::from("name"), text(&format!("n{}", i)))
                    .insert(String::from("id"), number(i as f64));
                if i % 2 == 0 {
                    point(i as f64, 0.5, properties)
                } else {
                    Feature {
                        geometry: Some(Geometry::LineString(vec![at(0.0, 0.0), at(i as f64, 1.0)])),
                        properties: Some(properties),
                    }
                }
            })
            .collect();
        let mut converter = FeatureCollectionToShpConverter::new(document(features)).unwrap();
        assert_eq!(converter.write_shapefile(), Ok(()));
        assert_eq!(converter.shapes().len(), count);
        assert_eq!(converter.records().len(), count);
        assert_eq!(converter.state(), DriverState::Completed);
    }
}

#[test]
fn points_with_name_and_pop_come_out_as_they_went_in() {
    let inputs = [("Oslo", 709_000.0), ("Bergen", 289_330.0), ("", 0.0), ("Tromsø", 77_544.5)];
    let features: Vec<Feature> = inputs
        .iter()
        .enumerate()
        .map(|(i, (name, pop))| {
            let properties = PropertyMap::new()
                .insert(String::from("name"), text(name))
                .insert(String::from("pop"), number(*pop));
            point(i as f64, -(i as f64), properties)
        })
        .collect();
    let mut converter = FeatureCollectionToShpConverter::new(document(features)).unwrap();
    assert_eq!(converter.write_shapefile(), Ok(()));
    assert_eq!(converter.records().len(), inputs.len());
    assert_eq!(converter.shapes().len(), inputs.len());
    for (i, (name, pop)) in inputs.iter().enumerate() {
        assert_eq!(
            values(&converter, i),
            vec![
                FieldValue::Character(String::from(*name)),
                FieldValue::Numeric(Some(pop.to_bits())),
            ]
        );
        assert_eq!(converter.shapes()[i], Shape::Point(vertex(i as f64, -(i as f64))));
    }
}

#[test]
fn an_unsupported_property_in_the_first_feature_is_refused_before_any_output() {
    for (value, kind) in [
        (PropertyValue::Array, ValueKind::Array),
        (PropertyValue::Boolean, ValueKind::Boolean),
        (PropertyValue::Null, ValueKind::Null),
    ] {
        let first = tagged(1.0, "a").insert(String::from("extra"), value);
        let features = vec![point(0.0, 0.0, first), point(1.0, 1.0, tagged(2.0, "b"))];
        assert_eq!(
            FeatureCollectionToShpConverter::new(document(features)).err(),
            Some(ConvertError::UnsupportedAttributeType { attribute: String::from("extra"), kind })
        );
    }
}

#[test]
fn an_unsupported_value_in_a_column_of_a_later_feature_fails_the_run() {
    let second = PropertyMap::new()
        .insert(String::from("id"), PropertyValue::Null)
        .insert(String::from("name"), text("b"));
    let features = vec![
        point(0.0, 0.0, tagged(1.0, "a")),
        point(1.0, 1.0, second),
        point(2.0, 2.0, tagged(3.0, "c")),
    ];
    let mut converter = FeatureCollectionToShpConverter::new(document(features)).unwrap();
    assert_eq!(
        converter.write_shapefile(),
        Err(ConvertError::AttributeTypeMismatch {
            feature_index: 1,
            column: String::from("id"),
            expected: ColumnKind::Numeric,
            actual: ValueKind::Null,
        })
    );
    assert_eq!(converter.state(), DriverState::Failed);
    assert_eq!(converter.shapes().len(), 2);
    assert_eq!(converter.records().len(), 1);
}

#[test]
fn an_unsupported_value_under_a_new_name_in_a_later_feature_fails_the_run() {
    for (value, kind) in [
        (PropertyValue::Array, ValueKind::Array),
        (PropertyValue::Boolean, ValueKind::Boolean),
        (PropertyValue::Null, ValueKind::Null),
        (PropertyValue::Object, ValueKind::Object),
    ] {
        let first = PropertyMap::new().insert(String::from("id"), number(1.0));
        let second = PropertyMap::new()
            .insert(String::from("id"), number(2.0))
            .insert(String::from("tags"), value);
        let third = PropertyMap::new().insert(String::from("id"), number(3.0));
        let features =
            vec![point(0.0, 0.0, first), point(1.0, 1.0, second), point(2.0, 2.0, third)];
        let mut converter = FeatureCollectionToShpConverter::new(document(features)).unwrap();
        assert_eq!(
            converter.write_shapefile(),
            Err(ConvertError::UnsupportedAttributeType { attribute: String::from("tags"), kind })
        );
        assert_eq!(converter.state(), DriverState::Failed);
        assert_eq!(converter.shapes().len(), 2);
        assert_eq!(converter.records().len(), 1);
        assert_eq!(values(&converter, 0), vec![FieldValue::Numeric(Some(1.0f64.to_bits()))]);
    }
}

#[test]
fn a_later_feature_that_only_adds_a_number_or_a_string_converts() {
    let second = tagged(2.0, "b")
        .insert(String::from("title"), text("x"))
        .insert(String::from("rank"), number(7.0));
    let features = vec![point(0.0, 0.0, tagged(1.0, "a")), point(1.0, 1.0, second)];
    let mut converter = FeatureCollectionToShpConverter::new(document(features)).unwrap();
    assert_eq!(converter.write_shapefile(), Ok(()));
    assert_eq!(converter.records().len(), 2);
    assert_eq!(
        values(&converter, 1),
        vec![FieldValue::Numeric(Some(2.0f64.to_bits())), FieldValue::Character(String::from("b"))]
    );
}

#[test]
fn a_second_feature_with_another_attribute_name_fails_with_missing_attribute() {
    let second = PropertyMap::new()
        .insert(String::from("id"), number(2.0))
        .insert(String::from("title"), text("b"));
    let features = vec![point(0.0, 0.0, tagged(1.0, "a")), point(1.0, 1.0, second)];
    let mut converter = FeatureCollectionToShpConverter::new(document(features)).unwrap();
    assert_eq!(
        converter.write_shapefile(),
        Err(ConvertError::MissingAttribute { feature_index: 1, column: String::from("name") })
    );
    assert_eq!(converter.shapes().len(), 2);
    assert_eq!(converter.records().len(), 1);
    assert_eq!(values(&converter, 0)[1], FieldValue::Character(String::from("a")));
}

#[test]
fn a_polygon_fails_with_unsupported_geometry_and_leaves_no_shape() {
    let features = vec![
        point(0.0, 0.0, tagged(1.0, "a")),
        point(1.0, 1.0, tagged(2.0, "b")),
        Feature { geometry: Some(Geometry::Polygon), properties: Some(tagged(3.0, "c")) },
        point(3.0, 3.0, tagged(4.0, "d")),
    ];
    let mut converter = FeatureCollectionToShpConverter::new(document(features)).unwrap();
    assert_eq!(
        converter.write_shapefile(),
        Err(ConvertError::UnsupportedGeometryType { feature_index: 2, kind: GeometryKind::Polygon })
    );
    assert_eq!(
        converter.shapes(),
        &vec![Shape::Point(vertex(0.0, 0.0)), Shape::Point(vertex(1.0, 1.0))]
    );
    assert_eq!(converter.records().len(), 2);
    assert_eq!(converter.state(), DriverState::Failed);
}

#[test]
fn every_unsupported_kind_of_geometry_fails_the_run() {
    for (geometry, kind) in [
        (Geometry::MultiPoint, GeometryKind::MultiPoint),
        (Geometry::MultiLineString, GeometryKind::MultiLineString),
        (Geometry::Polygon, GeometryKind::Polygon),
        (Geometry::MultiPolygon, GeometryKind::MultiPolygon),
        (Geometry::GeometryCollection, GeometryKind::GeometryCollection),
    ] {
        let features = vec![
            point(0.0, 0.0, tagged(1.0, "a")),
            Feature { geometry: Some(geometry), properties: Some(tagged(2.0, "b")) },
        ];
        let mut converter = FeatureCollectionToShpConverter::new(document(features)).unwrap();
        assert_eq!(
            converter.write_shapefile(),
            Err(ConvertError::UnsupportedGeometryType { feature_index: 1, kind })
        );
        assert_eq!(converter.shapes().len(), 1);
        assert_eq!(converter.records().len(), 1);
    }
}

#[test]
fn a_feature_without_geometry_fails_the_run() {
    let features = vec![Feature { geometry: None, properties: Some(tagged(1.0, "a")) }];
    let mut converter = FeatureCollectionToShpConverter::new(document(features)).unwrap();
    assert_eq!(
        converter.write_shapefile(),
        Err(ConvertError::MissingGeometry { feature_index: 0 })
    );
    assert_eq!(converter.shapes().len(), 0);
    assert_eq!(converter.records().len(), 0);
}

#[test]
fn a_second_run_writes_nothing_more_and_ends_as_the_first() {
    let features = vec![point(1.0, 2.0, tagged(1.0, "a")), point(3.0, 4.0, tagged(2.0, "b"))];
    let mut converter = FeatureCollectionToShpConverter::new(document(features)).unwrap();
    assert_eq!(converter.write_shapefile(), Ok(()));
    assert_eq!(converter.write_shapefile(), Ok(()));
    assert_eq!(converter.shapes().len(), 2);
    assert_eq!(converter.records().len(), 2);

    let features = vec![point(1.0, 2.0, tagged(1.0, "a")), Feature { geometry: None, properties: None }];
    let mut failing = FeatureCollectionToShpConverter::new(document(features)).unwrap();
    let error = ConvertError::MissingGeometry { feature_index: 1 };
    assert_eq!(failing.write_shapefile(), Err(error.clone()));
    assert_eq!(failing.write_shapefile(), Err(error));
    assert_eq!(failing.shapes().len(), 1);
    assert_eq!(failing.records().len(), 1);
}

#[test]
fn a_line_string_is_written_as_a_polyline_with_its_vertices() {
    let line = vec![at(0.0, 0.0), at(1.0, 1.0), at(2.0, 0.0)];
    let features = vec![Feature {
        geometry: Some(Geometry::LineString(line)),
        properties: Some(tagged(1.0, "a")),
    }];
    let mut converter = FeatureCollectionToShpConverter::new(document(features)).unwrap();
    assert_eq!(converter.write_shapefile(), Ok(()));
    assert_eq!(
        converter.shapes(),
        &vec![Shape::Polyline(vec![vertex(0.0, 0.0), vertex(1.0, 1.0), vertex(2.0, 0.0)])]
    );
}

#[test]
fn a_document_that_is_no_collection_loads_no_converter() {
    assert_eq!(
        FeatureCollectionToShpConverter::new(Document::Geometry).err(),
        Some(ConvertError::ParseError)
    );
    assert_eq!(
        FeatureCollectionToShpConverter::new(document(vec![])).err(),
        Some(ConvertError::EmptyCollection)
    );
}
