use geojson::{GeoJson, GeometryValue};
use geojson_to_shp::converter::FeatureCollectionToShpConverter;
use geojson_to_shp::error::ConvertError;
use geojson_to_shp::feature::{Document, Feature, FeatureCollection};
use geojson_to_shp::geometry::{Geometry, GeometryKind, Position};
use geojson_to_shp::property::{PropertyMap, PropertyValue, ValueKind};
use geojson_to_shp::record::FieldValue;
use geojson_to_shp::schema::ColumnKind;
use geojson_to_shp::shape::{Shape, Vertex};

fn place(position: &geojson::Position) -> Position {
    Position {
        x: position[0].to_bits(),
        y: position[1].to_bits(),
        rest: position.as_slice()[2..].iter().map(|ordinate| ordinate.to_bits()).collect(),
    }
}

fn vertex(x: f64, y: f64) -> Vertex {
    Vertex { x: x.to_bits(), y: y.to_bits() }
}

fn geometry(value: &GeometryValue) -> Geometry {
    match value {
        GeometryValue::Point { coordinates } => Geometry::Point(place(coordinates)),
        GeometryValue::LineString { coordinates } => {
            Geometry::LineString(coordinates.iter().map(place).collect())
        }
        GeometryValue::MultiPoint { .. } => Geometry::MultiPoint,
        GeometryValue::MultiLineString { .. } => Geometry::MultiLineString,
        GeometryValue::Polygon { .. } => Geometry::Polygon,
        GeometryValue::MultiPolygon { .. } => Geometry::MultiPolygon,
        GeometryValue::GeometryCollection { .. } => Geometry::GeometryCollection,
    }
}

fn value(json: &serde_json::Value) -> PropertyValue {
    match json {
        serde_json::Value::Number(number) => {
            PropertyValue::Number(number.as_f64().map(f64::to_bits))
        }
        serde_json::Value::String(text) => PropertyValue::Text(text.clone()),
        serde_json::Value::Array(_) => PropertyValue::Array,
        serde_json::Value::Object(_) => PropertyValue::Object,
        serde_json::Value::Bool(_) => PropertyValue::Boolean,
        serde_json::Value::Null => PropertyValue::Null,
    }
}

fn document(text: &str) -> Document {
    match text.parse::<GeoJson>().unwrap() {
        GeoJson::Geometry(_) => Document::Geometry,
        GeoJson::Feature(_) => Document::Feature,
        GeoJson::FeatureCollection(collection) => {
            let features = collection
                .features
                .iter()
                .map(|feature| Feature {
                    geometry: feature.geometry.as_ref().map(|found| geometry(&found.value)),
                    properties: feature.properties.as_ref().map(|object| {
                        let mut map = PropertyMap::new();
                        for (name, json) in object.iter() {
                            map = map.insert(name.clone(), value(json));
                        }
                        map
                    }),
                })
                .collect();
            Document::FeatureCollection(FeatureCollection { features })
        }
    }
}

#[test]
fn the_two_point_document_converts_to_two_shapes_and_two_records() {
    let text = r#"{"type":"FeatureCollection","features":[{"type":"Feature","geometry":{"type":"Point","coordinates":[1.0,2.0]},"properties":{"id":1,"name":"a"}},{"type":"Feature","geometry":{"type":"Point","coordinates":[3.0,4.0]},"properties":{"id":2,"name":"b"}}]}"#;
    let mut converter = FeatureCollectionToShpConverter::new(document(text)).unwrap();
    assert_eq!(converter.write_shapefile(), Ok(()));

    let schema = converter.schema();
    assert_eq!(schema.len(), 2);
    assert_eq!((schema.column(0).name().as_str(), schema.column(0).kind()), ("id", ColumnKind::Numeric));
    assert_eq!((schema.column(1).name().as_str(), schema.column(1).kind()), ("name", ColumnKind::Text));

    assert_eq!(
        converter.shapes(),
        &vec![Shape::Point(vertex(1.0, 2.0)), Shape::Point(vertex(3.0, 4.0))]
    );

    let records = converter.records();
    assert_eq!(records.len(), 2);
    assert_eq!(records[0].value(0), &FieldValue::Numeric(Some(1.0f64.to_bits())));
    assert_eq!(records[0].value(1), &FieldValue::Character(String::from("a")));
    assert_eq!(records[1].value(0), &FieldValue::Numeric(Some(2.0f64.to_bits())));
    assert_eq!(records[1].value(1), &FieldValue::Character(String::from("b")));
}

#[test]
fn columns_follow_the_order_of_the_document_and_not_the_alphabet() {
    let text = r#"{"type":"FeatureCollection","features":[{"type":"Feature","geometry":{"type":"Point","coordinates":[0,0]},"properties":{"zeta":"z","alpha":1,"mid":"m"}}]}"#;
    let mut converter = FeatureCollectionToShpConverter::new(document(text)).unwrap();
    assert_eq!(converter.write_shapefile(), Ok(()));
    let schema = converter.schema();
    let names: Vec<&str> = (0..schema.len()).map(|i| schema.column(i).name().as_str()).collect();
    assert_eq!(names, vec!["zeta", "alpha", "mid"]);
}

#[test]
fn a_bare_feature_document_is_a_parse_error() {
    let text = r#"{"type":"Feature","geometry":{"type":"Point","coordinates":[1.0,2.0]},"properties":{"id":1}}"#;
    assert_eq!(
        FeatureCollectionToShpConverter::new(document(text)).err(),
        Some(ConvertError::ParseError)
    );
}

#[test]
fn a_bare_geometry_document_is_a_parse_error() {
    let text = r#"{"type":"Point","coordinates":[1.0,2.0]}"#;
    assert_eq!(
        FeatureCollectionToShpConverter::new(document(text)).err(),
        Some(ConvertError::ParseError)
    );
}

#[test]
fn a_polygon_in_a_document_fails_with_unsupported_geometry() {
    let text = r#"{"type":"FeatureCollection","features":[{"type":"Feature","geometry":{"type":"Point","coordinates":[1.0,2.0]},"properties":{"id":1}},{"type":"Feature","geometry":{"type":"Polygon","coordinates":[[[0,0],[1,0],[1,1],[0,0]]]},"properties":{"id":2}}]}"#;
    let mut converter = FeatureCollectionToShpConverter::new(document(text)).unwrap();
    assert_eq!(
        converter.write_shapefile(),
        Err(ConvertError::UnsupportedGeometryType { feature_index: 1, kind: GeometryKind::Polygon })
    );
    assert_eq!(converter.shapes().len(), 1);
    assert_eq!(converter.records().len(), 1);
}

#[test]
fn an_array_in_a_later_feature_fails_the_run_whatever_its_name() {
    let text = r#"{"type":"FeatureCollection","features":[{"type":"Feature","geometry":{"type":"Point","coordinates":[1.0,2.0]},"properties":{"id":1}},{"type":"Feature","geometry":{"type":"Point","coordinates":[3.0,4.0]},"properties":{"id":2,"tags":["a","b"]}}]}"#;
    let mut converter = FeatureCollectionToShpConverter::new(document(text)).unwrap();
    assert_eq!(
        converter.write_shapefile(),
        Err(ConvertError::UnsupportedAttributeType {
            attribute: String::from("tags"),
            kind: ValueKind::Array,
        })
    );
    assert_eq!(converter.shapes().len(), 2);
    assert_eq!(converter.records().len(), 1);
}

#[test]
fn null_geometry_and_null_properties_are_missing() {
    let text = r#"{"type":"FeatureCollection","features":[{"type":"Feature","geometry":{"type":"Point","coordinates":[1.0,2.0]},"properties":{"id":1}},{"type":"Feature","geometry":null,"properties":null}]}"#;
    let mut converter = FeatureCollectionToShpConverter::new(document(text)).unwrap();
    assert_eq!(
        converter.write_shapefile(),
        Err(ConvertError::MissingGeometry { feature_index: 1 })
    );
}

#[test]
fn a_line_string_in_a_document_keeps_its_vertices_and_drops_heights() {
    let text = r#"{"type":"FeatureCollection","features":[{"type":"Feature","geometry":{"type":"LineString","coordinates":[[0.5,1.5,9.0],[2.5,3.5,9.0],[4.5,5.5,9.0]]},"properties":{"id":1}}]}"#;
    let mut converter = FeatureCollectionToShpConverter::new(document(text)).unwrap();
    assert_eq!(converter.write_shapefile(), Ok(()));
    assert_eq!(
        converter.shapes(),
        &vec![Shape::Polyline(vec![vertex(0.5, 1.5), vertex(2.5, 3.5), vertex(4.5, 5.5)])]
    );
}
