use geojson_to_shp::error::ConvertError;
use geojson_to_shp::geometry::{Geometry, GeometryKind, Position};
use geojson_to_shp::shape::{transcode_geometry, Shape, Vertex};

fn at(x: f64, y: f64) -> Position {
    Position::new(x.to_bits(), y.to_bits())
}

fn vertex(x: f64, y: f64) -> Vertex {
    Vertex { x: x.to_bits(), y: y.to_bits() }
}

#[test]
fn every_geometry_reports_its_kind() {
    assert_eq!(Geometry::Point(at(0.0, 0.0)).kind(), GeometryKind::Point);
    assert_eq!(Geometry::LineString(vec![]).kind(), GeometryKind::LineString);
    assert_eq!(Geometry::MultiPoint.kind(), GeometryKind::MultiPoint);
    assert_eq!(Geometry::MultiLineString.kind(), GeometryKind::MultiLineString);
    assert_eq!(Geometry::Polygon.kind(), GeometryKind::Polygon);
    assert_eq!(Geometry::MultiPolygon.kind(), GeometryKind::MultiPolygon);
    assert_eq!(Geometry::GeometryCollection.kind(), GeometryKind::GeometryCollection);
}

#[test]
fn a_point_becomes_a_point_shape_at_the_same_place() {
    let shape = transcode_geometry(0, &Some(Geometry::Point(at(1.0, 2.0)))).unwrap();
    assert_eq!(shape, Shape::Point(vertex(1.0, 2.0)));
    match shape {
        Shape::Point(place) => {
            assert_eq!(f64::from_bits(place.x), 1.0);
            assert_eq!(f64::from_bits(place.y), 2.0);
        }
        Shape::Polyline(_) => panic!("a point became a polyline"),
    }
}

#[test]
fn ordinates_pass_through_bit_for_bit() {
    let odd = Position::new(f64::NAN.to_bits() | 1, (-0.0f64).to_bits());
    assert_eq!(
        transcode_geometry(3, &Some(Geometry::Point(odd))),
        Ok(Shape::Point(Vertex { x: f64::NAN.to_bits() | 1, y: (-0.0f64).to_bits() }))
    );
    let extremes = Position::new(u64::MAX, 0);
    assert_eq!(
        transcode_geometry(3, &Some(Geometry::Point(extremes))),
        Ok(Shape::Point(Vertex { x: u64::MAX, y: 0 }))
    );
}

#[test]
fn a_line_string_becomes_a_polyline_with_the_same_vertices() {
    let line = vec![at(0.0, 0.0), at(1.5, -2.0), at(3.0, 4.0), at(0.0, 0.0)];
    let shape = transcode_geometry(5, &Some(Geometry::LineString(line))).unwrap();
    match shape {
        Shape::Polyline(vertices) => {
            assert_eq!(vertices.len(), 4);
            assert_eq!(
                vertices,
                vec![vertex(0.0, 0.0), vertex(1.5, -2.0), vertex(3.0, 4.0), vertex(0.0, 0.0)]
            );
        }
        Shape::Point(_) => panic!("a line string became a point"),
    }
}

#[test]
fn a_line_string_of_two_points_becomes_a_polyline_of_two_vertices() {
    let line = vec![at(1.0, 1.0), at(2.0, 2.0)];
    assert_eq!(
        transcode_geometry(0, &Some(Geometry::LineString(line))),
        Ok(Shape::Polyline(vec![vertex(1.0, 1.0), vertex(2.0, 2.0)]))
    );
}

#[test]
fn a_degenerate_line_string_passes_through() {
    assert_eq!(
        transcode_geometry(0, &Some(Geometry::LineString(vec![]))),
        Ok(Shape::Polyline(vec![]))
    );
    assert_eq!(
        transcode_geometry(0, &Some(Geometry::LineString(vec![at(9.0, 8.0)]))),
        Ok(Shape::Polyline(vec![vertex(9.0, 8.0)]))
    );
}

#[test]
fn heights_and_measures_are_dropped() {
    let high = Position { x: 1.0f64.to_bits(), y: 2.0f64.to_bits(), rest: vec![300.0f64.to_bits()] };
    assert_eq!(
        transcode_geometry(0, &Some(Geometry::Point(high.clone()))),
        Ok(Shape::Point(vertex(1.0, 2.0)))
    );
    let measured = Position {
        x: 3.0f64.to_bits(),
        y: 4.0f64.to_bits(),
        rest: vec![5.0f64.to_bits(), 6.0f64.to_bits()],
    };
    assert_eq!(
        transcode_geometry(0, &Some(Geometry::LineString(vec![high, measured, at(7.0, 8.0)]))),
        Ok(Shape::Polyline(vec![vertex(1.0, 2.0), vertex(3.0, 4.0), vertex(7.0, 8.0)]))
    );
}

#[test]
fn a_missing_geometry_is_an_error_that_names_the_feature() {
    assert_eq!(
        transcode_geometry(4, &None),
        Err(ConvertError::MissingGeometry { feature_index: 4 })
    );
}

#[test]
fn geometries_of_other_kinds_are_refused_by_kind_and_feature() {
    let cases = [
        (Geometry::MultiPoint, GeometryKind::MultiPoint),
        (Geometry::MultiLineString, GeometryKind::MultiLineString),
        (Geometry::Polygon, GeometryKind::Polygon),
        (Geometry::MultiPolygon, GeometryKind::MultiPolygon),
        (Geometry::GeometryCollection, GeometryKind::GeometryCollection),
    ];
    for (index, (geometry, kind)) in cases.into_iter().enumerate() {
        assert_eq!(
            transcode_geometry(index, &Some(geometry)),
            Err(ConvertError::UnsupportedGeometryType { feature_index: index, kind })
        );
    }
}
