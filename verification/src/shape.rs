//! Shapes, and the transcoding of geometries into them.

use crate::error::{ConvertError, ErrorModel};
use crate::geometry::{positions_model, Geometry, GeometryModel, Position, PositionModel};
use crate::views::{option_view, result_view};
use vstd::prelude::*;

verus! {

/// A place in the plane. Each ordinate is the bit pattern of an IEEE 754
/// binary64 value.
#[derive(Clone, Copy, Debug, PartialEq, Eq, Structural)]
pub struct Vertex {
    pub x: u64,
    pub y: u64,
}

/// One record of the geometry stream.
#[derive(Debug, PartialEq, Eq)]
pub enum Shape {
    /// A single point.
    Point(Vertex),
    /// A polyline of one part, by its vertices in order.
    Polyline(Vec<Vertex>),
}

/// The mathematical content of a [`Shape`].
pub enum ShapeModel {
    Point(Vertex),
    Polyline(Seq<Vertex>),
}

impl View for Shape {
    type V = ShapeModel;

    open spec fn view(&self) -> ShapeModel {
        match self {
            Shape::Point(place) => ShapeModel::Point(*place),
            Shape::Polyline(places) => ShapeModel::Polyline(places@),
        }
    }
}

impl Clone for Shape {
    fn clone(&self) -> (copy: Self)
        ensures
            copy@ == self@,
    {
        match self {
            Shape::Point(place) => Shape::Point(*place),
            Shape::Polyline(places) => {
                let mut copies: Vec<Vertex> = Vec::new();
                let mut i: usize = 0;
                while i < places.len()
                    invariant
                        i <= places@.len(),
                        copies@ == places@.take(i as int),
                    decreases places@.len() - i,
                {
                    copies.push(places[i]);
                    assert(copies@ =~= places@.take(i as int + 1));
                    i += 1;
                }
                assert(places@.take(i as int) =~= places@);
                Shape::Polyline(copies)
            },
        }
    }
}

impl PositionModel {
    /// The place in the plane: the first two ordinates, unchanged. What
    /// follows them is dropped.
    pub open spec fn vertex(self) -> Vertex {
        Vertex { x: self.x, y: self.y }
    }
}

/// The places in the plane of the positions, in order.
pub open spec fn vertices(positions: Seq<PositionModel>) -> Seq<Vertex> {
    Seq::new(positions.len(), |i: int| positions[i].vertex())
}

/// The shape of a feature's geometry. A point becomes a point shape at the
/// same place in the plane; a line string becomes a polyline with the same
/// places as vertices, in the same order, however few they are. Heights and
/// measures are dropped. A feature without geometry, or with a geometry of
/// any other kind, has no shape: the error names the feature.
pub open spec fn transcoded(feature_index: nat, geometry: Option<GeometryModel>) -> Result<
    ShapeModel,
    ErrorModel,
> {
    match geometry {
        None => Err(ErrorModel::MissingGeometry { feature_index }),
        Some(GeometryModel::Point(position)) => Ok(ShapeModel::Point(position.vertex())),
        Some(GeometryModel::LineString(positions)) => Ok(
            ShapeModel::Polyline(vertices(positions)),
        ),
        Some(other) => Err(
            ErrorModel::UnsupportedGeometryType { feature_index, kind: other.kind() },
        ),
    }
}

/// The places in the plane of the positions, in order.
fn planar(positions: &Vec<Position>) -> (places: Vec<Vertex>)
    ensures
        places@ == vertices(positions_model(positions@)),
{
    let mut places: Vec<Vertex> = Vec::new();
    let mut i: usize = 0;
    while i < positions.len()
        invariant
            i <= positions@.len(),
            places@.len() == i,
            forall|j: int| 0 <= j < i ==> #[trigger] places@[j] == positions@[j]@.vertex(),
        decreases positions@.len() - i,
    {
        places.push(Vertex { x: positions[i].x, y: positions[i].y });
        i += 1;
    }
    assert(places@ =~= vertices(positions_model(positions@)));
    places
}

/// Transcodes the geometry of the feature at `feature_index` into its shape.
///
/// The first two ordinates of each position pass through bit for bit, and
/// what follows them is dropped. A line string of fewer than two positions is
/// passed through like any other: whether the geometry sink takes such a
/// polyline is the sink's to say.
pub fn transcode_geometry(feature_index: usize, geometry: &Option<Geometry>) -> (shape: Result<
    Shape,
    ConvertError,
>)
    ensures
        result_view(shape) == transcoded(feature_index as nat, option_view(*geometry)),
        geometry matches Some(Geometry::Point(position)) ==> shape matches Ok(Shape::Point(place))
            && place.x == position.x && place.y == position.y,
        geometry matches Some(Geometry::LineString(positions)) ==> shape matches Ok(
            Shape::Polyline(places),
        ) && places@.len() == positions@.len() && forall|i: int|
            0 <= i < places@.len() ==> (#[trigger] places@[i]).x == positions@[i].x && places@[i].y
                == positions@[i].y,
        shape is Err <==> !(geometry matches Some(found) && (found is Point
            || found is LineString)),
{
    match geometry {
        None => Err(ConvertError::MissingGeometry { feature_index }),
        Some(Geometry::Point(position)) => Ok(
            Shape::Point(Vertex { x: position.x, y: position.y }),
        ),
        Some(Geometry::LineString(positions)) => Ok(Shape::Polyline(planar(positions))),
        Some(other) => Err(
            ConvertError::UnsupportedGeometryType { feature_index, kind: other.kind() },
        ),
    }
}

} // verus!
