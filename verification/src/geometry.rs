//! Geometries as the parsed document delivers them.

use vstd::prelude::*;

verus! {

/// A position as the document gives it: two ordinates, and whatever follows
/// them there (a height, a measure). Each ordinate is the bit pattern of an
/// IEEE 754 binary64 value, so that it is carried through bit for bit.
#[derive(Debug, PartialEq, Eq)]
pub struct Position {
    pub x: u64,
    pub y: u64,
    pub rest: Vec<u64>,
}

/// The mathematical content of a [`Position`].
pub struct PositionModel {
    pub x: u64,
    pub y: u64,
    pub rest: Seq<u64>,
}

impl View for Position {
    type V = PositionModel;

    open spec fn view(&self) -> PositionModel {
        PositionModel { x: self.x, y: self.y, rest: self.rest@ }
    }
}

impl Position {
    /// The position in the plane at `x` and `y`.
    pub fn new(x: u64, y: u64) -> (position: Position)
        ensures
            position@ == (PositionModel { x, y, rest: Seq::empty() }),
    {
        Position { x, y, rest: Vec::new() }
    }
}

impl Clone for Position {
    fn clone(&self) -> (copy: Self)
        ensures
            copy@ == self@,
    {
        let mut rest: Vec<u64> = Vec::new();
        let mut i: usize = 0;
        while i < self.rest.len()
            invariant
                i <= self.rest@.len(),
                rest@ == self.rest@.take(i as int),
            decreases self.rest@.len() - i,
        {
            rest.push(self.rest[i]);
            assert(rest@ =~= self.rest@.take(i as int + 1));
            i += 1;
        }
        assert(self.rest@.take(i as int) =~= self.rest@);
        Position { x: self.x, y: self.y, rest }
    }
}

/// The content of stored positions.
pub open spec fn positions_model(positions: Seq<Position>) -> Seq<PositionModel> {
    Seq::new(positions.len(), |i: int| positions[i]@)
}

/// The kinds of geometry that a document can hold.
#[derive(Clone, Copy, Debug, PartialEq, Eq, Structural)]
pub enum GeometryKind {
    Point,
    MultiPoint,
    LineString,
    MultiLineString,
    Polygon,
    MultiPolygon,
    GeometryCollection,
}

/// One geometry. Points and line strings carry their positions; the other
/// kinds are kept as tags, since they are told apart and then refused.
#[derive(Debug, PartialEq, Eq)]
pub enum Geometry {
    Point(Position),
    LineString(Vec<Position>),
    MultiPoint,
    MultiLineString,
    Polygon,
    MultiPolygon,
    GeometryCollection,
}

/// The mathematical content of a [`Geometry`].
pub enum GeometryModel {
    Point(PositionModel),
    LineString(Seq<PositionModel>),
    MultiPoint,
    MultiLineString,
    Polygon,
    MultiPolygon,
    GeometryCollection,
}

impl GeometryModel {
    /// The kind that tags this geometry.
    pub open spec fn kind(self) -> GeometryKind {
        match self {
            GeometryModel::Point(_) => GeometryKind::Point,
            GeometryModel::LineString(_) => GeometryKind::LineString,
            GeometryModel::MultiPoint => GeometryKind::MultiPoint,
            GeometryModel::MultiLineString => GeometryKind::MultiLineString,
            GeometryModel::Polygon => GeometryKind::Polygon,
            GeometryModel::MultiPolygon => GeometryKind::MultiPolygon,
            GeometryModel::GeometryCollection => GeometryKind::GeometryCollection,
        }
    }
}

impl View for Geometry {
    type V = GeometryModel;

    open spec fn view(&self) -> GeometryModel {
        match self {
            Geometry::Point(position) => GeometryModel::Point(position@),
            Geometry::LineString(positions) => GeometryModel::LineString(
                positions_model(positions@),
            ),
            Geometry::MultiPoint => GeometryModel::MultiPoint,
            Geometry::MultiLineString => GeometryModel::MultiLineString,
            Geometry::Polygon => GeometryModel::Polygon,
            Geometry::MultiPolygon => GeometryModel::MultiPolygon,
            Geometry::GeometryCollection => GeometryModel::GeometryCollection,
        }
    }
}

impl Geometry {
    /// The kind that tags this geometry.
    pub fn kind(&self) -> (kind: GeometryKind)
        ensures
            kind == self@.kind(),
    {
        match self {
            Geometry::Point(_) => GeometryKind::Point,
            Geometry::LineString(_) => GeometryKind::LineString,
            Geometry::MultiPoint => GeometryKind::MultiPoint,
            Geometry::MultiLineString => GeometryKind::MultiLineString,
            Geometry::Polygon => GeometryKind::Polygon,
            Geometry::MultiPolygon => GeometryKind::MultiPolygon,
            Geometry::GeometryCollection => GeometryKind::GeometryCollection,
        }
    }
}

impl Clone for Geometry {
    fn clone(&self) -> (copy: Self)
        ensures
            copy@ == self@,
    {
        match self {
            Geometry::Point(position) => Geometry::Point(position.clone()),
            Geometry::LineString(positions) => {
                let mut copies: Vec<Position> = Vec::new();
                let mut i: usize = 0;
                while i < positions.len()
                    invariant
                        i <= positions@.len(),
                        copies@.len() == i,
                        forall|j: int| 0 <= j < i ==> (#[trigger] copies@[j])@ == positions@[j]@,
                    decreases positions@.len() - i,
                {
                    copies.push(positions[i].clone());
                    i += 1;
                }
                assert(positions_model(copies@) =~= positions_model(positions@));
                Geometry::LineString(copies)
            },
            Geometry::MultiPoint => Geometry::MultiPoint,
            Geometry::MultiLineString => Geometry::MultiLineString,
            Geometry::Polygon => Geometry::Polygon,
            Geometry::MultiPolygon => Geometry::MultiPolygon,
            Geometry::GeometryCollection => Geometry::GeometryCollection,
        }
    }
}

} // verus!
