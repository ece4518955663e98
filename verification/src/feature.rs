//! Features, feature collections and the documents that hold them.

use crate::geometry::{Geometry, GeometryModel};
use crate::property::{PropertiesModel, PropertyMap};
use crate::views::option_view;
use vstd::prelude::*;

verus! {

/// One feature: a geometry and a set of properties, either of which the
/// document may have left out.
#[derive(Debug, PartialEq, Eq)]
pub struct Feature {
    pub geometry: Option<Geometry>,
    pub properties: Option<PropertyMap>,
}

/// The mathematical content of a [`Feature`].
pub struct FeatureModel {
    pub geometry: Option<GeometryModel>,
    pub properties: Option<PropertiesModel>,
}

impl View for Feature {
    type V = FeatureModel;

    open spec fn view(&self) -> FeatureModel {
        FeatureModel {
            geometry: option_view(self.geometry),
            properties: option_view(self.properties),
        }
    }
}

impl Clone for Feature {
    fn clone(&self) -> (copy: Self)
        ensures
            copy@ == self@,
    {
        let geometry = match &self.geometry {
            Some(geometry) => Some(geometry.clone()),
            None => None,
        };
        let properties = match &self.properties {
            Some(properties) => Some(properties.clone()),
            None => None,
        };
        Feature { geometry, properties }
    }
}

/// The features of a document, in the document's order.
#[derive(Debug, PartialEq, Eq)]
pub struct FeatureCollection {
    pub features: Vec<Feature>,
}

/// The mathematical content of a [`FeatureCollection`].
pub type FeaturesModel = Seq<FeatureModel>;

impl View for FeatureCollection {
    type V = FeaturesModel;

    open spec fn view(&self) -> FeaturesModel {
        Seq::new(self.features@.len(), |i: int| self.features@[i]@)
    }
}

impl Clone for FeatureCollection {
    fn clone(&self) -> (copy: Self)
        ensures
            copy@ == self@,
    {
        let mut features: Vec<Feature> = Vec::new();
        let mut i: usize = 0;
        while i < self.features.len()
            invariant
                i <= self.features@.len(),
                features@.len() == i,
                forall|j: int| 0 <= j < i ==> (#[trigger] features@[j])@ == self.features@[j]@,
            decreases self.features@.len() - i,
        {
            features.push(self.features[i].clone());
            i += 1;
        }
        let copy = FeatureCollection { features };
        assert(copy@ =~= self@);
        copy
    }
}

/// A parsed document, by what stands at its root.
#[derive(Debug, PartialEq, Eq)]
pub enum Document {
    /// A bare geometry.
    Geometry,
    /// A bare feature.
    Feature,
    /// A feature collection: the one root that can be converted.
    FeatureCollection(FeatureCollection),
}

/// The mathematical content of a [`Document`].
pub enum DocumentModel {
    Geometry,
    Feature,
    FeatureCollection(FeaturesModel),
}

impl View for Document {
    type V = DocumentModel;

    open spec fn view(&self) -> DocumentModel {
        match self {
            Document::Geometry => DocumentModel::Geometry,
            Document::Feature => DocumentModel::Feature,
            Document::FeatureCollection(collection) => DocumentModel::FeatureCollection(
                collection@,
            ),
        }
    }
}

impl Clone for Document {
    fn clone(&self) -> (copy: Self)
        ensures
            copy@ == self@,
    {
        match self {
            Document::Geometry => Document::Geometry,
            Document::Feature => Document::Feature,
            Document::FeatureCollection(collection) => Document::FeatureCollection(
                collection.clone(),
            ),
        }
    }
}

} // verus!
