//! Conversion of GeoJSON feature collections into the records of an ESRI
//! shapefile: a geometry stream, its index, and a dBase attribute table.
//!
//! The crate holds the decisions of a conversion: which columns the attribute
//! table gets ([`schema`]), which shape each geometry becomes ([`shape`]),
//! which record each feature yields ([`record`]), and in which order things
//! are written and when a run stops ([`writer`]). Reading the document and
//! writing the three files is left to the caller, who hands over a parsed
//! [`feature::Document`] and performs the writes that the driver asks for;
//! [`converter`] runs a whole conversion against sinks held in memory, and
//! [`table`] sets up the dBase writer with the columns of a schema.
//!
//! Numbers and ordinates are carried as the bit patterns of their IEEE 754
//! binary64 values, so that they pass through unchanged.
//!
//! Every executable function has a contract over the mathematical content of
//! its arguments, each type's `view`; [`runs`] proves what follows for whole
//! runs.

pub mod cli;
pub mod converter;
pub mod error;
pub mod feature;
pub mod geometry;
pub mod property;
pub mod record;
pub mod runs;
pub mod schema;
pub mod shape;
pub mod table;
pub mod views;
pub mod writer;

pub use crate::cli::Cli;
pub use crate::converter::FeatureCollectionToShpConverter;
pub use crate::writer::FeatureCollectionToShpWriter;
