//! A whole conversion run against sinks that are held in memory.

use crate::error::{ConvertError, ErrorModel};
use crate::feature::{Document, DocumentModel};
use crate::record::{Record, RecordModel};
use crate::schema::Schema;
use crate::shape::{Shape, ShapeModel};
use crate::views::result_view;
use crate::writer::{
    opened, Action, DriverState, FeatureCollectionToShpWriter, SinkEvent, SinkEventModel,
    WriterModel,
};
use vstd::prelude::*;

verus! {

/// The mathematical content of a [`FeatureCollectionToShpConverter`].
pub struct ConverterModel {
    /// The driver of the run.
    pub driver: WriterModel,
    /// The shapes that the geometry sink holds, oldest first.
    pub shapes: Seq<ShapeModel>,
    /// The records that the attribute table holds, oldest first.
    pub records: Seq<RecordModel>,
}

impl ConverterModel {
    /// The converter after the rest of its run: the sinks hold what they
    /// held and, after it, what the rest of the run writes.
    pub open spec fn converted(self) -> ConverterModel {
        let rest = self.driver.run();
        ConverterModel {
            driver: rest.end,
            shapes: self.shapes + rest.shapes,
            records: self.records + rest.records,
        }
    }
}

/// Where the driver asks for no more, the run ends there and the sinks keep
/// what they hold.
proof fn lemma_run_of_last_step(converter: ConverterModel)
    requires
        converter.driver.advance(SinkEventModel::Done).1 is Finish || converter.driver.advance(
            SinkEventModel::Done,
        ).1 is Abort,
    ensures
        converter.converted() == (ConverterModel {
            driver: converter.driver.advance(SinkEventModel::Done).0,
            ..converter
        }),
{
    assert(converter.shapes + Seq::<ShapeModel>::empty() =~= converter.shapes);
    assert(converter.records + Seq::<RecordModel>::empty() =~= converter.records);
}

/// The converter that a document starts with: its driver, before empty
/// sinks.
pub open spec fn loaded(document: DocumentModel) -> Result<ConverterModel, ErrorModel> {
    match opened(document) {
        Ok(driver) => Ok(ConverterModel { driver, shapes: Seq::empty(), records: Seq::empty() }),
        Err(error) => Err(error),
    }
}

/// The content of stored shapes.
pub open spec fn shapes_model(shapes: Seq<Shape>) -> Seq<ShapeModel> {
    Seq::new(shapes.len(), |i: int| shapes[i]@)
}

/// The content of stored records.
pub open spec fn records_model(records: Seq<Record>) -> Seq<RecordModel> {
    Seq::new(records.len(), |i: int| records[i]@)
}

/// A conversion whose sinks are two lists in memory: the shapes and the
/// records gather here, in the order of writing, for the caller to read or to
/// write out.
#[derive(Debug, PartialEq, Eq)]
pub struct FeatureCollectionToShpConverter {
    writer: FeatureCollectionToShpWriter,
    shapes: Vec<Shape>,
    records: Vec<Record>,
}

impl View for FeatureCollectionToShpConverter {
    type V = ConverterModel;

    closed spec fn view(&self) -> ConverterModel {
        ConverterModel {
            driver: self.writer@,
            shapes: shapes_model(self.shapes@),
            records: records_model(self.records@),
        }
    }
}

impl FeatureCollectionToShpConverter {
    /// Sets up the conversion of a parsed document, with empty sinks.
    ///
    /// It fails where [`FeatureCollectionToShpWriter::new`] fails, with the
    /// same error.
    pub fn new(document: Document) -> (converter: Result<
        FeatureCollectionToShpConverter,
        ConvertError,
    >)
        ensures
            result_view(converter) == loaded(document@),
            converter matches Ok(made) ==> made@.driver.consistent(),
    {
        match FeatureCollectionToShpWriter::new(document) {
            Err(error) => Err(error),
            Ok(writer) => {
                let converter = FeatureCollectionToShpConverter {
                    writer,
                    shapes: Vec::new(),
                    records: Vec::new(),
                };
                assert(converter@.shapes =~= Seq::empty());
                assert(converter@.records =~= Seq::empty());
                Ok(converter)
            },
        }
    }

    /// Runs the conversion to its end: every shape and every record that the
    /// driver asks for goes to the end of its list, until the driver
    /// finishes or aborts.
    ///
    /// On an error the lists keep what was written before it. A converter
    /// whose run is over writes nothing more, and says again how it ended.
    pub fn write_shapefile(&mut self) -> (outcome: Result<(), ConvertError>)
        ensures
            final(self)@ == old(self)@.converted(),
            final(self)@.driver.is_over(),
            final(self)@.driver.consistent(),
            outcome is Ok <==> final(self)@.driver.state is Completed,
            outcome matches Err(error) ==> final(self)@.driver.failure == Some(error@),
    {
        let ghost start = self@;
        loop
            invariant
                start == old(self)@,
                self@.shapes + self@.driver.run().shapes == start.shapes + start.driver.run().shapes,
                self@.records + self@.driver.run().records == start.records
                    + start.driver.run().records,
                self@.driver.run().end == start.driver.run().end,
            decreases self@.driver.steps_left(),
        {
            let ghost before = self@;
            match self.writer.write(SinkEvent::Done) {
                Action::WriteShape(shape) => {
                    self.shapes.push(shape);
                    assert(self@.shapes =~= before.shapes.push(shape@));
                    assert(self@.shapes + self@.driver.run().shapes =~= before.shapes
                        + before.driver.run().shapes);
                },
                Action::WriteRecord(record) => {
                    self.records.push(record);
                    assert(self@.records =~= before.records.push(record@));
                    assert(self@.records + self@.driver.run().records =~= before.records
                        + before.driver.run().records);
                },
                Action::Finish => {
                    proof {
                        lemma_run_of_last_step(before);
                    }
                    return Ok(());
                },
                Action::Abort(error) => {
                    proof {
                        lemma_run_of_last_step(before);
                    }
                    return Err(error);
                },
            }
        }
    }

    /// Where the run stands.
    pub fn state(&self) -> (state: DriverState)
        ensures
            state == self@.driver.state,
    {
        self.writer.state()
    }

    /// The schema of the attribute table.
    pub fn schema(&self) -> (schema: &Schema)
        ensures
            schema@ == self@.driver.schema,
    {
        self.writer.schema()
    }

    /// The shapes that the geometry sink holds, oldest first.
    pub fn shapes(&self) -> (shapes: &Vec<Shape>)
        ensures
            shapes_model(shapes@) == self@.shapes,
    {
        &self.shapes
    }

    /// The records that the attribute table holds, oldest first.
    pub fn records(&self) -> (records: &Vec<Record>)
        ensures
            records_model(records@) == self@.records,
    {
        &self.records
    }
}

} // verus!
