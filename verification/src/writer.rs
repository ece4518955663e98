//! The conversion driver: a state machine that decides, one sink operation at
//! a time, what is written next and when the run ends.

use crate::error::{ConvertError, ErrorModel, SinkFault, SinkFaultModel};
use crate::feature::{Document, DocumentModel, FeatureCollection, FeatureModel, FeaturesModel};
use crate::record::{assemble_record, assembled_record, Record, RecordModel};
use crate::schema::{build_schema, inferred_schema, Schema, SchemaModel};
use crate::shape::{transcode_geometry, transcoded, Shape, ShapeModel};
use crate::views::{option_view, result_view};
use vstd::prelude::*;

verus! {

/// Where a run stands.
#[derive(Clone, Copy, Debug, PartialEq, Eq, Structural)]
pub enum DriverState {
    /// The document is accepted and the schema drawn; the sinks are not open.
    Initialized,
    /// The sinks are open and an operation on one of them is under way.
    Converting,
    /// Every feature is written. The run is over.
    Completed,
    /// An error ended the run. What was written before it stays written.
    Failed,
}

/// What the caller reports of the operation that it was last asked for.
#[derive(Debug, PartialEq, Eq)]
pub enum SinkEvent {
    /// The operation went through.
    Done,
    /// The operation failed.
    Failed(SinkFault),
}

/// The mathematical content of a [`SinkEvent`].
pub enum SinkEventModel {
    Done,
    Failed(SinkFaultModel),
}

impl View for SinkEvent {
    type V = SinkEventModel;

    open spec fn view(&self) -> SinkEventModel {
        match self {
            SinkEvent::Done => SinkEventModel::Done,
            SinkEvent::Failed(fault) => SinkEventModel::Failed(fault@),
        }
    }
}

impl Clone for SinkEvent {
    fn clone(&self) -> (copy: Self)
        ensures
            copy@ == self@,
    {
        match self {
            SinkEvent::Done => SinkEvent::Done,
            SinkEvent::Failed(fault) => SinkEvent::Failed(fault.clone()),
        }
    }
}

/// What the caller is to do next.
#[derive(Debug, PartialEq, Eq)]
pub enum Action {
    /// Write the shape to the geometry sink, then report.
    WriteShape(Shape),
    /// Write the record to the attribute table, then report.
    WriteRecord(Record),
    /// Close the sinks: the run is complete.
    Finish,
    /// Stop: the run has failed with this error.
    Abort(ConvertError),
}

/// The mathematical content of an [`Action`].
pub enum ActionModel {
    WriteShape(ShapeModel),
    WriteRecord(RecordModel),
    Finish,
    Abort(ErrorModel),
}

impl View for Action {
    type V = ActionModel;

    open spec fn view(&self) -> ActionModel {
        match self {
            Action::WriteShape(shape) => ActionModel::WriteShape(shape@),
            Action::WriteRecord(record) => ActionModel::WriteRecord(record@),
            Action::Finish => ActionModel::Finish,
            Action::Abort(error) => ActionModel::Abort(error@),
        }
    }
}

impl Clone for Action {
    fn clone(&self) -> (copy: Self)
        ensures
            copy@ == self@,
    {
        match self {
            Action::WriteShape(shape) => Action::WriteShape(shape.clone()),
            Action::WriteRecord(record) => Action::WriteRecord(record.clone()),
            Action::Finish => Action::Finish,
            Action::Abort(error) => Action::Abort(error.clone()),
        }
    }
}

/// The shape of the feature at `index`.
pub open spec fn feature_shape(index: nat, feature: FeatureModel) -> Result<
    ShapeModel,
    ErrorModel,
> {
    transcoded(index, feature.geometry)
}

/// The record of the feature at `index`. A feature without properties has
/// none.
pub open spec fn feature_record(schema: SchemaModel, index: nat, feature: FeatureModel) -> Result<
    RecordModel,
    ErrorModel,
> {
    match feature.properties {
        None => Err(ErrorModel::MissingProperties { feature_index: index }),
        Some(properties) => assembled_record(schema, index, properties),
    }
}

/// The feature at `index` has both a shape and a record.
pub open spec fn converts(schema: SchemaModel, index: nat, feature: FeatureModel) -> bool {
    feature_shape(index, feature) is Ok && feature_record(schema, index, feature) is Ok
}

/// The mathematical content of a [`FeatureCollectionToShpWriter`].
pub struct WriterModel {
    /// The features to convert.
    pub features: FeaturesModel,
    /// The schema, drawn from the first feature.
    pub schema: SchemaModel,
    /// Where the run stands.
    pub state: DriverState,
    /// The index of the feature in hand: every feature before it is written
    /// in full.
    pub position: nat,
    /// Whether the shape of the feature in hand is written.
    pub shape_written: bool,
    /// The error that ended the run, if one did.
    pub failure: Option<ErrorModel>,
}

impl WriterModel {
    /// The number of shapes that the geometry sink has taken.
    pub open spec fn shapes_written(self) -> nat {
        if self.shape_written {
            self.position + 1
        } else {
            self.position
        }
    }

    /// The number of records that the attribute table has taken.
    pub open spec fn records_written(self) -> nat {
        self.position
    }

    /// The run is over.
    pub open spec fn is_over(self) -> bool {
        self.state is Completed || self.state is Failed
    }

    /// What holds of a driver at every moment of a run. The schema is that of
    /// the first feature. Every feature before the one in hand has a shape
    /// and a record, and what is written or under way of the feature in hand
    /// exists. A completed run has every feature behind it, and a failed one
    /// has its error.
    pub open spec fn consistent(self) -> bool {
        &&& inferred_schema(self.features) == Ok::<SchemaModel, ErrorModel>(self.schema)
        &&& self.position <= self.features.len()
        &&& forall|i: int|
            0 <= i < self.position ==> converts(self.schema, i as nat, #[trigger] self.features[i])
        &&& self.shape_written ==> self.position < self.features.len() && feature_shape(
            self.position,
            self.features[self.position as int],
        ) is Ok
        &&& self.state is Initialized ==> self.position == 0 && !self.shape_written
        &&& self.state is Converting ==> {
            &&& self.position < self.features.len()
            &&& feature_shape(self.position, self.features[self.position as int]) is Ok
            &&& self.shape_written ==> feature_record(
                self.schema,
                self.position,
                self.features[self.position as int],
            ) is Ok
        }
        &&& self.state is Completed ==> self.position == self.features.len()
            && !self.shape_written
        &&& self.state is Failed <==> self.failure is Some
    }

    /// The driver after a failure with `error`, and the order to stop.
    pub open spec fn fail(self, error: ErrorModel) -> (WriterModel, ActionModel) {
        (
            WriterModel { state: DriverState::Failed, failure: Some(error), ..self },
            ActionModel::Abort(error),
        )
    }

    /// Turns to the feature at `position`: its shape is asked for, or the
    /// run completes where no feature is left, or fails where the feature
    /// has no shape.
    pub open spec fn turn_to(self, position: nat) -> (WriterModel, ActionModel) {
        let turned = WriterModel { position, shape_written: false, ..self };
        if position >= self.features.len() {
            (WriterModel { state: DriverState::Completed, ..turned }, ActionModel::Finish)
        } else {
            match feature_shape(position, self.features[position as int]) {
                Ok(shape) => (
                    WriterModel { state: DriverState::Converting, ..turned },
                    ActionModel::WriteShape(shape),
                ),
                Err(error) => turned.fail(error),
            }
        }
    }

    /// Goes on with the feature in hand, whose shape is written: its record
    /// is asked for, or the run fails where the feature has none. (No
    /// consistent driver is past the last feature here; that case ends the
    /// run, so that every driver has a next step.)
    pub open spec fn go_on(self) -> (WriterModel, ActionModel) {
        if self.position >= self.features.len() {
            self.turn_to(self.position)
        } else {
            let gone = WriterModel { shape_written: true, ..self };
            match feature_record(self.schema, self.position, self.features[self.position as int]) {
                Ok(record) => (gone, ActionModel::WriteRecord(record)),
                Err(error) => gone.fail(error),
            }
        }
    }

    /// One step of a run: the driver after the event, and what it asks for.
    ///
    /// A run that is over stays as it is, and says again how it ended. A sink
    /// that failed ends the run with its fault. Otherwise the operation that
    /// was under way is behind: after the opening comes the first feature's
    /// shape, after a shape the same feature's record, after a record the
    /// next feature's shape, and after the last record the end. (A failed
    /// driver without an error is not consistent; it is taken as finished.)
    pub open spec fn advance(self, event: SinkEventModel) -> (WriterModel, ActionModel) {
        match self.state {
            DriverState::Completed => (self, ActionModel::Finish),
            DriverState::Failed => (
                self,
                match self.failure {
                    Some(error) => ActionModel::Abort(error),
                    None => ActionModel::Finish,
                },
            ),
            DriverState::Initialized => match event {
                SinkEventModel::Failed(fault) => self.fail(ErrorModel::SinkIOError { fault }),
                SinkEventModel::Done => self.turn_to(self.position),
            },
            DriverState::Converting => match event {
                SinkEventModel::Failed(fault) => self.fail(ErrorModel::SinkIOError { fault }),
                SinkEventModel::Done => if self.shape_written {
                    self.turn_to(self.position + 1)
                } else {
                    self.go_on()
                },
            },
        }
    }
}

/// The driver that a document starts with: none for a document whose root is
/// no feature collection, or whose collection has no schema.
pub open spec fn opened(document: DocumentModel) -> Result<WriterModel, ErrorModel> {
    match document {
        DocumentModel::FeatureCollection(features) => match inferred_schema(features) {
            Ok(schema) => Ok(
                WriterModel {
                    features,
                    schema,
                    state: DriverState::Initialized,
                    position: 0,
                    shape_written: false,
                    failure: None,
                },
            ),
            Err(error) => Err(error),
        },
        _ => Err(ErrorModel::ParseError),
    }
}

/// Every step keeps a driver consistent.
pub proof fn lemma_advance_consistent(driver: WriterModel, event: SinkEventModel)
    requires
        driver.consistent(),
    ensures
        driver.advance(event).0.consistent(),
        driver.advance(event).0.features == driver.features,
        driver.advance(event).0.schema == driver.schema,
{
}

/// A completed run has written every feature: the geometry sink and the
/// attribute table have each taken as many records as there are features.
pub proof fn lemma_completed_run_wrote_every_feature(driver: WriterModel)
    requires
        driver.consistent(),
        driver.state is Completed,
    ensures
        driver.shapes_written() == driver.features.len(),
        driver.records_written() == driver.features.len(),
{
}

/// The two streams go in lock step: the geometry sink is never behind the
/// attribute table, and never more than one shape ahead of it.
pub proof fn lemma_streams_in_lock_step(driver: WriterModel)
    ensures
        driver.records_written() <= driver.shapes_written() <= driver.records_written() + 1,
{
}

/// The movable part of a driver.
#[derive(Clone, Copy, Debug, PartialEq, Eq)]
struct Progress {
    state: DriverState,
    position: usize,
    shape_written: bool,
}

/// The driver of one conversion run.
///
/// It holds the features and the schema drawn from the first of them, and
/// decides what is written next. The caller owns the sinks: it performs each
/// action that [`write`](Self::write) hands out and reports how it went.
#[derive(Debug, PartialEq, Eq)]
pub struct FeatureCollectionToShpWriter {
    feature_collection: FeatureCollection,
    schema: Schema,
    progress: Progress,
    failure: Option<ConvertError>,
}

impl View for FeatureCollectionToShpWriter {
    type V = WriterModel;

    closed spec fn view(&self) -> WriterModel {
        WriterModel {
            features: self.feature_collection@,
            schema: self.schema@,
            state: self.progress.state,
            position: self.progress.position as nat,
            shape_written: self.progress.shape_written,
            failure: if self.progress.state is Failed {
                option_view(self.failure)
            } else {
                None
            },
        }
    }
}

impl FeatureCollectionToShpWriter {
    #[verifier::type_invariant]
    spec fn well_formed(&self) -> bool {
        self@.consistent()
    }

    /// Starts a run on a parsed document.
    ///
    /// The root must be a feature collection with at least one feature, and
    /// the first feature must have properties, all of them numbers or
    /// strings: the schema is drawn from them here, once. The driver starts
    /// out `Initialized`, before the first feature, and waits for the report
    /// that the sinks are open.
    pub fn new(document: Document) -> (driver: Result<FeatureCollectionToShpWriter, ConvertError>)
        ensures
            result_view(driver) == opened(document@),
            driver matches Ok(started) ==> started@.consistent(),
    {
        match document {
            Document::FeatureCollection(feature_collection) => {
                match build_schema(&feature_collection) {
                    Err(error) => Err(error),
                    Ok(schema) => Ok(
                        FeatureCollectionToShpWriter {
                            feature_collection,
                            schema,
                            progress: Progress {
                                state: DriverState::Initialized,
                                position: 0,
                                shape_written: false,
                            },
                            failure: None,
                        },
                    ),
                }
            },
            _ => Err(ConvertError::ParseError),
        }
    }

    /// Where the run stands.
    pub fn state(&self) -> (state: DriverState)
        ensures
            state == self@.state,
            self@.consistent(),
    {
        proof {
            use_type_invariant(self);
        }
        self.progress.state
    }

    /// The schema of the attribute table.
    pub fn schema(&self) -> (schema: &Schema)
        ensures
            schema@ == self@.schema,
    {
        &self.schema
    }

    /// The number of features of the collection.
    pub fn feature_count(&self) -> (count: usize)
        ensures
            count == self@.features.len(),
    {
        self.feature_collection.features.len()
    }

    /// The number of shapes that the geometry sink has taken.
    pub fn shapes_written(&self) -> (count: usize)
        ensures
            count == self@.shapes_written(),
    {
        proof {
            use_type_invariant(self);
        }
        let count = self.feature_collection.features.len();
        if self.progress.shape_written {
            assert(self.progress.position < count);
            self.progress.position + 1
        } else {
            self.progress.position
        }
    }

    /// The number of records that the attribute table has taken.
    pub fn records_written(&self) -> (count: usize)
        ensures
            count == self@.records_written(),
    {
        self.progress.position
    }

    /// Ends the run with `error`.
    fn fail(&mut self, error: ConvertError) -> (action: Action)
        requires
            !old(self)@.is_over(),
            old(self)@.fail(error@).0.consistent(),
        ensures
            (final(self)@, action@) == old(self)@.fail(error@),
    {
        proof {
            use_type_invariant(&*self);
        }
        self.failure = Some(error.clone());
        self.progress = Progress { state: DriverState::Failed, ..self.progress };
        Action::Abort(error)
    }

    /// Turns to the feature at `position`.
    fn turn_to(&mut self, position: usize) -> (action: Action)
        requires
            !old(self)@.is_over(),
            old(self)@.turn_to(position as nat).0.consistent(),
            position <= old(self)@.features.len(),
        ensures
            (final(self)@, action@) == old(self)@.turn_to(position as nat),
    {
        proof {
            use_type_invariant(&*self);
        }
        if position >= self.feature_collection.features.len() {
            self.progress = Progress { state: DriverState::Completed, position, shape_written: false };
            return Action::Finish;
        }
        match transcode_geometry(position, &self.feature_collection.features[position].geometry) {
            Ok(shape) => {
                self.progress = Progress {
                    state: DriverState::Converting,
                    position,
                    shape_written: false,
                };
                Action::WriteShape(shape)
            },
            Err(error) => {
                self.failure = Some(error.clone());
                self.progress = Progress { state: DriverState::Failed, position, shape_written: false };
                Action::Abort(error)
            },
        }
    }

    /// Goes on with the feature in hand, whose shape is written.
    fn go_on(&mut self) -> (action: Action)
        requires
            !old(self)@.is_over(),
            old(self)@.go_on().0.consistent(),
            old(self)@.position < old(self)@.features.len(),
        ensures
            (final(self)@, action@) == old(self)@.go_on(),
    {
        proof {
            use_type_invariant(&*self);
        }
        let position = self.progress.position;
        let assembled = match &self.feature_collection.features[position].properties {
            None => Err(ConvertError::MissingProperties { feature_index: position }),
            Some(properties) => assemble_record(&self.schema, position, properties),
        };
        match assembled {
            Ok(record) => {
                self.progress = Progress { shape_written: true, ..self.progress };
                Action::WriteRecord(record)
            },
            Err(error) => {
                self.failure = Some(error.clone());
                self.progress = Progress {
                    state: DriverState::Failed,
                    position,
                    shape_written: true,
                };
                Action::Abort(error)
            },
        }
    }

    /// Takes the report of the operation that was last asked for, and says
    /// what to do next.
    ///
    /// The first report is that of opening the sinks. After it the driver
    /// asks for each feature's shape and then its record, in the collection's
    /// order, one at a time, and ends with [`Action::Finish`]. A feature
    /// that cannot be converted, or a sink that failed, ends the run with
    /// [`Action::Abort`]; nothing is asked for after that, and what was
    /// written stays written.
    pub fn write(&mut self, event: SinkEvent) -> (action: Action)
        ensures
            (final(self)@, action@) == old(self)@.advance(event@),
            final(self)@.consistent(),
    {
        proof {
            use_type_invariant(&*self);
            lemma_advance_consistent(self@, event@);
        }
        match self.progress.state {
            DriverState::Completed => Action::Finish,
            DriverState::Failed => match &self.failure {
                Some(error) => Action::Abort(error.clone()),
                None => Action::Finish,
            },
            DriverState::Initialized => match event {
                SinkEvent::Failed(fault) => self.fail(ConvertError::SinkIOError { fault }),
                SinkEvent::Done => self.turn_to(self.progress.position),
            },
            DriverState::Converting => match event {
                SinkEvent::Failed(fault) => self.fail(ConvertError::SinkIOError { fault }),
                SinkEvent::Done => if self.progress.shape_written {
                    let count = self.feature_collection.features.len();
                    assert(self.progress.position < count);
                    self.turn_to(self.progress.position + 1)
                } else {
                    self.go_on()
                },
            },
        }
    }
}

} // verus!
