//! The demonstration run, as a machine that decides and leaves the work to
//! its driver: each step takes what just happened and answers with what to
//! do next.

use vstd::prelude::*;
use crate::config::{ConfigSource, ModelConfig, config_for, model_config};
use crate::prediction::{Label, LabelModel, reportable};
use crate::ranking::rank_rows;
use crate::report::{predict_multilabel, report_text};

verus! {

/// Longest token sequence that a sentence and a hypothesis are encoded to.
pub const MAX_LENGTH: usize = 128;

/// Where the run stands.
#[derive(Clone, Copy, Debug, PartialEq, Eq)]
pub enum Stage {
    /// Nothing has been asked for yet.
    Idle,
    /// The driver is loading the classifier.
    Loading,
    /// The driver is classifying the batch.
    Classifying,
    /// The run is over, with a report or with a failure.
    Finished,
}

/// What the driver reports back.
pub enum Event {
    /// The run is to begin.
    Start,
    /// The classifier was loaded.
    ModelReady,
    /// The classifier could not be loaded.
    LoadFailed,
    /// The classifier scored the batch: one row per sentence.
    Predicted(Vec<Vec<Label>>),
    /// The classifier failed on the batch.
    PredictFailed,
}

/// The batch to classify and the labels to score it against.
pub struct Request {
    pub inputs: Vec<&'static str>,
    pub labels: Vec<&'static str>,
    /// Bound on the encoded length of each sentence with its hypothesis.
    pub max_length: usize,
}

/// What the driver is to do next.
pub enum Action {
    /// Load the classifier from this configuration.
    LoadModel(ConfigSource),
    /// Score the request with the loaded classifier, each label turned into
    /// its hypothesis by the template.
    Classify(Request),
    /// Print this text and end with success.
    Print(String),
    /// End with the failure that the driver just met, printing nothing.
    Fail,
    /// Nothing: the event does not belong to this stage.
    Ignore,
}

/// The mathematical value of an [`Event`].
pub ghost enum EventModel {
    Start,
    ModelReady,
    LoadFailed,
    Predicted(Seq<Seq<LabelModel>>),
    PredictFailed,
}

/// The mathematical value of a [`Request`].
pub ghost struct RequestModel {
    pub inputs: Seq<Seq<char>>,
    pub labels: Seq<Seq<char>>,
    pub max_length: int,
}

/// The mathematical value of an [`Action`].
pub ghost enum ActionModel {
    LoadModel(ConfigSource),
    Classify(RequestModel),
    Print(Seq<char>),
    Fail,
    Ignore,
}

impl View for Event {
    type V = EventModel;

    open spec fn view(&self) -> EventModel {
        match *self {
            Event::Start => EventModel::Start,
            Event::ModelReady => EventModel::ModelReady,
            Event::LoadFailed => EventModel::LoadFailed,
            Event::Predicted(rows) => EventModel::Predicted(rows.deep_view()),
            Event::PredictFailed => EventModel::PredictFailed,
        }
    }
}

impl View for Request {
    type V = RequestModel;

    open spec fn view(&self) -> RequestModel {
        RequestModel {
            inputs: self.inputs.deep_view(),
            labels: self.labels.deep_view(),
            max_length: self.max_length as int,
        }
    }
}

impl View for Action {
    type V = ActionModel;

    open spec fn view(&self) -> ActionModel {
        match *self {
            Action::LoadModel(source) => ActionModel::LoadModel(source),
            Action::Classify(request) => ActionModel::Classify(request@),
            Action::Print(text) => ActionModel::Print(text@),
            Action::Fail => ActionModel::Fail,
            Action::Ignore => ActionModel::Ignore,
        }
    }
}

/// The candidate labels of the demonstration.
pub open spec fn demo_labels() -> Seq<Seq<char>> {
    seq!["product"@, "customer support"@, "troubleshooting"@, "refund"@]
}

/// The sentences of the demonstration.
pub open spec fn demo_inputs() -> Seq<Seq<char>> {
    seq![
        "I'm calling you today to get some help figuring out how my new router works."@,
        "The new washing machine I bought from you guys is no longer working."@,
        "Nice weather we're having today."@,
        "I bought a motherboard recently and it was DOA. I'm hoping to return this."@,
    ]
}

/// The request of the demonstration.
pub open spec fn demo_request() -> RequestModel {
    RequestModel { inputs: demo_inputs(), labels: demo_labels(), max_length: 128 }
}

/// The step relation: the stage and action that follow `event` in `stage`.
pub open spec fn step(stage: Stage, event: EventModel) -> (Stage, ActionModel) {
    match (stage, event) {
        (Stage::Idle, EventModel::Start) => (
            Stage::Loading,
            ActionModel::LoadModel(config_for(ModelConfig::BartMNLI)),
        ),
        (Stage::Loading, EventModel::ModelReady) => (
            Stage::Classifying,
            ActionModel::Classify(demo_request()),
        ),
        (Stage::Loading, EventModel::LoadFailed) => (Stage::Finished, ActionModel::Fail),
        (Stage::Classifying, EventModel::Predicted(rows)) => (
            Stage::Finished,
            ActionModel::Print(report_text(demo_inputs(), rank_rows(rows))),
        ),
        (Stage::Classifying, EventModel::PredictFailed) => (Stage::Finished, ActionModel::Fail),
        _ => (stage, ActionModel::Ignore),
    }
}

/// The sentences of the demonstration, in batch order.
pub fn inputs() -> (batch: Vec<&'static str>)
    ensures
        batch.deep_view() == demo_inputs(),
{
    let mut batch: Vec<&'static str> = Vec::new();
    batch.push("I'm calling you today to get some help figuring out how my new router works.");
    batch.push("The new washing machine I bought from you guys is no longer working.");
    batch.push("Nice weather we're having today.");
    batch.push("I bought a motherboard recently and it was DOA. I'm hoping to return this.");
    assert(batch.deep_view() =~= demo_inputs());
    batch
}

/// The candidate labels of the demonstration.
pub fn labels() -> (names: Vec<&'static str>)
    ensures
        names.deep_view() == demo_labels(),
{
    let mut names: Vec<&'static str> = Vec::new();
    names.push("product");
    names.push("customer support");
    names.push("troubleshooting");
    names.push("refund");
    assert(names.deep_view() =~= demo_labels());
    names
}

/// The action that asks the driver to load the classifier named by `config`.
pub fn model(config: ModelConfig) -> (action: Action)
    ensures
        action@ == ActionModel::LoadModel(config_for(config)),
{
    Action::LoadModel(model_config(config))
}

/// One step of the demonstration run.
///
/// The run loads the classifier, classifies the fixed batch against the fixed
/// labels and prints the report. It ends at the first failure: after a failed
/// load nothing is classified and nothing is printed.
pub fn run_zeroshot(stage: Stage, event: Event) -> (next: (Stage, Action))
    requires
        stage == Stage::Classifying ==> (event@ matches EventModel::Predicted(rows) ==> reportable(
            demo_inputs().len() as int,
            rows,
        )),
    ensures
        next.0 == step(stage, event@).0,
        next.1@ == step(stage, event@).1,
{
    match stage {
        Stage::Idle => match event {
            Event::Start => (Stage::Loading, model(ModelConfig::BartMNLI)),
            _ => (stage, Action::Ignore),
        },
        Stage::Loading => match event {
            Event::ModelReady => {
                let request = Request { inputs: inputs(), labels: labels(), max_length: MAX_LENGTH };
                (Stage::Classifying, Action::Classify(request))
            },
            Event::LoadFailed => (Stage::Finished, Action::Fail),
            _ => (stage, Action::Ignore),
        },
        Stage::Classifying => match event {
            Event::Predicted(rows) => {
                let batch = inputs();
                let sentences = batch.as_slice();
                assert(sentences.deep_view() =~= demo_inputs());
                let text = predict_multilabel(&rows, sentences);
                (Stage::Finished, Action::Print(text))
            },
            Event::PredictFailed => (Stage::Finished, Action::Fail),
            _ => (stage, Action::Ignore),
        },
        Stage::Finished => (stage, Action::Ignore),
    }
}

/// A failure ends the run: a failed load or a failed classification leads to
/// the last stage with nothing to print, and from the last stage no event
/// leads anywhere or asks for anything.
pub proof fn law_failure_ends_run(event: EventModel)
    ensures
        step(Stage::Loading, EventModel::LoadFailed) == (Stage::Finished, ActionModel::Fail),
        step(Stage::Classifying, EventModel::PredictFailed) == (Stage::Finished, ActionModel::Fail),
        step(Stage::Finished, event) == (Stage::Finished, ActionModel::Ignore),
{
}

/// Nothing is classified before the classifier is loaded, and nothing is
/// printed before the batch is classified.
pub proof fn law_work_follows_success(stage: Stage, event: EventModel)
    ensures
        step(stage, event).1 is LoadModel ==> stage == Stage::Idle && event is Start,
        step(stage, event).1 is Classify ==> stage == Stage::Loading && event is ModelReady,
        step(stage, event).1 is Print ==> stage == Stage::Classifying && event is Predicted,
        step(stage, event).1 is Fail ==> step(stage, event).0 == Stage::Finished,
{
}

} // verus!
