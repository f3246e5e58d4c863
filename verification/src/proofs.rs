//! Stages of the proving pipeline and the errors they end in.
//!
//! A run goes through input preparation, execution, proving and verification,
//! in that order. The work of a stage is done elsewhere; this module decides
//! what follows from its outcome.

use vstd::prelude::*;

verus! {

/// The error of a run of the proving pipeline: the stage that failed and the
/// message of the underlying cause.
#[derive(Debug)]
pub enum ProverError {
    SphinxInput { source: String },
    Execution { source: String },
    Proving { proof_type: String, source: String },
    Verification { source: String },
}

/// The error of reading the public values of a proof.
#[derive(Debug)]
pub enum PublicValuesError {
    SphinxProof { source: String },
}

/// Mathematical value of a [`ProverError`].
pub ghost enum ProverErrorView {
    SphinxInput { source: Seq<char> },
    Execution { source: Seq<char> },
    Proving { proof_type: Seq<char>, source: Seq<char> },
    Verification { source: Seq<char> },
}

/// Mathematical value of a [`PublicValuesError`].
pub ghost enum PublicValuesErrorView {
    SphinxProof { source: Seq<char> },
}

impl View for ProverError {
    type V = ProverErrorView;

    open spec fn view(&self) -> ProverErrorView {
        match self {
            ProverError::SphinxInput { source } => ProverErrorView::SphinxInput { source: source@ },
            ProverError::Execution { source } => ProverErrorView::Execution { source: source@ },
            ProverError::Proving { proof_type, source } => ProverErrorView::Proving {
                proof_type: proof_type@,
                source: source@,
            },
            ProverError::Verification { source } => ProverErrorView::Verification {
                source: source@,
            },
        }
    }
}

impl View for PublicValuesError {
    type V = PublicValuesErrorView;

    open spec fn view(&self) -> PublicValuesErrorView {
        match self {
            PublicValuesError::SphinxProof { source } => PublicValuesErrorView::SphinxProof {
                source: source@,
            },
        }
    }
}

/// The text that reports a [`ProverError`].
pub open spec fn prover_error_text(error: ProverErrorView) -> Seq<char> {
    match error {
        ProverErrorView::SphinxInput { source } => "Error while generating Sphinx input: "@
            + source,
        ProverErrorView::Execution { source } => "Error while executing the program: "@ + source,
        ProverErrorView::Proving { proof_type, source } => "Error while generating "@ + proof_type
            + " the program: "@ + source,
        ProverErrorView::Verification { source } => "Error while verifying the proof: "@ + source,
    }
}

/// The text that reports a [`PublicValuesError`].
pub open spec fn public_values_error_text(error: PublicValuesErrorView) -> Seq<char> {
    match error {
        PublicValuesErrorView::SphinxProof { source } =>
            "Error while reading public values from Sphinx proof: "@ + source,
    }
}

impl ProverError {
    /// The message of the underlying cause.
    pub fn source(&self) -> (cause: &String)
        ensures
            cause@ == match self@ {
                ProverErrorView::SphinxInput { source } => source,
                ProverErrorView::Execution { source } => source,
                ProverErrorView::Proving { source, .. } => source,
                ProverErrorView::Verification { source } => source,
            },
    {
        match self {
            ProverError::SphinxInput { source } => source,
            ProverError::Execution { source } => source,
            ProverError::Proving { source, .. } => source,
            ProverError::Verification { source } => source,
        }
    }

    /// The text that reports the error.
    pub fn message(&self) -> (text: String)
        ensures
            text@ == prover_error_text(self@),
    {
        match self {
            ProverError::SphinxInput { source } => {
                String::from_str("Error while generating Sphinx input: ").concat(source.as_str())
            },
            ProverError::Execution { source } => {
                String::from_str("Error while executing the program: ").concat(source.as_str())
            },
            ProverError::Proving { proof_type, source } => {
                String::from_str("Error while generating ").concat(proof_type.as_str()).concat(
                    " the program: ",
                ).concat(source.as_str())
            },
            ProverError::Verification { source } => {
                String::from_str("Error while verifying the proof: ").concat(source.as_str())
            },
        }
    }
}

impl PublicValuesError {
    /// The message of the underlying cause.
    pub fn source(&self) -> (cause: &String)
        ensures
            self@ == (PublicValuesErrorView::SphinxProof { source: cause@ }),
    {
        match self {
            PublicValuesError::SphinxProof { source } => source,
        }
    }

    /// The text that reports the error.
    pub fn message(&self) -> (text: String)
        ensures
            text@ == public_values_error_text(self@),
    {
        match self {
            PublicValuesError::SphinxProof { source } => {
                String::from_str("Error while reading public values from Sphinx proof: ").concat(
                    source.as_str(),
                )
            },
        }
    }
}

/// A stage of the pipeline.
#[derive(Clone, Copy, Debug, PartialEq, Eq, Structural)]
pub enum Stage {
    InputPreparation,
    Execution,
    Proving,
    Verification,
}

/// Place of a stage in the order of the pipeline.
pub open spec fn rank(stage: Stage) -> nat {
    match stage {
        Stage::InputPreparation => 0,
        Stage::Execution => 1,
        Stage::Proving => 2,
        Stage::Verification => 3,
    }
}

/// The stage that follows `stage`, if any.
pub open spec fn following(stage: Stage) -> Option<Stage> {
    match stage {
        Stage::InputPreparation => Some(Stage::Execution),
        Stage::Execution => Some(Stage::Proving),
        Stage::Proving => Some(Stage::Verification),
        Stage::Verification => None,
    }
}

/// The error of a failure at `stage`, while producing a proof of kind
/// `proof_type`, with the message `cause`.
pub open spec fn failure(stage: Stage, proof_type: Seq<char>, cause: Seq<char>) -> ProverErrorView {
    match stage {
        Stage::InputPreparation => ProverErrorView::SphinxInput { source: cause },
        Stage::Execution => ProverErrorView::Execution { source: cause },
        Stage::Proving => ProverErrorView::Proving { proof_type, source: cause },
        Stage::Verification => ProverErrorView::Verification { source: cause },
    }
}

impl Stage {
    /// The stage that follows this one, if any.
    pub fn next(self) -> (next: Option<Stage>)
        ensures
            next == following(self),
    {
        match self {
            Stage::InputPreparation => Some(Stage::Execution),
            Stage::Execution => Some(Stage::Proving),
            Stage::Proving => Some(Stage::Verification),
            Stage::Verification => None,
        }
    }

    /// Tags the cause of a failure with this stage. Only a failure of the
    /// proving stage keeps the proof type.
    pub fn error(self, proof_type: &str, cause: String) -> (error: ProverError)
        ensures
            error@ == failure(self, proof_type@, cause@),
    {
        match self {
            Stage::InputPreparation => ProverError::SphinxInput { source: cause },
            Stage::Execution => ProverError::Execution { source: cause },
            Stage::Proving => ProverError::Proving {
                proof_type: String::from_str(proof_type),
                source: cause,
            },
            Stage::Verification => ProverError::Verification { source: cause },
        }
    }
}

/// What the work of a stage came to.
#[derive(Debug)]
pub enum Outcome {
    Passed,
    Failed { cause: String },
}

/// Where a run stands.
#[derive(Debug)]
pub enum Position {
    /// The stage is the next to be worked.
    At(Stage),
    /// Every stage passed.
    Done,
    /// A stage failed: the run is over.
    Failed(ProverError),
}

/// A run of the pipeline for a proof of one kind.
#[derive(Debug)]
pub struct Pipeline {
    pub proof_type: String,
    pub position: Position,
}

/// Mathematical value of an [`Outcome`].
pub ghost enum OutcomeView {
    Passed,
    Failed { cause: Seq<char> },
}

/// Mathematical value of a [`Position`].
pub ghost enum PositionView {
    At(Stage),
    Done,
    Failed(ProverErrorView),
}

/// Mathematical value of a [`Pipeline`].
pub ghost struct PipelineView {
    pub proof_type: Seq<char>,
    pub position: PositionView,
}

impl View for Outcome {
    type V = OutcomeView;

    open spec fn view(&self) -> OutcomeView {
        match self {
            Outcome::Passed => OutcomeView::Passed,
            Outcome::Failed { cause } => OutcomeView::Failed { cause: cause@ },
        }
    }
}

impl View for Position {
    type V = PositionView;

    open spec fn view(&self) -> PositionView {
        match self {
            Position::At(stage) => PositionView::At(*stage),
            Position::Done => PositionView::Done,
            Position::Failed(error) => PositionView::Failed(error@),
        }
    }
}

impl View for Pipeline {
    type V = PipelineView;

    open spec fn view(&self) -> PipelineView {
        PipelineView { proof_type: self.proof_type@, position: self.position@ }
    }
}

/// The run after the stage it stands at came to `outcome`. A run that is over
/// stays as it is.
pub open spec fn step(run: PipelineView, outcome: OutcomeView) -> PipelineView {
    match run.position {
        PositionView::At(stage) => match outcome {
            OutcomeView::Passed => match following(stage) {
                Some(next) => PipelineView { position: PositionView::At(next), ..run },
                None => PipelineView { position: PositionView::Done, ..run },
            },
            OutcomeView::Failed { cause } => PipelineView {
                position: PositionView::Failed(failure(stage, run.proof_type, cause)),
                ..run
            },
        },
        PositionView::Done => run,
        PositionView::Failed(_) => run,
    }
}

/// The run after a series of outcomes, each taken at the stage the run then
/// stands at.
pub open spec fn run_through(run: PipelineView, outcomes: Seq<OutcomeView>) -> PipelineView
    decreases outcomes.len(),
{
    if outcomes.len() == 0 {
        run
    } else {
        run_through(step(run, outcomes[0]), outcomes.skip(1))
    }
}

impl Pipeline {
    /// A run that starts at input preparation.
    pub fn new(proof_type: String) -> (run: Pipeline)
        ensures
            run@ == (PipelineView {
                proof_type: proof_type@,
                position: PositionView::At(Stage::InputPreparation),
            }),
    {
        Pipeline { proof_type, position: Position::At(Stage::InputPreparation) }
    }

    /// A run that only checks a proof made earlier: it starts at verification.
    pub fn verification_only(proof_type: String) -> (run: Pipeline)
        ensures
            run@ == (PipelineView {
                proof_type: proof_type@,
                position: PositionView::At(Stage::Verification),
            }),
    {
        Pipeline { proof_type, position: Position::At(Stage::Verification) }
    }

    /// The stage to work next, or nothing when the run is over.
    pub fn stage(&self) -> (stage: Option<Stage>)
        ensures
            stage == match self@.position {
                PositionView::At(stage) => Some(stage),
                _ => None,
            },
    {
        match &self.position {
            Position::At(stage) => Some(*stage),
            _ => None,
        }
    }

    /// Takes the outcome of the stage the run stands at.
    pub fn advance(self, outcome: Outcome) -> (run: Pipeline)
        ensures
            run@ == step(self@, outcome@),
    {
        let Pipeline { proof_type, position } = self;
        match position {
            Position::At(stage) => match outcome {
                Outcome::Passed => match stage.next() {
                    Some(next) => Pipeline { proof_type, position: Position::At(next) },
                    None => Pipeline { proof_type, position: Position::Done },
                },
                Outcome::Failed { cause } => {
                    let error = stage.error(proof_type.as_str(), cause);
                    Pipeline { proof_type, position: Position::Failed(error) }
                },
            },
            Position::Done => Pipeline { proof_type, position: Position::Done },
            Position::Failed(error) => Pipeline { proof_type, position: Position::Failed(error) },
        }
    }

    /// The result of a run that is over, or nothing while a stage is pending.
    pub fn result(self) -> (result: Option<Result<(), ProverError>>)
        ensures
            match self@.position {
                PositionView::At(_) => result is None,
                PositionView::Done => result == Some(Ok::<(), ProverError>(())),
                PositionView::Failed(error) => result matches Some(Err(found)) && found@ == error,
            },
    {
        match self.position {
            Position::At(_) => None,
            Position::Done => Some(Ok(())),
            Position::Failed(error) => Some(Err(error)),
        }
    }
}

/// Stages are worked in order, one at a time: a stage that passes hands over
/// to the stage ranked right after it, and only verification has none.
pub proof fn lemma_stages_in_order(stage: Stage)
    ensures
        match following(stage) {
            Some(next) => rank(next) == rank(stage) + 1,
            None => stage == Stage::Verification,
        },
{
}

/// A run that is over stays over: no outcome moves it.
pub proof fn lemma_over_is_final(run: PipelineView, outcomes: Seq<OutcomeView>)
    requires
        !(run.position is At),
    ensures
        run_through(run, outcomes) == run,
    decreases outcomes.len(),
{
    if outcomes.len() > 0 {
        lemma_over_is_final(run, outcomes.skip(1));
    }
}

/// A failure at any stage ends the run in the error of that stage, whatever
/// outcomes come after.
pub proof fn lemma_failure_is_final(
    proof_type: Seq<char>,
    stage: Stage,
    cause: Seq<char>,
    later: Seq<OutcomeView>,
)
    ensures
        run_through(
            PipelineView { proof_type, position: PositionView::At(stage) },
            seq![OutcomeView::Failed { cause }] + later,
        ) == (PipelineView {
            proof_type,
            position: PositionView::Failed(failure(stage, proof_type, cause)),
        }),
{
    let start = PipelineView { proof_type, position: PositionView::At(stage) };
    let outcomes = seq![OutcomeView::Failed { cause }] + later;
    assert(outcomes[0] == OutcomeView::Failed { cause });
    assert(outcomes.skip(1) == later);
    lemma_over_is_final(step(start, outcomes[0]), later);
}

/// A failure at the proving stage ends the run in a proving error that names
/// the proof type of the run and the cause, whatever outcomes come after: the
/// run never reaches the end of verification.
pub proof fn lemma_failed_proving_is_final(
    proof_type: Seq<char>,
    cause: Seq<char>,
    later: Seq<OutcomeView>,
)
    ensures
        run_through(
            PipelineView { proof_type, position: PositionView::At(Stage::Proving) },
            seq![OutcomeView::Failed { cause }] + later,
        ) == (PipelineView {
            proof_type,
            position: PositionView::Failed(
                ProverErrorView::Proving { proof_type, source: cause },
            ),
        }),
        !(run_through(
            PipelineView { proof_type, position: PositionView::At(Stage::Proving) },
            seq![OutcomeView::Failed { cause }] + later,
        ).position is Done),
{
    lemma_failure_is_final(proof_type, Stage::Proving, cause, later);
}

/// A run that starts at input preparation and ends with every stage passed
/// took at least four outcomes, and its first four were passes: no stage is
/// skipped.
pub proof fn lemma_done_passed_every_stage(proof_type: Seq<char>, outcomes: Seq<OutcomeView>)
    requires
        run_through(
            PipelineView { proof_type, position: PositionView::At(Stage::InputPreparation) },
            outcomes,
        ).position is Done,
    ensures
        outcomes.len() >= 4,
        forall|i: int| 0 <= i < 4 ==> #[trigger] outcomes[i] is Passed,
{
    let first = PipelineView { proof_type, position: PositionView::At(Stage::InputPreparation) };
    lemma_pending_until_passed(first, outcomes);
    let second = step(first, outcomes[0]);
    lemma_pending_until_passed(second, outcomes.skip(1));
    let third = step(second, outcomes[1]);
    assert(outcomes.skip(1)[0] == outcomes[1]);
    assert(outcomes.skip(1).skip(1) == outcomes.skip(2));
    lemma_pending_until_passed(third, outcomes.skip(2));
    let fourth = step(third, outcomes[2]);
    assert(outcomes.skip(2)[0] == outcomes[2]);
    assert(outcomes.skip(2).skip(1) == outcomes.skip(3));
    lemma_pending_until_passed(fourth, outcomes.skip(3));
    assert(outcomes.skip(3)[0] == outcomes[3]);
}

/// A run that stands at a stage and ends with every stage passed took an
/// outcome, and it was a pass.
proof fn lemma_pending_until_passed(run: PipelineView, outcomes: Seq<OutcomeView>)
    requires
        run.position is At,
        run_through(run, outcomes).position is Done,
    ensures
        outcomes.len() > 0,
        outcomes[0] is Passed,
        run_through(step(run, outcomes[0]), outcomes.skip(1)) == run_through(run, outcomes),
{
    if outcomes.len() > 0 && !(outcomes[0] is Passed) {
        lemma_over_is_final(step(run, outcomes[0]), outcomes.skip(1));
    }
}

} // verus!
