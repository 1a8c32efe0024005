//! Carrying out a patch: every operation is checked before any is carried out.

use crate::apply_patch::document::{OperationModel, PatchDocument, PatchOperation};
use crate::apply_patch::errors::{ExecutionErrorModel, PatchExecutionError};
use crate::apply_patch::hunks::{apply_hunks_to_text, file_text, join_text_lines, text_after_hunks};
use crate::apply_patch::protocol::{HostReply, HostRequest, PathId, ReplyModel, RequestModel};
use crate::apply_patch::targets::{
    ask_existing, ask_future, ask_ready, existing_next, existing_request, future_next,
    future_request, materialize_writable_target, ready_next, ready_request,
    validate_existing_patch_target, validate_future_patch_target, ExistingStep, FutureStep, Next,
    ReadyStep,
};
use crate::text::lines::{clone_texts, texts};
use vstd::prelude::*;

verus! {

/// What a patch has changed.
#[derive(Debug, Clone, PartialEq, Eq)]
pub struct PatchExecutionSummary {
    pub affected_paths: Vec<String>,
}

/// An operation that passed its checks, with the paths that were found for it.
#[derive(Debug, Clone, PartialEq, Eq)]
pub enum PlannedOperation {
    Add { full: PathId, parent: PathId, content: String },
    Delete { target: PathId },
    Update { source: PathId, destination: Option<(PathId, PathId)>, content: String },
}

/// What a planned operation says.
#[verifier::ext_equal]
pub enum PlannedModel {
    Add { full: PathId, parent: PathId, content: Seq<char> },
    Delete { target: PathId },
    Update { source: PathId, destination: Option<(PathId, PathId)>, content: Seq<char> },
}

impl View for PlannedOperation {
    type V = PlannedModel;

    open spec fn view(&self) -> PlannedModel {
        match self {
            PlannedOperation::Add { full, parent, content } => PlannedModel::Add {
                full: *full,
                parent: *parent,
                content: content@,
            },
            PlannedOperation::Delete { target } => PlannedModel::Delete { target: *target },
            PlannedOperation::Update { source, destination, content } => PlannedModel::Update {
                source: *source,
                destination: *destination,
                content: content@,
            },
        }
    }
}

/// What a plan says.
pub open spec fn planned_models(list: Seq<PlannedOperation>) -> Seq<PlannedModel> {
    Seq::new(list.len(), |i: int| list[i]@)
}

/// The question that is open.
#[derive(Debug, Clone, Copy, PartialEq, Eq, Structural)]
pub enum Step {
    CanAct,
    RateLimited,
    Add { step: FutureStep },
    Delete { step: ExistingStep },
    Source { step: ExistingStep },
    Read { source: PathId },
    Destination { source: PathId, step: FutureStep },
    RecordAction,
    Ready { step: ReadyStep },
    Write { at: PathId },
    Remove { at: PathId },
    Finished,
}

/// A patch that is being carried out.
pub struct PatchRun {
    /// The directory that the paths of the patch start from.
    pub workspace: String,
    pub document: PatchDocument,
    /// The question that is open.
    pub step: Step,
    /// The operation that the question is about.
    pub current: usize,
    /// The operations that passed their checks, in order.
    pub plan: Vec<PlannedOperation>,
    /// The new text of a file that is going to be moved.
    pub draft: String,
    /// What has been changed, in order.
    pub affected: Vec<String>,
    /// How it ended.
    pub outcome: Option<Result<PatchExecutionSummary, PatchExecutionError>>,
}

/// How carrying out a patch ended: with the list of what was changed, or an error.
pub type OutcomeModel = Option<Result<Seq<Seq<char>>, ExecutionErrorModel>>;

/// What the state of a run says.
#[verifier::ext_equal]
pub struct RunModel {
    pub workspace: Seq<char>,
    pub operations: Seq<OperationModel>,
    pub step: Step,
    pub current: int,
    pub plan: Seq<PlannedModel>,
    pub draft: Seq<char>,
    pub affected: Seq<Seq<char>>,
    pub outcome: OutcomeModel,
}

/// What an outcome says.
pub open spec fn outcome_model(
    outcome: Option<Result<PatchExecutionSummary, PatchExecutionError>>,
) -> OutcomeModel {
    match outcome {
        None => None,
        Some(Ok(summary)) => Some(Ok(texts(summary.affected_paths@))),
        Some(Err(error)) => Some(Err(error@)),
    }
}

impl View for PatchRun {
    type V = RunModel;

    open spec fn view(&self) -> RunModel {
        RunModel {
            workspace: self.workspace@,
            operations: self.document@,
            step: self.step,
            current: self.current as int,
            plan: planned_models(self.plan@),
            draft: self.draft@,
            affected: texts(self.affected@),
            outcome: outcome_model(self.outcome),
        }
    }
}

/// A patch of which nothing has been done yet.
pub open spec fn started(workspace: Seq<char>, operations: Seq<OperationModel>) -> RunModel {
    RunModel {
        workspace,
        operations,
        step: Step::CanAct,
        current: 0,
        plan: seq![],
        draft: seq![],
        affected: seq![],
        outcome: None,
    }
}

/// The operation that the open question is about.
pub open spec fn current_operation(run: RunModel) -> Option<OperationModel> {
    if 0 <= run.current < run.operations.len() {
        Some(run.operations[run.current])
    } else {
        None
    }
}

/// The plan for the operation that the open question is about.
pub open spec fn current_plan(run: RunModel) -> Option<PlannedModel> {
    if 0 <= run.current < run.plan.len() {
        Some(run.plan[run.current])
    } else {
        None
    }
}

/// The path that an operation is about, before it is carried out.
pub open spec fn own_path(operation: OperationModel) -> Seq<char> {
    match operation {
        OperationModel::Add { path, .. } => path,
        OperationModel::Delete { path } => path,
        OperationModel::Update { path, .. } => path,
    }
}

/// The path that an operation writes to.
pub open spec fn written_path(operation: OperationModel) -> Seq<char> {
    match operation {
        OperationModel::Update { move_to: Some(target), .. } => target,
        _ => own_path(operation),
    }
}

/// What the summary says of an operation.
pub open spec fn affected_text(operation: OperationModel) -> Seq<char> {
    match operation {
        OperationModel::Update { path, move_to: Some(target), .. } => path + " -> "@ + target,
        _ => own_path(operation),
    }
}

/// The new file that a planned operation creates, and its directory.
pub open spec fn new_file(planned: PlannedModel) -> Option<(PathId, PathId)> {
    match planned {
        PlannedModel::Add { full, parent, .. } => Some((full, parent)),
        PlannedModel::Update { destination, .. } => destination,
        PlannedModel::Delete { .. } => None,
    }
}

/// The run, ended by an error.
pub open spec fn failed(run: RunModel, error: ExecutionErrorModel) -> RunModel {
    RunModel { step: Step::Finished, outcome: Some(Err(error)), ..run }
}

/// The run, with the check of operation `current` begun; behind the last one
/// the action is counted.
pub open spec fn planning(run: RunModel, current: int) -> RunModel {
    if current >= run.operations.len() {
        RunModel { step: Step::RecordAction, current: 0, ..run }
    } else {
        RunModel {
            current,
            step: match run.operations[current] {
                OperationModel::Add { .. } => Step::Add { step: FutureStep::Allowed },
                OperationModel::Delete { .. } => Step::Delete { step: ExistingStep::Allowed },
                OperationModel::Update { .. } => Step::Source { step: ExistingStep::Allowed },
            },
            ..run
        }
    }
}

/// The run, with one more operation planned.
pub open spec fn planned(run: RunModel, operation: PlannedModel) -> RunModel {
    planning(RunModel { plan: run.plan.push(operation), ..run }, run.current + 1)
}

/// The run, with operation `current` of the plan begun; behind the last one it
/// is done.
pub open spec fn applying(run: RunModel, current: int) -> RunModel {
    if current >= run.plan.len() {
        RunModel { step: Step::Finished, outcome: Some(Ok(run.affected)), ..run }
    } else {
        RunModel {
            current,
            step: match run.plan[current] {
                PlannedModel::Add { .. } => Step::Ready { step: ReadyStep::CreateDirectories },
                PlannedModel::Delete { target } => Step::Remove { at: target },
                PlannedModel::Update { destination: Some(_), .. } => Step::Ready {
                    step: ReadyStep::CreateDirectories,
                },
                PlannedModel::Update { source, .. } => Step::Write { at: source },
            },
            ..run
        }
    }
}

/// The run, with one more operation carried out.
pub open spec fn applied(run: RunModel, operation: OperationModel) -> RunModel {
    applying(
        RunModel { affected: run.affected.push(affected_text(operation)), ..run },
        run.current + 1,
    )
}

/// What the run asks for.
pub open spec fn requested(run: RunModel) -> Option<RequestModel> {
    match (run.step, current_operation(run), current_plan(run)) {
        (Step::CanAct, _, _) => Some(RequestModel::CanAct),
        (Step::RateLimited, _, _) => Some(RequestModel::RateLimited),
        (Step::RecordAction, _, _) => Some(RequestModel::RecordAction),
        (Step::Add { step }, Some(OperationModel::Add { path, .. }), _) => Some(
            future_request(step, run.workspace, path),
        ),
        (Step::Delete { step }, Some(OperationModel::Delete { path }), _) => Some(
            existing_request(step, run.workspace, path),
        ),
        (Step::Source { step }, Some(OperationModel::Update { path, .. }), _) => Some(
            existing_request(step, run.workspace, path),
        ),
        (Step::Read { source }, _, _) => Some(RequestModel::Read { at: source }),
        (
            Step::Destination { step, .. },
            Some(OperationModel::Update { move_to: Some(target), .. }),
            _,
        ) => Some(future_request(step, run.workspace, target)),
        (Step::Ready { step }, _, Some(plan)) => match new_file(plan) {
            Some((full, parent)) => Some(ready_request(step, full, parent)),
            None => None,
        },
        (Step::Write { at }, _, Some(PlannedModel::Add { content, .. })) => Some(
            RequestModel::Write { at, content },
        ),
        (Step::Write { at }, _, Some(PlannedModel::Update { content, .. })) => Some(
            RequestModel::Write { at, content },
        ),
        (Step::Remove { at }, _, _) => Some(RequestModel::Remove { at }),
        _ => None,
    }
}

/// The run after the answer to what it asked for. An answer to another question
/// leaves it as it is.
pub open spec fn advanced(run: RunModel, reply: ReplyModel) -> RunModel {
    match (run.step, current_operation(run)) {
        (Step::CanAct, _) => match reply {
            ReplyModel::Flag(true) => RunModel { step: Step::RateLimited, ..run },
            ReplyModel::Flag(false) => failed(run, ExecutionErrorModel::ReadOnly),
            _ => run,
        },
        (Step::RateLimited, _) => match reply {
            ReplyModel::Flag(true) => failed(run, ExecutionErrorModel::RateLimited),
            ReplyModel::Flag(false) => planning(run, 0),
            _ => run,
        },
        (Step::Add { step }, Some(OperationModel::Add { path, lines })) => match future_next(
            step,
            path,
            false,
            reply,
        ) {
            Next::Ask(step) => RunModel { step: Step::Add { step }, ..run },
            Next::Fail(error) => failed(run, error),
            Next::Done((full, parent)) => planned(
                run,
                PlannedModel::Add { full, parent, content: file_text(lines, false) },
            ),
        },
        (Step::Delete { step }, Some(OperationModel::Delete { path })) => match existing_next(
            step,
            path,
            reply,
        ) {
            Next::Ask(step) => RunModel { step: Step::Delete { step }, ..run },
            Next::Fail(error) => failed(run, error),
            Next::Done(target) => planned(run, PlannedModel::Delete { target }),
        },
        (Step::Source { step }, Some(OperationModel::Update { path, .. })) => match existing_next(
            step,
            path,
            reply,
        ) {
            Next::Ask(step) => RunModel { step: Step::Source { step }, ..run },
            Next::Fail(error) => failed(run, error),
            Next::Done(source) => RunModel { step: Step::Read { source }, ..run },
        },
        (Step::Read { source }, Some(OperationModel::Update { path, move_to, hunks })) => match reply {
            ReplyModel::Text(Err(reason)) => failed(
                run,
                ExecutionErrorModel::ReadFailed { path, reason },
            ),
            ReplyModel::Text(Ok(text)) => match text_after_hunks(text, hunks, path) {
                Err(error) => failed(run, error),
                Ok(content) => if move_to is Some {
                    RunModel {
                        step: Step::Destination { source, step: FutureStep::Allowed },
                        draft: content,
                        ..run
                    }
                } else {
                    planned(run, PlannedModel::Update { source, destination: None, content })
                },
            },
            _ => run,
        },
        (
            Step::Destination { source, step },
            Some(OperationModel::Update { move_to: Some(target), .. }),
        ) => match future_next(step, target, true, reply) {
            Next::Ask(step) => RunModel { step: Step::Destination { source, step }, ..run },
            Next::Fail(error) => failed(run, error),
            Next::Done(destination) => planned(
                run,
                PlannedModel::Update {
                    source,
                    destination: Some(destination),
                    content: run.draft,
                },
            ),
        },
        (Step::RecordAction, _) => match reply {
            ReplyModel::Flag(true) => applying(run, 0),
            ReplyModel::Flag(false) => failed(run, ExecutionErrorModel::ActionBudgetExhausted),
            _ => run,
        },
        (Step::Ready { step }, Some(operation)) => match ready_next(
            step,
            written_path(operation),
            reply,
        ) {
            Next::Ask(step) => RunModel { step: Step::Ready { step }, ..run },
            Next::Fail(error) => failed(run, error),
            Next::Done(target) => RunModel { step: Step::Write { at: target }, ..run },
        },
        (Step::Write { .. }, Some(operation)) => match (reply, current_plan(run)) {
            (ReplyModel::Done(Some(reason)), _) => failed(
                run,
                ExecutionErrorModel::WriteFailed { path: written_path(operation), reason },
            ),
            (
                ReplyModel::Done(None),
                Some(PlannedModel::Update { source, destination: Some(_), .. }),
            ) => RunModel { step: Step::Remove { at: source }, ..run },
            (ReplyModel::Done(None), _) => applied(run, operation),
            _ => run,
        },
        (Step::Remove { .. }, Some(operation)) => match reply {
            ReplyModel::Done(Some(reason)) => failed(
                run,
                ExecutionErrorModel::DeleteFailed { path: own_path(operation), reason },
            ),
            ReplyModel::Done(None) => applied(run, operation),
            _ => run,
        },
        _ => run,
    }
}

/// The path that an operation is about, before it is carried out.
fn own_path_of(operation: &PatchOperation) -> (r: &String)
    ensures
        r@ == own_path(operation@),
{
    match operation {
        PatchOperation::Add(op) => &op.path,
        PatchOperation::Delete(op) => &op.path,
        PatchOperation::Update(op) => &op.path,
    }
}

/// The path that an operation writes to.
fn written_path_of(operation: &PatchOperation) -> (r: &String)
    ensures
        r@ == written_path(operation@),
{
    match operation {
        PatchOperation::Update(op) => match &op.move_to {
            Some(target) => target,
            None => &op.path,
        },
        _ => own_path_of(operation),
    }
}

/// What the summary says of an operation.
fn affected_text_of(operation: &PatchOperation) -> (r: String)
    ensures
        r@ == affected_text(operation@),
{
    let mut text = own_path_of(operation).clone();
    if let PatchOperation::Update(op) = operation {
        if let Some(target) = &op.move_to {
            text.append(" -> ");
            text.append(target.as_str());
        }
    }
    text
}

impl PatchRun {
    /// Begins to carry out `document` in `workspace`.
    pub fn start(workspace: String, document: PatchDocument) -> (r: PatchRun)
        ensures
            r@ == started(workspace@, document@),
    {
        let run = PatchRun {
            workspace,
            document,
            step: Step::CanAct,
            current: 0,
            plan: Vec::new(),
            draft: String::new(),
            affected: Vec::new(),
            outcome: None,
        };
        assert(run@ == started(workspace@, document@));
        run
    }

    /// What is to be done next; nothing, once the run has ended.
    pub fn request(&self) -> (r: Option<HostRequest>)
        ensures
            match r {
                Some(request) => requested(self@) == Some(request@),
                None => requested(self@) is None,
            },
    {
        match self.step {
            Step::CanAct => Some(HostRequest::CanAct),
            Step::RateLimited => Some(HostRequest::RateLimited),
            Step::RecordAction => Some(HostRequest::RecordAction),
            Step::Read { source } => Some(HostRequest::Read { at: source }),
            Step::Remove { at } => Some(HostRequest::Remove { at }),
            Step::Finished => None,
            Step::Add { .. } | Step::Delete { .. } | Step::Source { .. } | Step::Destination {
                ..
            } => self.check_request(),
            Step::Ready { .. } | Step::Write { .. } => self.plan_request(),
        }
    }

    /// What the check of the current operation asks for.
    fn check_request(&self) -> (r: Option<HostRequest>)
        requires
            self.step is Add || self.step is Delete || self.step is Source
                || self.step is Destination,
        ensures
            match r {
                Some(request) => requested(self@) == Some(request@),
                None => requested(self@) is None,
            },
    {
        if self.current >= self.document.operations.len() {
            return None;
        }
        assert(self@.operations[self.current as int]
            == self.document.operations@[self.current as int]@);
        let workspace = self.workspace.as_str();
        match (self.step, &self.document.operations[self.current]) {
            (Step::Add { step }, PatchOperation::Add(op)) => Some(
                ask_future(step, workspace, op.path.as_str()),
            ),
            (Step::Delete { step }, PatchOperation::Delete(op)) => Some(
                ask_existing(step, workspace, op.path.as_str()),
            ),
            (Step::Source { step }, PatchOperation::Update(op)) => Some(
                ask_existing(step, workspace, op.path.as_str()),
            ),
            (Step::Destination { step, .. }, PatchOperation::Update(op)) => match &op.move_to {
                Some(target) => Some(ask_future(step, workspace, target.as_str())),
                None => None,
            },
            _ => None,
        }
    }

    /// What carrying out the current operation asks for.
    fn plan_request(&self) -> (r: Option<HostRequest>)
        requires
            self.step is Ready || self.step is Write,
        ensures
            match r {
                Some(request) => requested(self@) == Some(request@),
                None => requested(self@) is None,
            },
    {
        if self.current >= self.plan.len() {
            return None;
        }
        assert(self@.plan[self.current as int] == self.plan@[self.current as int]@);
        match (self.step, &self.plan[self.current]) {
            (Step::Ready { step }, PlannedOperation::Add { full, parent, .. }) => Some(
                ask_ready(step, *full, *parent),
            ),
            (Step::Ready { step }, PlannedOperation::Update { destination, .. }) => match destination {
                Some((full, parent)) => Some(ask_ready(step, *full, *parent)),
                None => None,
            },
            (Step::Write { at }, PlannedOperation::Add { content, .. }) => Some(
                HostRequest::Write { at, content: content.clone() },
            ),
            (Step::Write { at }, PlannedOperation::Update { content, .. }) => Some(
                HostRequest::Write { at, content: content.clone() },
            ),
            _ => None,
        }
    }

    fn fail(&mut self, error: PatchExecutionError)
        ensures
            final(self)@ == failed(old(self)@, error@),
    {
        self.step = Step::Finished;
        self.outcome = Some(Err(error));
    }

    /// Begins the check of operation `current`.
    fn plan_from(&mut self, current: usize)
        ensures
            final(self)@ == planning(old(self)@, current as int),
    {
        if current >= self.document.operations.len() {
            self.step = Step::RecordAction;
            self.current = 0;
            return;
        }
        assert(self@.operations[current as int] == self.document.operations@[current as int]@);
        self.current = current;
        self.step = match &self.document.operations[current] {
            PatchOperation::Add(_) => Step::Add { step: FutureStep::Allowed },
            PatchOperation::Delete(_) => Step::Delete { step: ExistingStep::Allowed },
            PatchOperation::Update(_) => Step::Source { step: ExistingStep::Allowed },
        };
    }

    /// Adds one operation to the plan.
    fn add_to_plan(&mut self, operation: PlannedOperation)
        requires
            old(self).current < old(self).document.operations.len(),
        ensures
            final(self)@ == planned(old(self)@, operation@),
    {
        let ghost before = planned_models(self.plan@);
        self.plan.push(operation);
        assert(planned_models(self.plan@) == before.push(operation@));
        self.plan_from(self.current + 1);
    }

    /// Begins operation `current` of the plan.
    fn apply_from(&mut self, current: usize)
        ensures
            final(self)@ == applying(old(self)@, current as int),
    {
        if current >= self.plan.len() {
            self.step = Step::Finished;
            let affected_paths = clone_texts(&self.affected);
            self.outcome = Some(Ok(PatchExecutionSummary { affected_paths }));
            return;
        }
        assert(self@.plan[current as int] == self.plan@[current as int]@);
        self.current = current;
        self.step = match &self.plan[current] {
            PlannedOperation::Add { .. } => Step::Ready { step: ReadyStep::CreateDirectories },
            PlannedOperation::Delete { target } => Step::Remove { at: *target },
            PlannedOperation::Update { source, destination, .. } => match destination {
                Some(_) => Step::Ready { step: ReadyStep::CreateDirectories },
                None => Step::Write { at: *source },
            },
        };
    }

    /// Notes that the current operation is carried out, and begins the next.
    fn finish_operation(&mut self)
        requires
            old(self).current < old(self).document.operations.len(),
        ensures
            final(self)@ == applied(
                old(self)@,
                old(self)@.operations[old(self).current as int],
            ),
    {
        let ghost before = texts(self.affected@);
        let text = affected_text_of(&self.document.operations[self.current]);
        self.affected.push(text);
        assert(texts(self.affected@) == before.push(text@));
        self.apply_from(self.current + 1);
    }

    /// Goes on after the answer to what was asked for.
    pub fn advance(&mut self, reply: HostReply)
        ensures
            final(self)@ == advanced(old(self)@, reply@),
    {
        match self.step {
            Step::CanAct => match reply {
                HostReply::Flag(true) => {
                    self.step = Step::RateLimited;
                },
                HostReply::Flag(false) => self.fail(PatchExecutionError::ReadOnly),
                _ => {},
            },
            Step::RateLimited => match reply {
                HostReply::Flag(true) => self.fail(PatchExecutionError::RateLimited),
                HostReply::Flag(false) => self.plan_from(0),
                _ => {},
            },
            Step::RecordAction => match reply {
                HostReply::Flag(true) => self.apply_from(0),
                HostReply::Flag(false) => self.fail(PatchExecutionError::ActionBudgetExhausted),
                _ => {},
            },
            Step::Finished => {},
            _ => {
                if self.current < self.document.operations.len() {
                    assert(self@.operations[self.current as int]
                        == self.document.operations@[self.current as int]@);
                    self.advance_operation(reply);
                }
            },
        }
    }

    /// Goes on with the current operation.
    fn advance_operation(&mut self, reply: HostReply)
        requires
            old(self).current < old(self).document.operations.len(),
            !(old(self).step is CanAct),
            !(old(self).step is RateLimited),
            !(old(self).step is RecordAction),
            !(old(self).step is Finished),
        ensures
            final(self)@ == advanced(old(self)@, reply@),
    {
        match self.step {
            Step::Add { step } => self.advance_add(step, &reply),
            Step::Delete { step } => self.advance_delete(step, &reply),
            Step::Source { step } => self.advance_source(step, &reply),
            Step::Read { source } => self.advance_read(source, &reply),
            Step::Destination { source, step } => self.advance_destination(source, step, &reply),
            Step::Ready { step } => self.advance_ready(step, &reply),
            Step::Write { .. } => self.advance_write(&reply),
            Step::Remove { .. } => self.advance_remove(&reply),
            _ => {},
        }
    }

    fn advance_add(&mut self, step: FutureStep, reply: &HostReply)
        requires
            old(self).current < old(self).document.operations.len(),
            old(self).step == (Step::Add { step }),
        ensures
            final(self)@ == advanced(old(self)@, reply@),
    {
        assert(self@.operations[self.current as int]
            == self.document.operations@[self.current as int]@);
        let (next, content) = match &self.document.operations[self.current] {
            PatchOperation::Add(op) => (
                validate_future_patch_target(step, op.path.as_str(), false, reply),
                join_text_lines(op.lines.as_slice(), false),
            ),
            _ => {
                return;
            },
        };
        match next {
            Next::Ask(step) => {
                self.step = Step::Add { step };
            },
            Next::Fail(error) => self.fail(error),
            Next::Done((full, parent)) => self.add_to_plan(
                PlannedOperation::Add { full, parent, content },
            ),
        }
    }

    fn advance_delete(&mut self, step: ExistingStep, reply: &HostReply)
        requires
            old(self).current < old(self).document.operations.len(),
            old(self).step == (Step::Delete { step }),
        ensures
            final(self)@ == advanced(old(self)@, reply@),
    {
        assert(self@.operations[self.current as int]
            == self.document.operations@[self.current as int]@);
        let next = match &self.document.operations[self.current] {
            PatchOperation::Delete(op) => validate_existing_patch_target(
                step,
                op.path.as_str(),
                reply,
            ),
            _ => {
                return;
            },
        };
        match next {
            Next::Ask(step) => {
                self.step = Step::Delete { step };
            },
            Next::Fail(error) => self.fail(error),
            Next::Done(target) => self.add_to_plan(PlannedOperation::Delete { target }),
        }
    }

    fn advance_source(&mut self, step: ExistingStep, reply: &HostReply)
        requires
            old(self).current < old(self).document.operations.len(),
            old(self).step == (Step::Source { step }),
        ensures
            final(self)@ == advanced(old(self)@, reply@),
    {
        assert(self@.operations[self.current as int]
            == self.document.operations@[self.current as int]@);
        let next = match &self.document.operations[self.current] {
            PatchOperation::Update(op) => validate_existing_patch_target(
                step,
                op.path.as_str(),
                reply,
            ),
            _ => {
                return;
            },
        };
        match next {
            Next::Ask(step) => {
                self.step = Step::Source { step };
            },
            Next::Fail(error) => self.fail(error),
            Next::Done(source) => {
                self.step = Step::Read { source };
            },
        }
    }

    fn advance_read(&mut self, source: PathId, reply: &HostReply)
        requires
            old(self).current < old(self).document.operations.len(),
            old(self).step == (Step::Read { source }),
        ensures
            final(self)@ == advanced(old(self)@, reply@),
    {
        assert(self@.operations[self.current as int]
            == self.document.operations@[self.current as int]@);
        let (result, moves) = match (&self.document.operations[self.current], reply) {
            (PatchOperation::Update(op), HostReply::Text(Ok(text))) => (
                apply_hunks_to_text(text.as_str(), op.hunks.as_slice(), op.path.as_str()),
                op.move_to.is_some(),
            ),
            (PatchOperation::Update(op), HostReply::Text(Err(reason))) => (
                Err(
                    PatchExecutionError::ReadFailed {
                        path: op.path.clone(),
                        reason: reason.clone(),
                    },
                ),
                false,
            ),
            _ => {
                return;
            },
        };
        match result {
            Err(error) => self.fail(error),
            Ok(content) => {
                if moves {
                    self.step = Step::Destination { source, step: FutureStep::Allowed };
                    self.draft = content;
                } else {
                    self.add_to_plan(
                        PlannedOperation::Update { source, destination: None, content },
                    );
                }
            },
        }
    }

    fn advance_destination(&mut self, source: PathId, step: FutureStep, reply: &HostReply)
        requires
            old(self).current < old(self).document.operations.len(),
            old(self).step == (Step::Destination { source, step }),
        ensures
            final(self)@ == advanced(old(self)@, reply@),
    {
        assert(self@.operations[self.current as int]
            == self.document.operations@[self.current as int]@);
        let next = match &self.document.operations[self.current] {
            PatchOperation::Update(op) => match &op.move_to {
                Some(target) => validate_future_patch_target(step, target.as_str(), true, reply),
                None => {
                    return;
                },
            },
            _ => {
                return;
            },
        };
        match next {
            Next::Ask(step) => {
                self.step = Step::Destination { source, step };
            },
            Next::Fail(error) => self.fail(error),
            Next::Done(destination) => {
                let content = self.draft.clone();
                self.add_to_plan(
                    PlannedOperation::Update { source, destination: Some(destination), content },
                );
            },
        }
    }

    fn advance_ready(&mut self, step: ReadyStep, reply: &HostReply)
        requires
            old(self).current < old(self).document.operations.len(),
            old(self).step == (Step::Ready { step }),
        ensures
            final(self)@ == advanced(old(self)@, reply@),
    {
        assert(self@.operations[self.current as int]
            == self.document.operations@[self.current as int]@);
        let path = written_path_of(&self.document.operations[self.current]);
        match materialize_writable_target(step, path.as_str(), reply) {
            Next::Ask(step) => {
                self.step = Step::Ready { step };
            },
            Next::Fail(error) => self.fail(error),
            Next::Done(target) => {
                self.step = Step::Write { at: target };
            },
        }
    }

    fn advance_write(&mut self, reply: &HostReply)
        requires
            old(self).current < old(self).document.operations.len(),
            old(self).step is Write,
        ensures
            final(self)@ == advanced(old(self)@, reply@),
    {
        assert(self@.operations[self.current as int]
            == self.document.operations@[self.current as int]@);
        match reply {
            HostReply::Done(Err(reason)) => {
                let path = written_path_of(&self.document.operations[self.current]).clone();
                self.fail(PatchExecutionError::WriteFailed { path, reason: reason.clone() });
            },
            HostReply::Done(Ok(())) => {
                if self.current < self.plan.len() {
                    assert(self@.plan[self.current as int] == self.plan@[self.current as int]@);
                    if let PlannedOperation::Update { source, destination: Some(_), .. } =
                        &self.plan[self.current] {
                        self.step = Step::Remove { at: *source };
                        return;
                    }
                }
                self.finish_operation();
            },
            _ => {},
        }
    }

    fn advance_remove(&mut self, reply: &HostReply)
        requires
            old(self).current < old(self).document.operations.len(),
            old(self).step is Remove,
        ensures
            final(self)@ == advanced(old(self)@, reply@),
    {
        assert(self@.operations[self.current as int]
            == self.document.operations@[self.current as int]@);
        match reply {
            HostReply::Done(Err(reason)) => {
                let path = own_path_of(&self.document.operations[self.current]).clone();
                self.fail(PatchExecutionError::DeleteFailed { path, reason: reason.clone() });
            },
            HostReply::Done(Ok(())) => self.finish_operation(),
            _ => {},
        }
    }
}

} // verus!
