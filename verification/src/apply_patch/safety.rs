//! What holds of carrying out a patch, whatever the program around it answers.

use crate::apply_patch::document::OperationModel;
use crate::apply_patch::errors::ExecutionErrorModel;
use crate::apply_patch::execution::{
    advanced, affected_text, applied, applying, new_file, planned, requested, started, PlannedModel,
    RunModel, Step,
};
use crate::apply_patch::hunks::{file_text, text_after_hunks};
use crate::apply_patch::protocol::{
    changes_files, EntryModel, PathId, ReplyModel, RequestModel, ResolutionModel,
};
use crate::apply_patch::targets::{
    existing_next, existing_request, future_next, ready_request, ExistingStep, Next, ReadyStep,
};
use vstd::prelude::*;

verus! {

/// A question, if one was open, and what came back.
pub type Exchange = (Option<RequestModel>, ReplyModel);

/// A run after so many replies.
pub open spec fn after(run: RunModel, replies: Seq<ReplyModel>) -> RunModel
    decreases replies.len(),
{
    if replies.len() == 0 {
        run
    } else {
        advanced(after(run, replies.drop_last()), replies.last())
    }
}

/// What was asked and answered on the way.
pub open spec fn history(run: RunModel, replies: Seq<ReplyModel>) -> Seq<Exchange>
    decreases replies.len(),
{
    if replies.len() == 0 {
        seq![]
    } else {
        history(run, replies.drop_last()).push(
            (requested(after(run, replies.drop_last())), replies.last()),
        )
    }
}

/// Whether the question was asked and got that answer.
pub open spec fn answered(h: Seq<Exchange>, request: RequestModel, reply: ReplyModel) -> bool {
    exists|i: int| 0 <= i < h.len() && #[trigger] h[i] == (Some(request), reply)
}

/// Whether a path was resolved to `at`, and the policy allowed that.
pub open spec fn is_allowed(h: Seq<Exchange>, at: PathId) -> bool {
    exists|from: PathId| #[trigger]
        answered(
            h,
            RequestModel::Resolve { at: from },
            ReplyModel::Resolved(ResolutionModel::Allowed { at }),
        )
}

/// Whether `at` is the name of the file `of` in a directory that the policy
/// allowed.
pub open spec fn is_in_allowed_directory(h: Seq<Exchange>, at: PathId, of: PathId) -> bool {
    exists|directory: PathId|
        is_allowed(h, directory) && #[trigger] answered(
            h,
            RequestModel::JoinFileName { directory, of },
            ReplyModel::Path(Some(at)),
        )
}

/// Whether `at` was looked at and is no symbolic link.
pub open spec fn is_no_link(h: Seq<Exchange>, at: PathId) -> bool {
    exists|entry: EntryModel|
        entry != EntryModel::Symlink && #[trigger] answered(
            h,
            RequestModel::ProbeLink { at },
            ReplyModel::Entry(entry),
        )
}

/// Whether `at` was looked for and nothing was there.
pub open spec fn was_missing(h: Seq<Exchange>, at: PathId) -> bool {
    answered(h, RequestModel::Probe { at }, ReplyModel::Entry(EntryModel::Missing))
}

/// Whether the policy lets the agent act, and it has not acted too often.
pub open spec fn is_free_to_act(h: Seq<Exchange>) -> bool {
    &&& answered(h, RequestModel::CanAct, ReplyModel::Flag(true))
    &&& answered(h, RequestModel::RateLimited, ReplyModel::Flag(false))
}

/// Whether the action was counted, and there was room for it.
pub open spec fn is_recorded(h: Seq<Exchange>) -> bool {
    answered(h, RequestModel::RecordAction, ReplyModel::Flag(true))
}

/// Whether `content` is what was read at `source`, with the hunks applied.
pub open spec fn is_updated_text(
    h: Seq<Exchange>,
    operation: OperationModel,
    source: PathId,
    content: Seq<char>,
) -> bool {
    operation matches OperationModel::Update { path, hunks, .. } && exists|text: Seq<char>|
        #![trigger text_after_hunks(text, hunks, path)]
        answered(h, RequestModel::Read { at: source }, ReplyModel::Text(Ok(text)))
            && text_after_hunks(text, hunks, path) == Ok::<
            Seq<char>,
            ExecutionErrorModel,
        >(content)
}

/// Whether `planned` is the plan for `operation`: what it is about to write is
/// what the operation says, what it is about to change is allowed, and what it
/// is about to create was not there.
pub open spec fn is_plan_for(
    h: Seq<Exchange>,
    operation: OperationModel,
    planned: PlannedModel,
) -> bool {
    match (operation, planned) {
        (OperationModel::Add { lines, .. }, PlannedModel::Add { full, content, .. }) => content
            == file_text(lines, false) && was_missing(h, full),
        (OperationModel::Delete { .. }, PlannedModel::Delete { target }) => is_allowed(h, target),
        (
            OperationModel::Update { move_to, .. },
            PlannedModel::Update { source, destination, content },
        ) => {
            &&& is_allowed(h, source)
            &&& destination is Some <==> move_to is Some
            &&& destination matches Some((full, _)) ==> was_missing(h, full)
            &&& is_updated_text(h, operation, source, content)
        },
        _ => false,
    }
}

/// Whether `content` was written to `at`.
pub open spec fn is_written(h: Seq<Exchange>, at: PathId, content: Seq<char>) -> bool {
    answered(h, RequestModel::Write { at, content }, ReplyModel::Done(None))
}

/// Whether `content` was written to the file `of`, by its name in an allowed
/// directory.
pub open spec fn is_created(h: Seq<Exchange>, of: PathId, content: Seq<char>) -> bool {
    exists|at: PathId| is_in_allowed_directory(h, at, of) && #[trigger] is_written(h, at, content)
}

/// Whether `at` was removed.
pub open spec fn is_removed(h: Seq<Exchange>, at: PathId) -> bool {
    answered(h, RequestModel::Remove { at }, ReplyModel::Done(None))
}

/// Whether a planned operation was carried out.
pub open spec fn is_carried_out(h: Seq<Exchange>, planned: PlannedModel) -> bool {
    match planned {
        PlannedModel::Add { full, content, .. } => is_created(h, full, content),
        PlannedModel::Delete { target } => is_removed(h, target),
        PlannedModel::Update { source, destination: None, content } => is_written(
            h,
            source,
            content,
        ),
        PlannedModel::Update { source, destination: Some((full, _)), content } => is_created(
            h,
            full,
            content,
        ) && is_removed(h, source),
    }
}

/// What the summary says of each operation.
pub open spec fn affected_texts(operations: Seq<OperationModel>) -> Seq<Seq<char>> {
    Seq::new(operations.len(), |i: int| affected_text(operations[i]))
}

spec fn is_planning(step: Step) -> bool {
    step is Add || step is Delete || step is Source || step is Read || step is Destination
}

spec fn is_applying(step: Step) -> bool {
    step is Ready || step is Write || step is Remove
}

/// Whether the whole plan was carried out.
spec fn is_all_done(run: RunModel, h: Seq<Exchange>, count: int) -> bool {
    forall|i: int| 0 <= i < count ==> is_carried_out(h, #[trigger] run.plan[i])
}

/// What the open question rests on.
spec fn is_step_sound(run: RunModel, h: Seq<Exchange>) -> bool {
    match run.step {
        Step::Add { .. } => run.operations[run.current] is Add,
        Step::Delete { .. } => run.operations[run.current] is Delete,
        Step::Source { .. } => run.operations[run.current] is Update,
        Step::Read { source } => is_allowed(h, source) && run.operations[run.current] is Update,
        Step::Destination { source, .. } => {
            &&& is_allowed(h, source)
            &&& is_updated_text(h, run.operations[run.current], source, run.draft)
            &&& run.operations[run.current] matches OperationModel::Update { move_to, .. }
                && move_to is Some
        },
        Step::Ready { step } => {
            &&& new_file(run.plan[run.current]) is Some
            &&& step matches ReadyStep::Join { directory } ==> is_allowed(h, directory)
            &&& step matches ReadyStep::Link { target } ==> is_in_allowed_directory(
                h,
                target,
                (new_file(run.plan[run.current])->0).0,
            )
        },
        Step::Write { at } => match run.plan[run.current] {
            PlannedModel::Add { full, .. } => is_in_allowed_directory(h, at, full) && is_no_link(
                h,
                at,
            ),
            PlannedModel::Delete { .. } => false,
            PlannedModel::Update { source, destination, .. } => match destination {
                Some((full, _)) => is_in_allowed_directory(h, at, full) && is_no_link(h, at),
                None => at == source,
            },
        },
        Step::Remove { at } => match run.plan[run.current] {
            PlannedModel::Add { .. } => false,
            PlannedModel::Delete { target } => at == target,
            PlannedModel::Update { source, destination, content } => at == source && (
            destination matches Some((full, _)) && is_created(h, full, content)),
        },
        Step::Finished => run.outcome is Some,
        _ => true,
    }
}

/// What holds of a run at any time.
spec fn is_sound(run: RunModel, h: Seq<Exchange>) -> bool {
    &&& run.plan.len() <= run.operations.len()
    &&& forall|i: int|
        0 <= i < run.plan.len() ==> is_plan_for(h, run.operations[i], #[trigger] run.plan[i])
    &&& run.step is RateLimited ==> answered(h, RequestModel::CanAct, ReplyModel::Flag(true))
    &&& run.step is CanAct || run.step is RateLimited ==> run.plan.len() == 0
    &&& is_planning(run.step) ==> is_free_to_act(h) && run.plan.len() == run.current
        < run.operations.len()
    &&& run.step is RecordAction ==> is_free_to_act(h) && run.plan.len() == run.operations.len()
    &&& !is_applying(run.step) && !(run.step is Finished) ==> run.affected.len() == 0
    &&& is_applying(run.step) ==> {
        &&& is_free_to_act(h)
        &&& is_recorded(h)
        &&& run.plan.len() == run.operations.len()
        &&& 0 <= run.current < run.plan.len()
        &&& run.affected == affected_texts(run.operations).take(run.current)
        &&& is_all_done(run, h, run.current)
    }
    &&& is_step_sound(run, h)
    &&& run.outcome is Some ==> run.step is Finished
    &&& run.outcome matches Some(Ok(affected)) ==> {
        &&& is_free_to_act(h)
        &&& is_recorded(h)
        &&& run.plan.len() == run.operations.len()
        &&& affected == affected_texts(run.operations)
        &&& is_all_done(run, h, run.plan.len() as int)
    }
}

/// An answer stays in the history.
pub proof fn lemma_still_answered(
    h: Seq<Exchange>,
    more: Exchange,
    request: RequestModel,
    reply: ReplyModel,
)
    requires
        answered(h, request, reply),
    ensures
        answered(h.push(more), request, reply),
{
    let i = choose|i: int| 0 <= i < h.len() && #[trigger] h[i] == (Some(request), reply);
    assert(h.push(more)[i] == (Some(request), reply));
}

/// What the history shows of a path, it still shows when it is longer.
pub proof fn lemma_paths_longer(h: Seq<Exchange>, more: Exchange)
    ensures
        forall|request: RequestModel, reply: ReplyModel| #[trigger]
            answered(h, request, reply) ==> answered(h.push(more), request, reply),
        forall|at: PathId| #[trigger] is_allowed(h, at) ==> is_allowed(h.push(more), at),
        forall|at: PathId, of: PathId| #[trigger]
            is_in_allowed_directory(h, at, of) ==> is_in_allowed_directory(h.push(more), at, of),
        forall|at: PathId| #[trigger] is_no_link(h, at) ==> is_no_link(h.push(more), at),
        forall|of: PathId, content: Seq<char>| #[trigger]
            is_created(h, of, content) ==> is_created(h.push(more), of, content),
        forall|operation: OperationModel, source: PathId, content: Seq<char>| #[trigger]
            is_updated_text(h, operation, source, content) ==> is_updated_text(
                h.push(more),
                operation,
                source,
                content,
            ),
        more.0 matches Some(request) ==> answered(h.push(more), request, more.1),
{
    let longer = h.push(more);
    assert forall|request: RequestModel, reply: ReplyModel| #[trigger]
        answered(h, request, reply) implies answered(longer, request, reply) by {
        lemma_still_answered(h, more, request, reply);
    }
    assert(longer[h.len() as int] == more);
    assert forall|at: PathId| #[trigger] is_allowed(h, at) implies is_allowed(longer, at) by {
        let from = choose|from: PathId| #[trigger]
            answered(
                h,
                RequestModel::Resolve { at: from },
                ReplyModel::Resolved(ResolutionModel::Allowed { at }),
            );
        assert(answered(
            longer,
            RequestModel::Resolve { at: from },
            ReplyModel::Resolved(ResolutionModel::Allowed { at }),
        ));
    }
    assert forall|at: PathId, of: PathId| #[trigger] is_in_allowed_directory(h, at, of) implies
        is_in_allowed_directory(longer, at, of) by {
        let directory = choose|directory: PathId|
            is_allowed(h, directory) && #[trigger] answered(
                h,
                RequestModel::JoinFileName { directory, of },
                ReplyModel::Path(Some(at)),
            );
        assert(is_allowed(longer, directory));
        assert(answered(
            longer,
            RequestModel::JoinFileName { directory, of },
            ReplyModel::Path(Some(at)),
        ));
    }
    assert forall|at: PathId| #[trigger] is_no_link(h, at) implies is_no_link(longer, at) by {
        let entry = choose|entry: EntryModel|
            entry != EntryModel::Symlink && #[trigger] answered(
                h,
                RequestModel::ProbeLink { at },
                ReplyModel::Entry(entry),
            );
        assert(answered(longer, RequestModel::ProbeLink { at }, ReplyModel::Entry(entry)));
    }
    assert forall|of: PathId, content: Seq<char>| #[trigger] is_created(h, of, content) implies
        is_created(longer, of, content) by {
        let at = choose|at: PathId|
            is_in_allowed_directory(h, at, of) && #[trigger] is_written(h, at, content);
        assert(is_written(longer, at, content));
    }
    assert forall|operation: OperationModel, source: PathId, content: Seq<char>| #[trigger]
        is_updated_text(h, operation, source, content) implies is_updated_text(
        longer,
        operation,
        source,
        content,
    ) by {
        if let OperationModel::Update { path, hunks, .. } = operation {
            let text = choose|text: Seq<char>|
                #![trigger text_after_hunks(text, hunks, path)]
                answered(h, RequestModel::Read { at: source }, ReplyModel::Text(Ok(text)))
                    && text_after_hunks(text, hunks, path) == Ok::<
                    Seq<char>,
                    ExecutionErrorModel,
                >(content);
            assert(answered(
                longer,
                RequestModel::Read { at: source },
                ReplyModel::Text(Ok(text)),
            ));
        }
    }
}

/// What holds of a run holds with a longer history.
proof fn lemma_sound_longer(run: RunModel, h: Seq<Exchange>, more: Exchange)
    requires
        is_sound(run, h),
    ensures
        is_sound(run, h.push(more)),
{
    lemma_paths_longer(h, more);
}

/// A run with one more operation planned is sound.
proof fn lemma_planned(run: RunModel, h: Seq<Exchange>, operation: PlannedModel)
    requires
        is_sound(run, h),
        is_planning(run.step),
        is_plan_for(h, run.operations[run.current], operation),
    ensures
        is_sound(planned(run, operation), h),
{
    let next = planned(run, operation);
    assert forall|i: int| 0 <= i < next.plan.len() implies is_plan_for(
        h,
        next.operations[i],
        #[trigger] next.plan[i],
    ) by {
        if i < run.plan.len() {
            assert(next.plan[i] == run.plan[i]);
        }
    }
}

/// A run that begins with operation `current` of its plan, or is done with it,
/// is sound.
proof fn lemma_applying(run: RunModel, h: Seq<Exchange>, current: int)
    requires
        0 <= current <= run.plan.len() == run.operations.len(),
        forall|i: int|
            0 <= i < run.plan.len() ==> is_plan_for(h, run.operations[i], #[trigger] run.plan[i]),
        is_free_to_act(h),
        is_recorded(h),
        run.affected == affected_texts(run.operations).take(current),
        is_all_done(run, h, current),
        run.outcome is None,
    ensures
        is_sound(applying(run, current), h),
{
    let texts = affected_texts(run.operations);
    assert(texts.take(texts.len() as int) == texts);
}

/// A run with one more operation carried out is sound.
proof fn lemma_applied(run: RunModel, h: Seq<Exchange>)
    requires
        is_sound(run, h),
        is_applying(run.step),
        is_carried_out(h, run.plan[run.current]),
    ensures
        is_sound(applied(run, run.operations[run.current]), h),
{
    let texts = affected_texts(run.operations);
    let next = RunModel {
        affected: run.affected.push(affected_text(run.operations[run.current])),
        ..run
    };
    assert(texts.take(run.current).push(texts[run.current]) == texts.take(run.current + 1));
    lemma_applying(next, h, run.current + 1);
}

/// What holds of a run holds after one more reply, while it is planned.
proof fn lemma_sound_planning(run: RunModel, h: Seq<Exchange>, reply: ReplyModel)
    requires
        is_sound(run, h),
        is_planning(run.step),
    ensures
        is_sound(advanced(run, reply), h.push((requested(run), reply))),
{
    let longer = h.push((requested(run), reply));
    lemma_paths_longer(h, (requested(run), reply));
    lemma_sound_longer(run, h, (requested(run), reply));
    let operation = run.operations[run.current];
    match (run.step, operation) {
        (Step::Add { step }, OperationModel::Add { path, lines }) => {
            if let Next::Done((full, parent)) = future_next(step, path, false, reply) {
                assert(answered(longer, RequestModel::Probe { at: full }, reply));
                lemma_planned(
                    run,
                    longer,
                    PlannedModel::Add { full, parent, content: file_text(lines, false) },
                );
            }
        },
        (Step::Delete { step }, OperationModel::Delete { path }) => {
            if let Next::Done(target) = existing_next(step, path, reply) {
                lemma_resolved(run, h, reply, step, path);
                lemma_planned(run, longer, PlannedModel::Delete { target });
            }
        },
        (Step::Source { step }, OperationModel::Update { path, .. }) => {
            if let Next::Done(source) = existing_next(step, path, reply) {
                lemma_resolved(run, h, reply, step, path);
            }
        },
        (Step::Read { source }, OperationModel::Update { path, move_to, hunks }) => {
            if let ReplyModel::Text(Ok(text)) = reply {
                if let Ok(content) = text_after_hunks(text, hunks, path) {
                    assert(answered(longer, RequestModel::Read { at: source }, reply));
                    assert(is_updated_text(longer, operation, source, content));
                    if move_to is None {
                        lemma_planned(
                            run,
                            longer,
                            PlannedModel::Update { source, destination: None, content },
                        );
                    }
                }
            }
        },
        (
            Step::Destination { source, step },
            OperationModel::Update { move_to: Some(target), .. },
        ) => {
            if let Next::Done(destination) = future_next(step, target, true, reply) {
                assert(answered(longer, RequestModel::Probe { at: destination.0 }, reply));
                lemma_planned(
                    run,
                    longer,
                    PlannedModel::Update {
                        source,
                        destination: Some(destination),
                        content: run.draft,
                    },
                );
            }
        },
        _ => {},
    }
}

/// The path that the check of an existing file ends with is an allowed one.
proof fn lemma_resolved(
    run: RunModel,
    h: Seq<Exchange>,
    reply: ReplyModel,
    step: ExistingStep,
    path: Seq<char>,
)
    requires
        existing_next(step, path, reply) is Done,
        requested(run) == Some(existing_request(step, run.workspace, path)),
    ensures
        is_allowed(
            h.push((requested(run), reply)),
            existing_next(step, path, reply)->Done_0,
        ),
{
    lemma_paths_longer(h, (requested(run), reply));
    if let ExistingStep::ResolveAgain { full } = step {
        assert(answered(
            h.push((requested(run), reply)),
            RequestModel::Resolve { at: full },
            reply,
        ));
    }
}

/// What holds of a run holds after one more reply, while a new file is made ready.
proof fn lemma_sound_ready(run: RunModel, h: Seq<Exchange>, reply: ReplyModel, step: ReadyStep)
    requires
        is_sound(run, h),
        run.step == (Step::Ready { step }),
    ensures
        is_sound(advanced(run, reply), h.push((requested(run), reply))),
{
    let longer = h.push((requested(run), reply));
    lemma_paths_longer(h, (requested(run), reply));
    lemma_sound_longer(run, h, (requested(run), reply));
    let (full, parent) = new_file(run.plan[run.current])->0;
    let next = advanced(run, reply);
    assert(requested(run) == Some(ready_request(step, full, parent)));
    match (step, reply) {
        (ReadyStep::Resolve, ReplyModel::Resolved(ResolutionModel::Allowed { at })) => {
            assert(answered(longer, RequestModel::Resolve { at: parent }, reply));
            assert(is_allowed(longer, at));
        },
        (ReadyStep::Join { directory }, ReplyModel::Path(Some(target))) => {
            assert(answered(longer, RequestModel::JoinFileName { directory, of: full }, reply));
            assert(is_in_allowed_directory(longer, target, full));
        },
        (ReadyStep::Link { target }, ReplyModel::Entry(entry)) => {
            assert(answered(longer, RequestModel::ProbeLink { at: target }, reply));
            if entry != EntryModel::Symlink {
                assert(is_no_link(longer, target));
            }
        },
        _ => {},
    }
    assert(next.plan == run.plan && next.current == run.current);
    assert(next.affected == run.affected && next.operations == run.operations);
    assert(is_step_sound(next, longer));
    assert(is_all_done(next, longer, run.current));
}

/// What holds of a run holds after one more reply, while a file is written.
proof fn lemma_sound_write(run: RunModel, h: Seq<Exchange>, reply: ReplyModel, at: PathId)
    requires
        is_sound(run, h),
        run.step == (Step::Write { at }),
    ensures
        is_sound(advanced(run, reply), h.push((requested(run), reply))),
{
    let longer = h.push((requested(run), reply));
    lemma_paths_longer(h, (requested(run), reply));
    lemma_sound_longer(run, h, (requested(run), reply));
    if reply == ReplyModel::Done(None) {
        match run.plan[run.current] {
            PlannedModel::Add { full, content, .. } => {
                assert(is_written(longer, at, content));
                assert(is_created(longer, full, content));
                lemma_applied(run, longer);
            },
            PlannedModel::Update { source, destination, content } => {
                assert(is_written(longer, at, content));
                match destination {
                    None => lemma_applied(run, longer),
                    Some((full, _)) => {
                        assert(is_created(longer, full, content));
                        assert(is_all_done(advanced(run, reply), longer, run.current));
                    },
                }
            },
            _ => {},
        }
    }
}

/// What holds of a run holds after one more reply, while a file is removed.
proof fn lemma_sound_remove(run: RunModel, h: Seq<Exchange>, reply: ReplyModel, at: PathId)
    requires
        is_sound(run, h),
        run.step == (Step::Remove { at }),
    ensures
        is_sound(advanced(run, reply), h.push((requested(run), reply))),
{
    let longer = h.push((requested(run), reply));
    lemma_paths_longer(h, (requested(run), reply));
    lemma_sound_longer(run, h, (requested(run), reply));
    if reply == ReplyModel::Done(None) {
        assert(is_removed(longer, at));
        lemma_applied(run, longer);
    }
}

/// What holds of a run holds after one more reply.
proof fn lemma_sound_step(run: RunModel, h: Seq<Exchange>, reply: ReplyModel)
    requires
        is_sound(run, h),
    ensures
        is_sound(advanced(run, reply), h.push((requested(run), reply))),
{
    let longer = h.push((requested(run), reply));
    lemma_paths_longer(h, (requested(run), reply));
    lemma_sound_longer(run, h, (requested(run), reply));
    if is_planning(run.step) {
        lemma_sound_planning(run, h, reply);
    } else if let Step::Ready { step } = run.step {
        lemma_sound_ready(run, h, reply, step);
    } else if let Step::Write { at } = run.step {
        lemma_sound_write(run, h, reply, at);
    } else if let Step::Remove { at } = run.step {
        lemma_sound_remove(run, h, reply, at);
    } else if run.step is RecordAction && reply == ReplyModel::Flag(true) {
        assert(run.affected == affected_texts(run.operations).take(0));
        lemma_applying(run, longer, 0);
    }
}

/// What holds of a run holds after any replies.
proof fn lemma_sound(
    workspace: Seq<char>,
    operations: Seq<OperationModel>,
    replies: Seq<ReplyModel>,
)
    ensures
        is_sound(
            after(started(workspace, operations), replies),
            history(started(workspace, operations), replies),
        ),
        after(started(workspace, operations), replies).operations == operations,
    decreases replies.len(),
{
    let start = started(workspace, operations);
    if replies.len() > 0 {
        lemma_sound(workspace, operations, replies.drop_last());
        lemma_sound_step(
            after(start, replies.drop_last()),
            history(start, replies.drop_last()),
            replies.last(),
        );
    }
}

/// Nothing is created, written or removed before the policy let the agent act,
/// every operation of the patch passed its checks, and the action was counted.
pub proof fn law_checks_come_first(
    workspace: Seq<char>,
    operations: Seq<OperationModel>,
    replies: Seq<ReplyModel>,
    request: RequestModel,
)
    requires
        requested(after(started(workspace, operations), replies)) == Some(request),
        changes_files(request),
    ensures
        is_free_to_act(history(started(workspace, operations), replies)),
        is_recorded(history(started(workspace, operations), replies)),
        after(started(workspace, operations), replies).plan.len() == operations.len(),
        forall|i: int|
            0 <= i < operations.len() ==> is_plan_for(
                history(started(workspace, operations), replies),
                operations[i],
                #[trigger] after(started(workspace, operations), replies).plan[i],
            ),
{
    lemma_sound(workspace, operations, replies);
}

/// A file is written only where the policy allowed it: at a path that resolving
/// led to and the policy allowed, or at a name in such a directory that is no
/// symbolic link.
pub proof fn law_writes_are_allowed(
    workspace: Seq<char>,
    operations: Seq<OperationModel>,
    replies: Seq<ReplyModel>,
    at: PathId,
    content: Seq<char>,
)
    requires
        requested(after(started(workspace, operations), replies)) == Some(
            RequestModel::Write { at, content },
        ),
    ensures
        is_allowed(history(started(workspace, operations), replies), at) || ((exists|of: PathId|
         #[trigger]
            is_in_allowed_directory(history(started(workspace, operations), replies), at, of))
            && is_no_link(history(started(workspace, operations), replies), at)),
{
    lemma_sound(workspace, operations, replies);
    let run = after(started(workspace, operations), replies);
    let h = history(started(workspace, operations), replies);
    assert(is_plan_for(h, run.operations[run.current], run.plan[run.current]));
}

/// A file is removed only at a path that resolving led to and the policy allowed.
pub proof fn law_removals_are_allowed(
    workspace: Seq<char>,
    operations: Seq<OperationModel>,
    replies: Seq<ReplyModel>,
    at: PathId,
)
    requires
        requested(after(started(workspace, operations), replies)) == Some(
            RequestModel::Remove { at },
        ),
    ensures
        is_allowed(history(started(workspace, operations), replies), at),
{
    lemma_sound(workspace, operations, replies);
    let run = after(started(workspace, operations), replies);
    let h = history(started(workspace, operations), replies);
    assert(is_plan_for(h, run.operations[run.current], run.plan[run.current]));
}

/// A file is removed because the patch deletes it, or because it was moved; and
/// then only after its new text was written to the place that it is moved to,
/// where nothing was before.
pub proof fn law_move_removes_last(
    workspace: Seq<char>,
    operations: Seq<OperationModel>,
    replies: Seq<ReplyModel>,
    at: PathId,
)
    requires
        requested(after(started(workspace, operations), replies)) == Some(
            RequestModel::Remove { at },
        ),
    ensures
        ({
            let run = after(started(workspace, operations), replies);
            let h = history(started(workspace, operations), replies);
            &&& 0 <= run.current < operations.len()
            &&& match operations[run.current] {
                OperationModel::Add { .. } => false,
                OperationModel::Delete { .. } => true,
                OperationModel::Update { move_to, .. } => move_to is Some && exists|
                    to: PathId,
                    content: Seq<char>,
                |
                    is_updated_text(h, operations[run.current], at, content) && was_missing(h, to)
                        && #[trigger] is_created(h, to, content),
            }
        }),
{
    lemma_sound(workspace, operations, replies);
    let run = after(started(workspace, operations), replies);
    let h = history(started(workspace, operations), replies);
    assert(is_plan_for(h, run.operations[run.current], run.plan[run.current]));
    if let PlannedModel::Update { destination: Some((to, _)), content, .. } =
        run.plan[run.current] {
        assert(is_created(h, to, content));
    }
}

/// A run that does not ask for anything has ended, with success or an error.
pub proof fn law_run_ends_with_an_outcome(
    workspace: Seq<char>,
    operations: Seq<OperationModel>,
    replies: Seq<ReplyModel>,
)
    ensures
        requested(after(started(workspace, operations), replies)) is None ==> after(
            started(workspace, operations),
            replies,
        ).outcome is Some,
{
    lemma_sound(workspace, operations, replies);
}

/// A patch that succeeds was carried out as a whole: every operation was
/// planned for what it says, every plan was carried out, and the summary names
/// the operations in their order.
pub proof fn law_success_is_complete(
    workspace: Seq<char>,
    operations: Seq<OperationModel>,
    replies: Seq<ReplyModel>,
    affected: Seq<Seq<char>>,
)
    requires
        after(started(workspace, operations), replies).outcome == Some(
            Ok::<Seq<Seq<char>>, ExecutionErrorModel>(affected),
        ),
    ensures
        affected == affected_texts(operations),
        after(started(workspace, operations), replies).plan.len() == operations.len(),
        forall|i: int|
            0 <= i < operations.len() ==> {
                &&& is_plan_for(
                    history(started(workspace, operations), replies),
                    operations[i],
                    #[trigger] after(started(workspace, operations), replies).plan[i],
                )
                &&& is_carried_out(
                    history(started(workspace, operations), replies),
                    after(started(workspace, operations), replies).plan[i],
                )
            },
{
    lemma_sound(workspace, operations, replies);
}

/// Whether the question after the first `count` replies was one to change files.
pub open spec fn is_change_asked(
    workspace: Seq<char>,
    operations: Seq<OperationModel>,
    replies: Seq<ReplyModel>,
    count: int,
) -> bool {
    requested(after(started(workspace, operations), replies.take(count))) matches Some(request)
        && changes_files(request)
}

/// Whether a run ended with an error.
spec fn has_failed(run: RunModel) -> bool {
    run.outcome matches Some(Err(_))
}

/// What holds of a run that stopped: the action was counted only if its plan was
/// being carried out, and then all before the current operation is done.
spec fn is_stop_sound(run: RunModel, h: Seq<Exchange>) -> bool {
    &&& !is_applying(run.step) && !(run.step is Finished) ==> !is_recorded(h)
    &&& run.step is Finished && is_recorded(h) && has_failed(run) ==> {
        &&& run.plan.len() == run.operations.len()
        &&& 0 <= run.current < run.plan.len()
        &&& is_all_done(run, h, run.current)
    }
}

/// The action is counted by the answer to that question alone.
proof fn lemma_recorded(h: Seq<Exchange>, more: Exchange)
    requires
        is_recorded(h.push(more)),
    ensures
        is_recorded(h) || more == (Some(RequestModel::RecordAction), ReplyModel::Flag(true)),
{
    let longer = h.push(more);
    let wanted = (Some(RequestModel::RecordAction), ReplyModel::Flag(true));
    let i = choose|i: int| 0 <= i < longer.len() && #[trigger] longer[i] == wanted;
    if i < h.len() {
        assert(h[i] == wanted);
    }
}

/// What holds of a run that stopped holds after one more reply.
proof fn lemma_stop_sound_step(run: RunModel, h: Seq<Exchange>, reply: ReplyModel)
    requires
        is_sound(run, h),
        is_stop_sound(run, h),
    ensures
        is_stop_sound(advanced(run, reply), h.push((requested(run), reply))),
{
    let more = (requested(run), reply);
    let longer = h.push(more);
    lemma_paths_longer(h, more);
    lemma_sound_longer(run, h, more);
    if is_recorded(longer) {
        lemma_recorded(h, more);
    }
    if run.step is Finished && is_recorded(h) && has_failed(run) {
        assert forall|i: int| 0 <= i < run.current implies is_carried_out(
            longer,
            #[trigger] run.plan[i],
        ) by {
            assert(is_carried_out(h, run.plan[i]));
        }
    }
}

/// What holds of a run that stopped holds after any replies.
proof fn lemma_stop_sound(
    workspace: Seq<char>,
    operations: Seq<OperationModel>,
    replies: Seq<ReplyModel>,
)
    ensures
        is_stop_sound(
            after(started(workspace, operations), replies),
            history(started(workspace, operations), replies),
        ),
    decreases replies.len(),
{
    let start = started(workspace, operations);
    if replies.len() > 0 {
        lemma_sound(workspace, operations, replies.drop_last());
        lemma_stop_sound(workspace, operations, replies.drop_last());
        lemma_stop_sound_step(
            after(start, replies.drop_last()),
            history(start, replies.drop_last()),
            replies.last(),
        );
    }
}

/// A question to change files comes up while a plan is carried out.
proof fn lemma_change_is_applying(run: RunModel)
    requires
        requested(run) matches Some(request) && changes_files(request),
    ensures
        is_applying(run.step),
{
}

/// While a plan is carried out, a reply leads on in the plan, or to the end.
proof fn lemma_plan_goes_on_step(run: RunModel, reply: ReplyModel)
    requires
        is_applying(run.step) || run.step is Finished,
    ensures
        is_applying(advanced(run, reply).step) || advanced(run, reply).step is Finished,
        run.current <= advanced(run, reply).current,
{
}

/// From the first question to change files on, a run goes through its plan in
/// order, and the action stays counted.
proof fn lemma_plan_goes_on(
    workspace: Seq<char>,
    operations: Seq<OperationModel>,
    replies: Seq<ReplyModel>,
    count: int,
)
    requires
        0 <= count <= replies.len(),
        is_change_asked(workspace, operations, replies, count),
    ensures
        ({
            let now = after(started(workspace, operations), replies);
            &&& is_applying(now.step) || now.step is Finished
            &&& after(started(workspace, operations), replies.take(count)).current <= now.current
            &&& is_recorded(history(started(workspace, operations), replies))
        }),
    decreases replies.len(),
{
    let start = started(workspace, operations);
    if count == replies.len() {
        assert(replies.take(count) == replies);
        lemma_sound(workspace, operations, replies);
        lemma_change_is_applying(after(start, replies));
    } else {
        let shorter = replies.drop_last();
        assert(shorter.take(count) == replies.take(count));
        lemma_plan_goes_on(workspace, operations, shorter, count);
        lemma_plan_goes_on_step(after(start, shorter), replies.last());
        lemma_still_answered(
            history(start, shorter),
            (requested(after(start, shorter)), replies.last()),
            RequestModel::RecordAction,
            ReplyModel::Flag(true),
        );
    }
}

/// A patch that fails stops where it failed. If it failed before its plan was
/// begun, nothing was asked to be changed. If it failed while the plan was
/// carried out, every operation before the one that failed was carried out as
/// planned, and nothing was asked to be changed for one behind it.
pub proof fn law_failure_stops_the_run(
    workspace: Seq<char>,
    operations: Seq<OperationModel>,
    replies: Seq<ReplyModel>,
    error: ExecutionErrorModel,
)
    requires
        after(started(workspace, operations), replies).outcome == Some(
            Err::<Seq<Seq<char>>, ExecutionErrorModel>(error),
        ),
    ensures
        ({
            let run = after(started(workspace, operations), replies);
            let h = history(started(workspace, operations), replies);
            &&& is_recorded(h) ==> {
                &&& run.plan.len() == operations.len()
                &&& 0 <= run.current < operations.len()
                &&& forall|i: int|
                    0 <= i < run.current ==> is_plan_for(h, operations[i], #[trigger] run.plan[i])
                        && is_carried_out(h, run.plan[i])
            }
            &&& forall|count: int|
                0 <= count <= replies.len() && #[trigger] is_change_asked(
                    workspace,
                    operations,
                    replies,
                    count,
                ) ==> is_recorded(h) && after(
                    started(workspace, operations),
                    replies.take(count),
                ).current <= run.current
        }),
{
    lemma_sound(workspace, operations, replies);
    lemma_stop_sound(workspace, operations, replies);
    assert forall|count: int|
        0 <= count <= replies.len() && #[trigger] is_change_asked(
            workspace,
            operations,
            replies,
            count,
        ) implies is_recorded(history(started(workspace, operations), replies)) && after(
        started(workspace, operations),
        replies.take(count),
    ).current <= after(started(workspace, operations), replies).current by {
        lemma_plan_goes_on(workspace, operations, replies, count);
    }
}

/// A run that has ended asks for nothing and stays as it is.
pub proof fn law_end_is_final(
    workspace: Seq<char>,
    operations: Seq<OperationModel>,
    replies: Seq<ReplyModel>,
    reply: ReplyModel,
)
    requires
        after(started(workspace, operations), replies).outcome is Some,
    ensures
        requested(after(started(workspace, operations), replies)) is None,
        after(started(workspace, operations), replies.push(reply)) == after(
            started(workspace, operations),
            replies,
        ),
{
    lemma_sound(workspace, operations, replies);
    assert(replies.push(reply).drop_last() == replies);
}

} // verus!
