//! What every step of a patch rests on, and why a patch fails.

use crate::apply_patch::document::OperationModel;
use crate::apply_patch::errors::ExecutionErrorModel;
use crate::apply_patch::execution::{
    advanced, affected_text, applying, new_file, planned, planning, requested, started,
    PlannedModel, RunModel, Step,
};
use crate::apply_patch::hunks::text_after_hunks;
use crate::apply_patch::protocol::{EntryModel, PathId, ReplyModel, RequestModel, ResolutionModel};
use crate::apply_patch::safety::{
    after, answered, history, is_no_link, is_updated_text, law_checks_come_first,
    lemma_paths_longer, was_missing, Exchange,
};
use crate::apply_patch::targets::{
    existing_next, existing_request, future_next, future_request, ready_request, ExistingStep,
    FutureStep, Next, ReadyStep,
};
use crate::text::lines::joined;
use vstd::prelude::*;

verus! {

/// Whether the policy allowed the path as it is written.
pub open spec fn is_path_allowed(h: Seq<Exchange>, path: Seq<char>) -> bool {
    answered(h, RequestModel::PathAllowed { path }, ReplyModel::Flag(true))
}

/// Whether the path was found to be at that place of the workspace, in that
/// directory.
pub open spec fn is_located(
    h: Seq<Exchange>,
    workspace: Seq<char>,
    path: Seq<char>,
    at: PathId,
    parent: Option<PathId>,
) -> bool {
    answered(h, RequestModel::Locate { workspace, path }, ReplyModel::Place { at, parent })
}

/// Whether `from` was resolved to `to`, and the policy allowed that.
pub open spec fn is_resolved(h: Seq<Exchange>, from: PathId, to: PathId) -> bool {
    answered(
        h,
        RequestModel::Resolve { at: from },
        ReplyModel::Resolved(ResolutionModel::Allowed { at: to }),
    )
}

/// Whether a look at the path itself, and not at what it links to, showed that.
pub open spec fn is_seen(h: Seq<Exchange>, at: PathId, entry: EntryModel) -> bool {
    answered(h, RequestModel::ProbeLink { at }, ReplyModel::Entry(entry))
}

/// Whether `target` is what the file of that path resolves to: the path is
/// allowed, a file and no link is at its place, and where that leads is allowed.
pub open spec fn is_checked_file(
    h: Seq<Exchange>,
    workspace: Seq<char>,
    path: Seq<char>,
    target: PathId,
) -> bool {
    &&& is_path_allowed(h, path)
    &&& exists|full: PathId, parent: Option<PathId>| #[trigger]
        is_located(h, workspace, path, full, parent) && is_seen(h, full, EntryModel::File)
            && is_resolved(h, full, target)
}

/// Whether climbing from `from` past paths where nothing is leads to `to`.
pub open spec fn is_climb(h: Seq<Exchange>, way: Seq<PathId>, from: PathId, to: PathId) -> bool {
    &&& way.len() > 0
    &&& way.first() == from
    &&& way.last() == to
    &&& forall|i: int|
        0 <= i < way.len() - 1 ==> was_missing(h, #[trigger] way[i]) && answered(
            h,
            RequestModel::ParentOf { at: way[i] },
            ReplyModel::Path(Some(way[i + 1])),
        )
}

/// Whether such a climb was made.
pub open spec fn is_climbed(h: Seq<Exchange>, from: PathId, to: PathId) -> bool {
    exists|way: Seq<PathId>| #[trigger] is_climb(h, way, from, to)
}

/// Whether something was found at a path, through links.
pub open spec fn was_found(h: Seq<Exchange>, at: PathId) -> bool {
    exists|entry: EntryModel|
        entry != EntryModel::Missing && #[trigger] answered(
            h,
            RequestModel::Probe { at },
            ReplyModel::Entry(entry),
        )
}

/// Whether where a path leads is allowed.
pub open spec fn leads_to_allowed(h: Seq<Exchange>, at: PathId) -> bool {
    exists|to: PathId| #[trigger] is_resolved(h, at, to)
}

/// Whether the nearest thing that is there above a new file leads to what is
/// allowed.
pub open spec fn is_near_allowed(h: Seq<Exchange>, parent: PathId) -> bool {
    exists|near: PathId| #[trigger]
        is_climbed(h, parent, near) && was_found(h, near) && leads_to_allowed(h, near)
}

/// Whether the directory of a new file is no link, and leads to what is allowed
/// where it is there.
pub open spec fn is_parent_allowed(h: Seq<Exchange>, parent: PathId) -> bool {
    exists|entry: EntryModel| #[trigger]
        is_seen(h, parent, entry) && entry != EntryModel::Symlink && (entry is Missing
            || entry is Unreadable || leads_to_allowed(h, parent))
}

/// Whether a new file can be put at `full` in `parent`: the path is allowed and
/// was found to be there, what is above it is allowed, and nothing is there yet.
pub open spec fn is_checked_place(
    h: Seq<Exchange>,
    workspace: Seq<char>,
    path: Seq<char>,
    full: PathId,
    parent: PathId,
) -> bool {
    &&& is_path_allowed(h, path)
    &&& is_located(h, workspace, path, full, Some(parent))
    &&& is_near_allowed(h, parent)
    &&& is_parent_allowed(h, parent)
    &&& is_no_link(h, full)
    &&& was_missing(h, full)
}

/// Whether `at` is the name of the new file `full` in its own directory, which
/// was created where it was not there and leads to what is allowed.
pub open spec fn is_made_ready(h: Seq<Exchange>, full: PathId, parent: PathId, at: PathId) -> bool {
    &&& answered(h, RequestModel::CreateDirectories { at: parent }, ReplyModel::Done(None))
    &&& exists|directory: PathId| #[trigger]
        is_resolved(h, parent, directory) && answered(
            h,
            RequestModel::JoinFileName { directory, of: full },
            ReplyModel::Path(Some(at)),
        )
    &&& is_no_link(h, at)
}

/// Whether a plan is about the paths that its operation names.
pub open spec fn is_grounded(
    h: Seq<Exchange>,
    workspace: Seq<char>,
    operation: OperationModel,
    plan: PlannedModel,
) -> bool {
    match (operation, plan) {
        (OperationModel::Add { path, lines }, PlannedModel::Add { full, parent, content }) => {
            &&& is_checked_place(h, workspace, path, full, parent)
            &&& content == joined(lines, seq!['\n'])
        },
        (OperationModel::Delete { path }, PlannedModel::Delete { target }) => is_checked_file(
            h,
            workspace,
            path,
            target,
        ),
        (
            OperationModel::Update { path, move_to, hunks },
            PlannedModel::Update { source, destination, content },
        ) => {
            &&& is_checked_file(h, workspace, path, source)
            &&& match (move_to, destination) {
                (None, None) => true,
                (Some(target), Some((full, parent))) => is_checked_place(
                    h,
                    workspace,
                    target,
                    full,
                    parent,
                ),
                _ => false,
            }
        },
        _ => false,
    }
}

/// What the open question of the check of a file that has to be there rests on.
spec fn is_existing_grounded(
    h: Seq<Exchange>,
    workspace: Seq<char>,
    path: Seq<char>,
    step: ExistingStep,
) -> bool {
    match step {
        ExistingStep::Allowed => true,
        ExistingStep::Locate => is_path_allowed(h, path),
        ExistingStep::Link { full } => is_path_allowed(h, path) && is_placed(
            h,
            workspace,
            path,
            full,
        ),
        ExistingStep::Resolve { full } => is_path_allowed(h, path) && is_placed(
            h,
            workspace,
            path,
            full,
        ) && is_seen(h, full, EntryModel::File),
        ExistingStep::ResolveAgain { full } => is_path_allowed(h, path) && is_placed(
            h,
            workspace,
            path,
            full,
        ) && is_seen(h, full, EntryModel::File),
    }
}

/// Whether the path was found to be at that place.
pub open spec fn is_placed(
    h: Seq<Exchange>,
    workspace: Seq<char>,
    path: Seq<char>,
    at: PathId,
) -> bool {
    exists|parent: Option<PathId>| #[trigger] is_located(h, workspace, path, at, parent)
}

/// What the open question of the check of a new file rests on.
spec fn is_future_grounded(
    h: Seq<Exchange>,
    workspace: Seq<char>,
    path: Seq<char>,
    step: FutureStep,
) -> bool {
    match step {
        FutureStep::Allowed => true,
        FutureStep::Locate => is_path_allowed(h, path),
        FutureStep::Ancestor { full, parent, candidate } => is_path_allowed(h, path) && is_located(
            h,
            workspace,
            path,
            full,
            Some(parent),
        ) && is_climbed(h, parent, candidate),
        FutureStep::AncestorParent { full, parent, candidate } => is_path_allowed(h, path)
            && is_located(h, workspace, path, full, Some(parent)) && is_climbed(
            h,
            parent,
            candidate,
        ) && was_missing(h, candidate),
        FutureStep::ResolveAncestor { full, parent, candidate } => is_path_allowed(h, path)
            && is_located(h, workspace, path, full, Some(parent)) && is_climbed(
            h,
            parent,
            candidate,
        ) && was_found(h, candidate),
        FutureStep::ParentLink { full, parent } => is_path_allowed(h, path) && is_located(
            h,
            workspace,
            path,
            full,
            Some(parent),
        ) && is_near_allowed(h, parent),
        FutureStep::ResolveParent { full, parent } => is_path_allowed(h, path) && is_located(
            h,
            workspace,
            path,
            full,
            Some(parent),
        ) && is_near_allowed(h, parent) && exists|entry: EntryModel| #[trigger]
            is_seen(h, parent, entry) && entry != EntryModel::Symlink,
        FutureStep::TargetLink { full, parent } => is_path_allowed(h, path) && is_located(
            h,
            workspace,
            path,
            full,
            Some(parent),
        ) && is_near_allowed(h, parent) && is_parent_allowed(h, parent),
        FutureStep::Exists { full, parent } => is_path_allowed(h, path) && is_located(
            h,
            workspace,
            path,
            full,
            Some(parent),
        ) && is_near_allowed(h, parent) && is_parent_allowed(h, parent) && is_no_link(h, full),
    }
}

/// What making a new file ready rests on.
spec fn is_ready_grounded(h: Seq<Exchange>, full: PathId, parent: PathId, step: ReadyStep) -> bool {
    match step {
        ReadyStep::CreateDirectories => true,
        ReadyStep::Resolve => answered(
            h,
            RequestModel::CreateDirectories { at: parent },
            ReplyModel::Done(None),
        ),
        ReadyStep::Join { directory } => answered(
            h,
            RequestModel::CreateDirectories { at: parent },
            ReplyModel::Done(None),
        ) && is_resolved(h, parent, directory),
        ReadyStep::Link { target } => answered(
            h,
            RequestModel::CreateDirectories { at: parent },
            ReplyModel::Done(None),
        ) && exists|directory: PathId| #[trigger]
            is_resolved(h, parent, directory) && answered(
                h,
                RequestModel::JoinFileName { directory, of: full },
                ReplyModel::Path(Some(target)),
            ),
    }
}

/// The operation of a run that the open question is about.
pub open spec fn operation_of(run: RunModel) -> OperationModel {
    run.operations[run.current]
}

/// What the open question rests on.
spec fn is_step_grounded(run: RunModel, h: Seq<Exchange>) -> bool {
    let here = 0 <= run.current < run.operations.len();
    let planned_here = here && run.plan.len() == run.operations.len();
    match run.step {
        Step::Add { step } => here && run.plan.len() == run.current && (operation_of(
            run,
        ) matches OperationModel::Add { path, .. } && is_future_grounded(
            h,
            run.workspace,
            path,
            step,
        )),
        Step::Delete { step } => here && run.plan.len() == run.current && (operation_of(
            run,
        ) matches OperationModel::Delete { path } && is_existing_grounded(
            h,
            run.workspace,
            path,
            step,
        )),
        Step::Source { step } => here && run.plan.len() == run.current && (operation_of(
            run,
        ) matches OperationModel::Update { path, .. } && is_existing_grounded(
            h,
            run.workspace,
            path,
            step,
        )),
        Step::Read { source } => here && run.plan.len() == run.current && (operation_of(
            run,
        ) matches OperationModel::Update { path, .. } && is_checked_file(
            h,
            run.workspace,
            path,
            source,
        )),
        Step::Destination { source, step } => here && run.plan.len() == run.current && (
        operation_of(run) matches OperationModel::Update { path, move_to, .. } && is_checked_file(
            h,
            run.workspace,
            path,
            source,
        ) && move_to is Some && is_future_grounded(h, run.workspace, move_to->0, step)),
        Step::Ready { step } => planned_here && (new_file(run.plan[run.current]) matches Some(new)
            && is_ready_grounded(h, new.0, new.1, step)),
        Step::Write { at } => planned_here && match new_file(run.plan[run.current]) {
            Some((full, parent)) => is_made_ready(h, full, parent, at),
            None => run.plan[run.current] matches PlannedModel::Update { source, .. } && at
                == source,
        },
        Step::Remove { at } => planned_here && match run.plan[run.current] {
            PlannedModel::Add { .. } => false,
            PlannedModel::Delete { target } => at == target,
            PlannedModel::Update { source, destination, .. } => at == source && destination is Some,
        },
        Step::CanAct => run.plan.len() == 0,
        Step::RateLimited => run.plan.len() == 0,
        Step::RecordAction => run.plan.len() == run.operations.len(),
        Step::Finished => true,
    }
}

/// What holds of a run at any time.
spec fn is_run_grounded(run: RunModel, h: Seq<Exchange>) -> bool {
    &&& is_step_grounded(run, h)
    &&& run.plan.len() <= run.operations.len()
    &&& forall|i: int|
        0 <= i < run.plan.len() ==> is_grounded(
            h,
            run.workspace,
            run.operations[i],
            #[trigger] run.plan[i],
        )
}

/// What was seen of single paths is still seen in a longer history.
proof fn lemma_paths_stay(h: Seq<Exchange>, more: Exchange)
    ensures
        forall|request: RequestModel, reply: ReplyModel| #[trigger]
            answered(h, request, reply) ==> answered(h.push(more), request, reply),
        forall|at: PathId| #[trigger] is_no_link(h, at) ==> is_no_link(h.push(more), at),
        forall|at: PathId| #[trigger] was_found(h, at) ==> was_found(h.push(more), at),
        forall|at: PathId| #[trigger] leads_to_allowed(h, at) ==> leads_to_allowed(h.push(more), at),
        forall|from: PathId, to: PathId| #[trigger]
            is_climbed(h, from, to) ==> is_climbed(h.push(more), from, to),
        more.0 matches Some(request) ==> answered(h.push(more), request, more.1),
{
    let longer = h.push(more);
    lemma_paths_longer(h, more);
    assert forall|at: PathId| #[trigger] was_found(h, at) implies was_found(longer, at) by {
        let entry = choose|entry: EntryModel|
            entry != EntryModel::Missing && #[trigger] answered(
                h,
                RequestModel::Probe { at },
                ReplyModel::Entry(entry),
            );
        assert(answered(longer, RequestModel::Probe { at }, ReplyModel::Entry(entry)));
    }
    assert forall|at: PathId| #[trigger] leads_to_allowed(h, at) implies leads_to_allowed(
        longer,
        at,
    ) by {
        let to = choose|to: PathId| #[trigger] is_resolved(h, at, to);
        assert(is_resolved(longer, at, to));
    }
    assert forall|from: PathId, to: PathId| #[trigger] is_climbed(h, from, to) implies is_climbed(
        longer,
        from,
        to,
    ) by {
        let way = choose|way: Seq<PathId>| #[trigger] is_climb(h, way, from, to);
        assert(is_climb(longer, way, from, to));
    }
}

/// What was checked stays checked in a longer history.
proof fn lemma_checks_stay(h: Seq<Exchange>, more: Exchange)
    ensures
        forall|parent: PathId| #[trigger]
            is_near_allowed(h, parent) ==> is_near_allowed(h.push(more), parent),
        forall|parent: PathId| #[trigger]
            is_parent_allowed(h, parent) ==> is_parent_allowed(h.push(more), parent),
        forall|workspace: Seq<char>, path: Seq<char>, at: PathId| #[trigger]
            is_placed(h, workspace, path, at) ==> is_placed(h.push(more), workspace, path, at),
        forall|workspace: Seq<char>, path: Seq<char>, target: PathId| #[trigger]
            is_checked_file(h, workspace, path, target) ==> is_checked_file(
                h.push(more),
                workspace,
                path,
                target,
            ),
        forall|full: PathId, parent: PathId, at: PathId| #[trigger]
            is_made_ready(h, full, parent, at) ==> is_made_ready(h.push(more), full, parent, at),
{
    let longer = h.push(more);
    lemma_paths_stay(h, more);
    assert forall|parent: PathId| #[trigger] is_near_allowed(h, parent) implies is_near_allowed(
        longer,
        parent,
    ) by {
        let near = choose|near: PathId| #[trigger]
            is_climbed(h, parent, near) && was_found(h, near) && leads_to_allowed(h, near);
        assert(is_climbed(longer, parent, near));
    }
    assert forall|parent: PathId| #[trigger] is_parent_allowed(h, parent) implies is_parent_allowed(
        longer,
        parent,
    ) by {
        let entry = choose|entry: EntryModel| #[trigger]
            is_seen(h, parent, entry) && entry != EntryModel::Symlink && (entry is Missing
                || entry is Unreadable || leads_to_allowed(h, parent));
        assert(is_seen(longer, parent, entry));
    }
    assert forall|workspace: Seq<char>, path: Seq<char>, at: PathId| #[trigger]
        is_placed(h, workspace, path, at) implies is_placed(longer, workspace, path, at) by {
        let parent = choose|parent: Option<PathId>| #[trigger]
            is_located(h, workspace, path, at, parent);
        assert(is_located(longer, workspace, path, at, parent));
    }
    assert forall|workspace: Seq<char>, path: Seq<char>, target: PathId| #[trigger]
        is_checked_file(h, workspace, path, target) implies is_checked_file(
        longer,
        workspace,
        path,
        target,
    ) by {
        let (full, parent) = choose|full: PathId, parent: Option<PathId>| #[trigger]
            is_located(h, workspace, path, full, parent) && is_seen(h, full, EntryModel::File)
                && is_resolved(h, full, target);
        assert(is_located(longer, workspace, path, full, parent));
    }
    assert forall|full: PathId, parent: PathId, at: PathId| #[trigger]
        is_made_ready(h, full, parent, at) implies is_made_ready(longer, full, parent, at) by {
        let directory = choose|directory: PathId| #[trigger]
            is_resolved(h, parent, directory) && answered(
                h,
                RequestModel::JoinFileName { directory, of: full },
                ReplyModel::Path(Some(at)),
            );
        assert(is_resolved(longer, parent, directory));
    }
}

/// What a plan rests on stays.
proof fn lemma_grounded_longer(
    h: Seq<Exchange>,
    more: Exchange,
    workspace: Seq<char>,
    operation: OperationModel,
    plan: PlannedModel,
)
    requires
        is_grounded(h, workspace, operation, plan),
    ensures
        is_grounded(h.push(more), workspace, operation, plan),
{
    lemma_paths_stay(h, more);
    lemma_checks_stay(h, more);
}

/// What a question rests on stays.
proof fn lemma_steps_longer(h: Seq<Exchange>, more: Exchange)
    ensures
        forall|workspace: Seq<char>, path: Seq<char>, step: ExistingStep| #[trigger]
            is_existing_grounded(h, workspace, path, step) ==> is_existing_grounded(
                h.push(more),
                workspace,
                path,
                step,
            ),
        forall|workspace: Seq<char>, path: Seq<char>, step: FutureStep| #[trigger]
            is_future_grounded(h, workspace, path, step) ==> is_future_grounded(
                h.push(more),
                workspace,
                path,
                step,
            ),
        forall|full: PathId, parent: PathId, step: ReadyStep| #[trigger]
            is_ready_grounded(h, full, parent, step) ==> is_ready_grounded(
                h.push(more),
                full,
                parent,
                step,
            ),
{
    let longer = h.push(more);
    lemma_paths_stay(h, more);
    lemma_checks_stay(h, more);
    assert forall|workspace: Seq<char>, path: Seq<char>, step: FutureStep| #[trigger]
        is_future_grounded(h, workspace, path, step) implies is_future_grounded(
        longer,
        workspace,
        path,
        step,
    ) by {
        if let FutureStep::ResolveParent { full, parent } = step {
            let entry = choose|entry: EntryModel| #[trigger]
                is_seen(h, parent, entry) && entry != EntryModel::Symlink;
            assert(is_seen(longer, parent, entry));
        }
    }
    assert forall|full: PathId, parent: PathId, step: ReadyStep| #[trigger]
        is_ready_grounded(h, full, parent, step) implies is_ready_grounded(
        longer,
        full,
        parent,
        step,
    ) by {
        if let ReadyStep::Link { target } = step {
            let directory = choose|directory: PathId| #[trigger]
                is_resolved(h, parent, directory) && answered(
                    h,
                    RequestModel::JoinFileName { directory, of: full },
                    ReplyModel::Path(Some(target)),
                );
            assert(is_resolved(longer, parent, directory));
        }
    }
}

/// One more answer in the check of a file that has to be there.
proof fn lemma_existing_grounded(
    h: Seq<Exchange>,
    workspace: Seq<char>,
    path: Seq<char>,
    step: ExistingStep,
    reply: ReplyModel,
)
    requires
        is_existing_grounded(h, workspace, path, step),
    ensures
        ({
            let longer = h.push((Some(existing_request(step, workspace, path)), reply));
            match existing_next(step, path, reply) {
                Next::Ask(next) => is_existing_grounded(longer, workspace, path, next),
                Next::Done(target) => is_checked_file(longer, workspace, path, target),
                Next::Fail(_) => true,
            }
        }),
{
    let more = (Some(existing_request(step, workspace, path)), reply);
    let longer = h.push(more);
    lemma_paths_stay(h, more);
    lemma_checks_stay(h, more);
    lemma_steps_longer(h, more);
    match (step, reply) {
        (ExistingStep::Locate, ReplyModel::Place { at, parent }) => {
            assert(is_located(longer, workspace, path, at, parent));
        },
        (
            ExistingStep::ResolveAgain { full },
            ReplyModel::Resolved(ResolutionModel::Allowed { at }),
        ) => {
            let parent = choose|parent: Option<PathId>| #[trigger]
                is_located(h, workspace, path, full, parent);
            assert(is_located(longer, workspace, path, full, parent));
            assert(is_resolved(longer, full, at));
        },
        _ => {},
    }
}

/// One more answer in the check of a new file.
proof fn lemma_future_grounded(
    h: Seq<Exchange>,
    workspace: Seq<char>,
    path: Seq<char>,
    step: FutureStep,
    moving: bool,
    reply: ReplyModel,
)
    requires
        is_future_grounded(h, workspace, path, step),
    ensures
        ({
            let longer = h.push((Some(future_request(step, workspace, path)), reply));
            match future_next(step, path, moving, reply) {
                Next::Ask(next) => is_future_grounded(longer, workspace, path, next),
                Next::Done((full, parent)) => is_checked_place(
                    longer,
                    workspace,
                    path,
                    full,
                    parent,
                ),
                Next::Fail(_) => true,
            }
        }),
{
    let more = (Some(future_request(step, workspace, path)), reply);
    let longer = h.push(more);
    lemma_paths_stay(h, more);
    lemma_checks_stay(h, more);
    lemma_steps_longer(h, more);
    match (step, reply) {
        (FutureStep::Locate, ReplyModel::Place { at, parent: Some(parent) }) => {
            assert(is_climb(longer, seq![parent], parent, parent));
        },
        (FutureStep::Ancestor { full, parent, candidate }, ReplyModel::Entry(entry)) => {
            assert(answered(longer, RequestModel::Probe { at: candidate }, reply));
            if entry != EntryModel::Missing {
                assert(was_found(longer, candidate));
            }
        },
        (
            FutureStep::AncestorParent { full, parent, candidate },
            ReplyModel::Path(Some(up)),
        ) => {
            let way = choose|way: Seq<PathId>| #[trigger] is_climb(longer, way, parent, candidate);
            let higher = way.push(up);
            assert forall|i: int| 0 <= i < higher.len() - 1 implies was_missing(
                longer,
                #[trigger] higher[i],
            ) && answered(
                longer,
                RequestModel::ParentOf { at: higher[i] },
                ReplyModel::Path(Some(higher[i + 1])),
            ) by {
                if i < way.len() - 1 {
                    assert(higher[i] == way[i] && higher[i + 1] == way[i + 1]);
                }
            }
            assert(is_climb(longer, higher, parent, up));
        },
        (
            FutureStep::ResolveAncestor { full, parent, candidate },
            ReplyModel::Resolved(ResolutionModel::Allowed { at }),
        ) => {
            assert(is_resolved(longer, candidate, at));
            assert(is_climbed(longer, parent, candidate));
        },
        (FutureStep::ParentLink { full, parent }, ReplyModel::Entry(entry)) => {
            assert(is_seen(longer, parent, entry));
        },
        (
            FutureStep::ResolveParent { full, parent },
            ReplyModel::Resolved(ResolutionModel::Allowed { at }),
        ) => {
            assert(is_resolved(longer, parent, at));
            let entry = choose|entry: EntryModel| #[trigger]
                is_seen(h, parent, entry) && entry != EntryModel::Symlink;
            assert(is_seen(longer, parent, entry));
        },
        (FutureStep::TargetLink { full, parent }, ReplyModel::Entry(entry)) => {
            assert(answered(longer, RequestModel::ProbeLink { at: full }, reply));
            if entry != EntryModel::Symlink {
                assert(is_no_link(longer, full));
            }
        },
        _ => {},
    }
}

/// Whether all plans of a run are about the paths of their operations.
spec fn are_plans_grounded(run: RunModel, h: Seq<Exchange>) -> bool {
    forall|i: int|
        0 <= i < run.plan.len() ==> is_grounded(
            h,
            run.workspace,
            run.operations[i],
            #[trigger] run.plan[i],
        )
}

/// The check of the next operation begins on nothing.
proof fn lemma_planning_grounded(run: RunModel, h: Seq<Exchange>, current: int)
    requires
        are_plans_grounded(run, h),
        run.plan.len() == current <= run.operations.len(),
    ensures
        is_run_grounded(planning(run, current), h),
{
}

/// With one more operation planned the run is grounded.
proof fn lemma_planned_grounded(run: RunModel, h: Seq<Exchange>, plan: PlannedModel)
    requires
        are_plans_grounded(run, h),
        run.plan.len() == run.current < run.operations.len(),
        is_grounded(h, run.workspace, run.operations[run.current], plan),
    ensures
        is_run_grounded(planned(run, plan), h),
{
    let more = RunModel { plan: run.plan.push(plan), ..run };
    assert forall|i: int| 0 <= i < more.plan.len() implies is_grounded(
        h,
        more.workspace,
        more.operations[i],
        #[trigger] more.plan[i],
    ) by {
        if i < run.plan.len() {
            assert(more.plan[i] == run.plan[i]);
        }
    }
    lemma_planning_grounded(more, h, run.current + 1);
}

/// With the next operation begun the run is grounded.
proof fn lemma_applying_grounded(run: RunModel, h: Seq<Exchange>, current: int)
    requires
        are_plans_grounded(run, h),
        run.plan.len() == run.operations.len(),
        0 <= current <= run.plan.len(),
    ensures
        is_run_grounded(applying(run, current), h),
{
}

/// What holds of the plans holds with a longer history.
proof fn lemma_plans_longer(run: RunModel, h: Seq<Exchange>, more: Exchange)
    requires
        are_plans_grounded(run, h),
    ensures
        are_plans_grounded(run, h.push(more)),
{
    assert forall|i: int| 0 <= i < run.plan.len() implies is_grounded(
        h.push(more),
        run.workspace,
        run.operations[i],
        #[trigger] run.plan[i],
    ) by {
        lemma_grounded_longer(h, more, run.workspace, run.operations[i], run.plan[i]);
    }
}

/// A run that stays where it is stays grounded.
proof fn lemma_stays_grounded(run: RunModel, h: Seq<Exchange>, more: Exchange)
    requires
        is_run_grounded(run, h),
    ensures
        is_run_grounded(run, h.push(more)),
{
    lemma_plans_longer(run, h, more);
    lemma_paths_stay(h, more);
    lemma_checks_stay(h, more);
    lemma_steps_longer(h, more);
}

/// One more answer while operations are checked.
proof fn lemma_check_grounded(run: RunModel, h: Seq<Exchange>, reply: ReplyModel)
    requires
        is_run_grounded(run, h),
        run.step is Add || run.step is Delete || run.step is Source || run.step is Read
            || run.step is Destination,
    ensures
        is_run_grounded(advanced(run, reply), h.push((requested(run), reply))),
{
    let more = (requested(run), reply);
    let longer = h.push(more);
    lemma_stays_grounded(run, h, more);
    lemma_checks_stay(h, more);
    let operation = operation_of(run);
    match (run.step, operation) {
        (Step::Add { step }, OperationModel::Add { path, lines }) => {
            lemma_future_grounded(h, run.workspace, path, step, false, reply);
            if let Next::Done((full, parent)) = future_next(step, path, false, reply) {
                lemma_planned_grounded(
                    run,
                    longer,
                    PlannedModel::Add { full, parent, content: joined(lines, seq!['\n']) },
                );
            }
        },
        (Step::Delete { step }, OperationModel::Delete { path }) => {
            lemma_existing_grounded(h, run.workspace, path, step, reply);
            if let Next::Done(target) = existing_next(step, path, reply) {
                lemma_planned_grounded(run, longer, PlannedModel::Delete { target });
            }
        },
        (Step::Source { step }, OperationModel::Update { path, .. }) => {
            lemma_existing_grounded(h, run.workspace, path, step, reply);
        },
        (Step::Read { source }, OperationModel::Update { path, move_to, hunks }) => {
            if let ReplyModel::Text(Ok(text)) = reply {
                if let Ok(content) = text_after_hunks(text, hunks, path) {
                    if move_to is None {
                        lemma_planned_grounded(
                            run,
                            longer,
                            PlannedModel::Update { source, destination: None, content },
                        );
                    }
                }
            }
        },
        (
            Step::Destination { source, step },
            OperationModel::Update { move_to: Some(target), .. },
        ) => {
            lemma_future_grounded(h, run.workspace, target, step, true, reply);
            if let Next::Done(destination) = future_next(step, target, true, reply) {
                lemma_planned_grounded(
                    run,
                    longer,
                    PlannedModel::Update {
                        source,
                        destination: Some(destination),
                        content: run.draft,
                    },
                );
            }
        },
        _ => {},
    }
}

/// One more answer while a new file is made ready.
proof fn lemma_ready_grounded(run: RunModel, h: Seq<Exchange>, reply: ReplyModel, step: ReadyStep)
    requires
        is_run_grounded(run, h),
        run.step == (Step::Ready { step }),
    ensures
        is_run_grounded(advanced(run, reply), h.push((requested(run), reply))),
{
    let more = (requested(run), reply);
    let longer = h.push(more);
    lemma_stays_grounded(run, h, more);
    lemma_paths_stay(h, more);
    let (full, parent) = new_file(run.plan[run.current])->0;
    assert(requested(run) == Some(ready_request(step, full, parent)));
    match (step, reply) {
        (ReadyStep::Resolve, ReplyModel::Resolved(ResolutionModel::Allowed { at })) => {
            assert(is_resolved(longer, parent, at));
        },
        (ReadyStep::Join { directory }, ReplyModel::Path(Some(target))) => {
            assert(is_resolved(longer, parent, directory));
        },
        (ReadyStep::Link { target }, ReplyModel::Entry(entry)) => {
            assert(answered(longer, RequestModel::ProbeLink { at: target }, reply));
            if entry != EntryModel::Symlink {
                assert(is_no_link(longer, target));
            }
        },
        _ => {},
    }
}

/// One more answer, whatever it is.
proof fn lemma_step_grounded(run: RunModel, h: Seq<Exchange>, reply: ReplyModel)
    requires
        is_run_grounded(run, h),
    ensures
        is_run_grounded(advanced(run, reply), h.push((requested(run), reply))),
{
    let more = (requested(run), reply);
    let longer = h.push(more);
    lemma_stays_grounded(run, h, more);
    match run.step {
        Step::Add { .. } | Step::Delete { .. } | Step::Source { .. } | Step::Read { .. }
        | Step::Destination { .. } => lemma_check_grounded(run, h, reply),
        Step::Ready { step } => lemma_ready_grounded(run, h, reply, step),
        Step::RateLimited => lemma_planning_grounded(run, longer, 0),
        Step::RecordAction => lemma_applying_grounded(run, longer, 0),
        Step::Write { .. } | Step::Remove { .. } => {
            let told = affected_text(operation_of(run));
            lemma_applying_grounded(
                RunModel { affected: run.affected.push(told), ..run },
                longer,
                run.current + 1,
            );
        },
        _ => {},
    }
}

/// A run is grounded after any answers.
proof fn lemma_grounded(
    workspace: Seq<char>,
    operations: Seq<OperationModel>,
    replies: Seq<ReplyModel>,
)
    ensures
        is_run_grounded(
            after(started(workspace, operations), replies),
            history(started(workspace, operations), replies),
        ),
        after(started(workspace, operations), replies).operations == operations,
        after(started(workspace, operations), replies).workspace == workspace,
    decreases replies.len(),
{
    let start = started(workspace, operations);
    if replies.len() > 0 {
        lemma_grounded(workspace, operations, replies.drop_last());
        lemma_step_grounded(
            after(start, replies.drop_last()),
            history(start, replies.drop_last()),
            replies.last(),
        );
    }
}

/// A file is written for the operation that is carried out, and for no other:
/// an added file at its own new place and with its own lines, a changed file
/// where it is, a moved file at the new place that the operation names.
pub proof fn law_writes_are_the_operations_own(
    workspace: Seq<char>,
    operations: Seq<OperationModel>,
    replies: Seq<ReplyModel>,
    at: PathId,
    content: Seq<char>,
)
    requires
        requested(after(started(workspace, operations), replies)) == Some(
            RequestModel::Write { at, content },
        ),
    ensures
        ({
            let run = after(started(workspace, operations), replies);
            let h = history(started(workspace, operations), replies);
            &&& 0 <= run.current < operations.len()
            &&& match operations[run.current] {
                OperationModel::Add { path, lines } => content == joined(lines, seq!['\n'])
                    && is_new_place(h, workspace, path, at),
                OperationModel::Delete { .. } => false,
                OperationModel::Update { path, move_to: None, .. } => is_checked_file(
                    h,
                    workspace,
                    path,
                    at,
                ) && is_updated_text(h, operations[run.current], at, content),
                OperationModel::Update { path, move_to: Some(target), .. } => is_new_place(
                    h,
                    workspace,
                    target,
                    at,
                ) && exists|source: PathId| #[trigger]
                    is_checked_file(h, workspace, path, source) && is_updated_text(
                        h,
                        operations[run.current],
                        source,
                        content,
                    ),
            }
        }),
{
    lemma_grounded(workspace, operations, replies);
    law_checks_come_first(
        workspace,
        operations,
        replies,
        RequestModel::Write { at, content },
    );
    let run = after(started(workspace, operations), replies);
    let h = history(started(workspace, operations), replies);
    assert(is_grounded(h, workspace, operations[run.current], run.plan[run.current]));
    if let Some((full, parent)) = new_file(run.plan[run.current]) {
        assert(is_made_ready(h, full, parent, at));
    }
    if let PlannedModel::Update { source, .. } = run.plan[run.current] {
        assert(is_updated_text(h, operations[run.current], source, content));
    }
}

/// Whether a new file of that path was checked, and is ready to be written at `at`.
pub open spec fn is_new_place(
    h: Seq<Exchange>,
    workspace: Seq<char>,
    path: Seq<char>,
    at: PathId,
) -> bool {
    exists|full: PathId, parent: PathId|
        is_checked_place(h, workspace, path, full, parent) && #[trigger] is_made_ready(
            h,
            full,
            parent,
            at,
        )
}

/// A file is removed only if the operation that is carried out deletes it or
/// moves it away, and then it is the file that the operation names.
pub proof fn law_removals_are_the_operations_own(
    workspace: Seq<char>,
    operations: Seq<OperationModel>,
    replies: Seq<ReplyModel>,
    at: PathId,
)
    requires
        requested(after(started(workspace, operations), replies)) == Some(
            RequestModel::Remove { at },
        ),
    ensures
        ({
            let run = after(started(workspace, operations), replies);
            let h = history(started(workspace, operations), replies);
            &&& 0 <= run.current < operations.len()
            &&& match operations[run.current] {
                OperationModel::Add { .. } => false,
                OperationModel::Delete { path } => is_checked_file(h, workspace, path, at),
                OperationModel::Update { path, move_to, .. } => move_to is Some && is_checked_file(
                    h,
                    workspace,
                    path,
                    at,
                ),
            }
        }),
{
    lemma_grounded(workspace, operations, replies);
    let run = after(started(workspace, operations), replies);
    let h = history(started(workspace, operations), replies);
    assert(is_grounded(h, workspace, operations[run.current], run.plan[run.current]));
}

/// Every plan is about the paths that its operation names, and rests on the
/// checks of these paths.
pub proof fn law_plans_are_grounded(
    workspace: Seq<char>,
    operations: Seq<OperationModel>,
    replies: Seq<ReplyModel>,
)
    ensures
        forall|i: int|
            0 <= i < after(started(workspace, operations), replies).plan.len() ==> is_grounded(
                history(started(workspace, operations), replies),
                workspace,
                operations[i],
                #[trigger] after(started(workspace, operations), replies).plan[i],
            ),
{
    lemma_grounded(workspace, operations, replies);
}

/// The path of a file that an operation finds there.
pub open spec fn path_there(operation: OperationModel) -> Option<Seq<char>> {
    match operation {
        OperationModel::Add { .. } => None,
        OperationModel::Delete { path } => Some(path),
        OperationModel::Update { path, .. } => Some(path),
    }
}

/// The path of a file that an operation creates.
pub open spec fn path_to_be(operation: OperationModel) -> Option<Seq<char>> {
    match operation {
        OperationModel::Add { path, .. } => Some(path),
        OperationModel::Delete { .. } => None,
        OperationModel::Update { move_to, .. } => move_to,
    }
}

/// Whether the operation names that path.
pub open spec fn is_named(operation: OperationModel, path: Seq<char>) -> bool {
    path_there(operation) == Some(path) || path_to_be(operation) == Some(path)
}

/// Whether an answer is a reason for that error, in the course of an operation.
pub open spec fn is_reason(
    h: Seq<Exchange>,
    workspace: Seq<char>,
    operation: OperationModel,
    request: RequestModel,
    reply: ReplyModel,
    error: ExecutionErrorModel,
) -> bool {
    match (request, reply) {
        (RequestModel::CanAct, ReplyModel::Flag(false)) => error == ExecutionErrorModel::ReadOnly,
        (RequestModel::RateLimited, ReplyModel::Flag(true)) => error
            == ExecutionErrorModel::RateLimited,
        (RequestModel::RecordAction, ReplyModel::Flag(false)) => error
            == ExecutionErrorModel::ActionBudgetExhausted,
        (RequestModel::PathAllowed { path }, ReplyModel::Flag(false)) => is_named(operation, path)
            && error == (ExecutionErrorModel::DisallowedPath { path }),
        (RequestModel::Locate { path, .. }, ReplyModel::Place { parent: None, .. }) => path_to_be(
            operation,
        ) == Some(path) && error == (ExecutionErrorModel::InvalidPath {
            path,
            reason: "missing parent directory"@,
        }),
        (RequestModel::ParentOf { at }, ReplyModel::Path(None)) => was_missing(h, at) && (
        path_to_be(operation) matches Some(path) && error == (ExecutionErrorModel::InvalidPath {
            path,
            reason: "unable to find an existing ancestor for the target path"@,
        })),
        (RequestModel::Resolve { .. }, ReplyModel::Resolved(ResolutionModel::Denied { display })) => error
            == (ExecutionErrorModel::ResolvedPathDenied { path: display }),
        (RequestModel::Resolve { .. }, ReplyModel::Resolved(ResolutionModel::Failed { reason })) => {
            exists|path: Seq<char>| #[trigger]
                is_named(operation, path) && error == (ExecutionErrorModel::ResolveFailed {
                    path,
                    reason,
                })
        },
        (RequestModel::ProbeLink { at }, ReplyModel::Entry(entry)) => is_reason_of_look(
            h,
            workspace,
            operation,
            at,
            entry,
            error,
        ),
        (RequestModel::Probe { at }, ReplyModel::Entry(entry)) => path_to_be(operation) matches Some(
            path,
        ) && is_placed(h, workspace, path, at) && match entry {
            EntryModel::Missing => false,
            EntryModel::Unreadable { display, reason } => error
                == (ExecutionErrorModel::ResolveFailed { path: display, reason }),
            _ => if operation is Add {
                error == (ExecutionErrorModel::TargetExists { path })
            } else {
                error == (ExecutionErrorModel::MoveDestinationExists { path })
            },
        },
        (RequestModel::JoinFileName { .. }, ReplyModel::Path(None)) => path_to_be(
            operation,
        ) matches Some(path) && error == (ExecutionErrorModel::InvalidPath {
            path,
            reason: "missing file name"@,
        }),
        (RequestModel::Read { .. }, ReplyModel::Text(Err(reason))) => path_there(
            operation,
        ) matches Some(path) && error == (ExecutionErrorModel::ReadFailed { path, reason }),
        (RequestModel::Read { .. }, ReplyModel::Text(Ok(text))) => operation matches OperationModel::Update {
            path,
            hunks,
            ..
        } && text_after_hunks(text, hunks, path) == Err::<Seq<char>, _>(error),
        (RequestModel::CreateDirectories { .. }, ReplyModel::Done(Some(reason))) => path_to_be(
            operation,
        ) matches Some(path) && error == (ExecutionErrorModel::CreateParentFailed { path, reason }),
        (RequestModel::Write { .. }, ReplyModel::Done(Some(reason))) => match path_to_be(
            operation,
        ) {
            Some(path) => error == (ExecutionErrorModel::WriteFailed { path, reason }),
            None => path_there(operation) matches Some(path) && error == (
            ExecutionErrorModel::WriteFailed { path, reason }),
        },
        (RequestModel::Remove { .. }, ReplyModel::Done(Some(reason))) => path_there(
            operation,
        ) matches Some(path) && error == (ExecutionErrorModel::DeleteFailed { path, reason }),
        _ => false,
    }
}

/// Whether a look at a path itself is a reason for that error: a link is one
/// anywhere, anything else than a file where one has to be, and a directory
/// where a file is to be.
pub open spec fn is_reason_of_look(
    h: Seq<Exchange>,
    workspace: Seq<char>,
    operation: OperationModel,
    at: PathId,
    entry: EntryModel,
    error: ExecutionErrorModel,
) -> bool {
    ||| entry == EntryModel::Symlink && exists|path: Seq<char>| #[trigger]
        is_named(operation, path) && error == (ExecutionErrorModel::SymlinkDenied { path })
    ||| (path_there(operation) matches Some(path) && is_placed(h, workspace, path, at)
        && match entry {
        EntryModel::Missing => error == (ExecutionErrorModel::MissingTarget { path }),
        EntryModel::Unreadable { reason, .. } => error == (ExecutionErrorModel::ResolveFailed {
            path,
            reason,
        }),
        EntryModel::Directory | EntryModel::Other => error == (ExecutionErrorModel::NotAFile {
            path,
        }),
        _ => false,
    })
    ||| (path_to_be(operation) matches Some(path) && is_placed(h, workspace, path, at) && entry
        == EntryModel::Directory && error == (ExecutionErrorModel::NotAFile { path }))
}

/// A check of a file that has to be there fails for a reason.
proof fn lemma_existing_reason(
    h: Seq<Exchange>,
    workspace: Seq<char>,
    operation: OperationModel,
    path: Seq<char>,
    step: ExistingStep,
    reply: ReplyModel,
    error: ExecutionErrorModel,
)
    requires
        is_existing_grounded(h, workspace, path, step),
        path_there(operation) == Some(path),
        existing_next(step, path, reply) == Next::<ExistingStep, PathId, _>::Fail(error),
    ensures
        is_reason(
            h,
            workspace,
            operation,
            existing_request(step, workspace, path),
            reply,
            error,
        ),
{
    assert(is_named(operation, path));
}

/// A check of a new file fails for a reason.
proof fn lemma_future_reason(
    h: Seq<Exchange>,
    workspace: Seq<char>,
    operation: OperationModel,
    path: Seq<char>,
    step: FutureStep,
    reply: ReplyModel,
    error: ExecutionErrorModel,
)
    requires
        is_future_grounded(h, workspace, path, step),
        path_to_be(operation) == Some(path),
        future_next(step, path, !(operation is Add), reply) == Next::<
            FutureStep,
            (PathId, PathId),
            _,
        >::Fail(error),
    ensures
        is_reason(h, workspace, operation, future_request(step, workspace, path), reply, error),
{
    assert(is_named(operation, path));
    match step {
        FutureStep::TargetLink { full, parent } | FutureStep::Exists { full, parent } => {
            assert(is_located(h, workspace, path, full, Some(parent)));
        },
        _ => {},
    }
}

/// A patch fails only for a reason that it was given: the answer at which it
/// fails refuses something, or shows what stands in the way, and the error says
/// which path that concerns and why. In particular, where the policy allows all
/// that is asked, every path resolves, a directory is found above each new file,
/// files are where they have to be and nowhere else, and all is done that is
/// asked for, it does not fail.
pub proof fn law_failure_has_a_reason(
    workspace: Seq<char>,
    operations: Seq<OperationModel>,
    replies: Seq<ReplyModel>,
    reply: ReplyModel,
    error: ExecutionErrorModel,
)
    requires
        after(started(workspace, operations), replies).outcome is None,
        after(started(workspace, operations), replies.push(reply)).outcome == Some(
            Err::<Seq<Seq<char>>, _>(error),
        ),
    ensures
        ({
            let run = after(started(workspace, operations), replies);
            requested(run) matches Some(request) && is_reason(
                history(started(workspace, operations), replies),
                workspace,
                operations[run.current],
                request,
                reply,
                error,
            )
        }),
{
    let start = started(workspace, operations);
    let run = after(start, replies);
    let h = history(start, replies);
    assert(replies.push(reply).drop_last() == replies);
    lemma_grounded(workspace, operations, replies);
    let operation = operations[run.current];
    match (run.step, operation) {
        (Step::Add { step }, OperationModel::Add { path, .. }) => {
            lemma_future_reason(h, workspace, operation, path, step, reply, error);
        },
        (Step::Delete { step }, OperationModel::Delete { path }) => {
            lemma_existing_reason(h, workspace, operation, path, step, reply, error);
        },
        (Step::Source { step }, OperationModel::Update { path, .. }) => {
            lemma_existing_reason(h, workspace, operation, path, step, reply, error);
        },
        (Step::Destination { step, .. }, OperationModel::Update { move_to: Some(target), .. }) => {
            lemma_future_reason(h, workspace, operation, target, step, reply, error);
        },
        (Step::Ready { step }, _) => {
            assert(is_grounded(h, workspace, operation, run.plan[run.current]));
            let path = path_to_be(operation)->0;
            assert(is_named(operation, path));
        },
        (Step::Write { .. }, _) | (Step::Remove { .. }, _) => {
            assert(is_grounded(h, workspace, operation, run.plan[run.current]));
        },
        _ => {},
    }
}

/// Whether a reply is of the kind that a request asks for.
pub open spec fn is_fitting(request: RequestModel, reply: ReplyModel) -> bool {
    match request {
        RequestModel::CanAct => reply is Flag,
        RequestModel::RateLimited => reply is Flag,
        RequestModel::RecordAction => reply is Flag,
        RequestModel::PathAllowed { .. } => reply is Flag,
        RequestModel::Locate { .. } => reply is Place,
        RequestModel::ParentOf { .. } => reply is Path,
        RequestModel::Probe { .. } => reply is Entry,
        RequestModel::ProbeLink { .. } => reply is Entry,
        RequestModel::Resolve { .. } => reply is Resolved,
        RequestModel::Read { .. } => reply is Text,
        RequestModel::CreateDirectories { .. } => reply is Done,
        RequestModel::JoinFileName { .. } => reply is Path,
        RequestModel::Write { .. } => reply is Done,
        RequestModel::Remove { .. } => reply is Done,
    }
}

/// An answer of another kind leaves a run as it is.
proof fn lemma_stray(run: RunModel, request: RequestModel, reply: ReplyModel)
    requires
        requested(run) == Some(request),
        !is_fitting(request, reply),
    ensures
        advanced(run, reply) == run,
{
}

/// Whether the run is at another question.
spec fn is_moved(run: RunModel, next: RunModel) -> bool {
    next.step != run.step || next.current != run.current
}

/// An answer of the right kind leads on.
proof fn lemma_fitting(run: RunModel, request: RequestModel, reply: ReplyModel)
    requires
        requested(run) == Some(request),
        is_fitting(request, reply),
        run.step is Write || run.step is Remove || run.step is Ready ==> 0 <= run.current
            < run.operations.len(),
        run.step is Read ==> 0 <= run.current < run.operations.len()
            && run.operations[run.current] is Update,
    ensures
        is_moved(run, advanced(run, reply)),
{
    match run.step {
        Step::Add { step } | Step::Destination { step, .. } => {
            lemma_future_fitting(step, run, reply);
        },
        _ => {},
    }
}

/// An answer of the right kind leads on in the check of a new file.
proof fn lemma_future_fitting(step: FutureStep, run: RunModel, reply: ReplyModel)
    ensures
        forall|path: Seq<char>, moving: bool|
            is_fitting(future_request(step, run.workspace, path), reply) ==> #[trigger] future_next(
                step,
                path,
                moving,
                reply,
            ) != Next::<FutureStep, (PathId, PathId), ExecutionErrorModel>::Ask(step),
{
}

/// An answer of another kind than was asked for changes nothing; one of the kind
/// that was asked for answers the question, so that it is open no longer.
pub proof fn law_answers_are_heeded(
    workspace: Seq<char>,
    operations: Seq<OperationModel>,
    replies: Seq<ReplyModel>,
    request: RequestModel,
    reply: ReplyModel,
)
    requires
        requested(after(started(workspace, operations), replies)) == Some(request),
    ensures
        !is_fitting(request, reply) ==> after(started(workspace, operations), replies.push(reply))
            == after(started(workspace, operations), replies),
        is_fitting(request, reply) ==> after(
            started(workspace, operations),
            replies.push(reply),
        ).step != after(started(workspace, operations), replies).step || after(
            started(workspace, operations),
            replies.push(reply),
        ).current != after(started(workspace, operations), replies).current,
{
    let start = started(workspace, operations);
    let run = after(start, replies);
    assert(replies.push(reply).drop_last() == replies);
    lemma_step_is_in_range(workspace, operations, replies);
    if is_fitting(request, reply) {
        lemma_fitting(run, request, reply);
    } else {
        lemma_stray(run, request, reply);
    }
}

/// Where a new file is to be, something that cannot be looked at stops a run no
/// more than something that is not there, as far as links go: the run goes on in
/// the same way.
pub proof fn law_hidden_place_is_passed_over(
    run: RunModel,
    at: PathId,
    display: Seq<char>,
    reason: Seq<char>,
)
    requires
        requested(run) == Some(RequestModel::ProbeLink { at }),
        !(run.step is Source || run.step is Delete),
    ensures
        advanced(run, ReplyModel::Entry(EntryModel::Unreadable { display, reason })) == advanced(
            run,
            ReplyModel::Entry(EntryModel::Missing),
        ),
        advanced(run, ReplyModel::Entry(EntryModel::Missing)).outcome == run.outcome,
{
}

/// A question about an operation is about one that there is.
proof fn lemma_step_is_in_range(
    workspace: Seq<char>,
    operations: Seq<OperationModel>,
    replies: Seq<ReplyModel>,
)
    ensures
        ({
            let run = after(started(workspace, operations), replies);
            let here = 0 <= run.current < run.operations.len();
            &&& run.step is Write || run.step is Remove || run.step is Ready ==> here
            &&& run.step is Read ==> here && run.operations[run.current] is Update
        }),
{
    lemma_grounded(workspace, operations, replies);
}

} // verus!
