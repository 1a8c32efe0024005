//! What a patch does to the files of a disk.

use crate::apply_patch::document::OperationModel;
use crate::apply_patch::errors::ExecutionErrorModel;
use crate::apply_patch::execution::{
    advanced, affected_text, applied, applying, failed, new_file, planned, planning, requested,
    started, PlannedModel, RunModel, Step,
};
use crate::apply_patch::hunks::{file_text, text_after_hunks};
use crate::apply_patch::protocol::{EntryModel, PathId, ReplyModel, RequestModel, ResolutionModel};
use crate::apply_patch::targets::{
    existing_next, existing_request, future_next, future_request, ExistingStep, FutureStep, Next,
    ReadyStep,
};
use crate::text::lines::joined;
use vstd::prelude::*;

verus! {

/// How the paths of a disk hang together.
pub struct Paths {
    /// Where a path of the workspace is.
    pub place: spec_fn(Seq<char>, Seq<char>) -> PathId,
    /// The directory above a path.
    pub above: spec_fn(PathId) -> Option<PathId>,
    /// How many directories are above a path.
    pub depth: spec_fn(PathId) -> nat,
    /// What a path resolves to.
    pub resolved: spec_fn(PathId) -> PathId,
    /// The name of a file in a directory.
    pub name_in: spec_fn(PathId, PathId) -> PathId,
}

/// Where a path of the workspace is.
pub open spec fn place(paths: Paths, workspace: Seq<char>, path: Seq<char>) -> PathId {
    (paths.place)(workspace, path)
}

/// The directory above a path.
pub open spec fn above(paths: Paths, at: PathId) -> Option<PathId> {
    (paths.above)(at)
}

/// How many directories are above a path.
pub open spec fn depth(paths: Paths, at: PathId) -> nat {
    (paths.depth)(at)
}

/// What a path resolves to.
pub open spec fn resolved(paths: Paths, at: PathId) -> PathId {
    (paths.resolved)(at)
}

/// The name of a file in a directory.
pub open spec fn name_in(paths: Paths, directory: PathId, of: PathId) -> PathId {
    (paths.name_in)(directory, of)
}

/// Whether paths hang together as they do on a disk: there is a topmost one
/// above each, resolving leads to what resolves to itself, and the name of a
/// file in its own directory is the file.
pub open spec fn are_paths(paths: Paths) -> bool {
    &&& forall|at: PathId| #[trigger]
        above(paths, at) matches Some(up) ==> depth(paths, up) < depth(paths, at)
    &&& forall|at: PathId| resolved(paths, #[trigger] resolved(paths, at)) == resolved(paths, at)
    &&& forall|at: PathId| #[trigger]
        above(paths, at) matches Some(up) ==> resolved(paths, name_in(paths, resolved(paths, up), at))
            == resolved(paths, at)
}

/// The files with their texts, and the directories.
#[verifier::ext_equal]
pub struct Disk {
    pub files: Map<PathId, Seq<char>>,
    pub directories: Set<PathId>,
}

/// What is at a path of the disk.
pub open spec fn entry_at(paths: Paths, disk: Disk, at: PathId) -> EntryModel {
    if disk.files.contains_key(resolved(paths, at)) {
        EntryModel::File
    } else if disk.directories.contains(resolved(paths, at)) {
        EntryModel::Directory
    } else {
        EntryModel::Missing
    }
}

/// The path so many directories above another, or the topmost one.
pub open spec fn climbed(paths: Paths, at: PathId, count: nat) -> PathId
    decreases count,
{
    if count == 0 {
        at
    } else {
        let below = climbed(paths, at, (count - 1) as nat);
        match above(paths, below) {
            Some(up) => up,
            None => below,
        }
    }
}

/// What a disk answers, all of whose paths the policy allows.
pub open spec fn answer(paths: Paths, disk: Disk, request: RequestModel) -> ReplyModel {
    match request {
        RequestModel::CanAct => ReplyModel::Flag(true),
        RequestModel::RateLimited => ReplyModel::Flag(false),
        RequestModel::RecordAction => ReplyModel::Flag(true),
        RequestModel::PathAllowed { .. } => ReplyModel::Flag(true),
        RequestModel::Locate { workspace, path } => ReplyModel::Place {
            at: place(paths, workspace, path),
            parent: above(paths, place(paths, workspace, path)),
        },
        RequestModel::ParentOf { at } => ReplyModel::Path(above(paths, at)),
        RequestModel::Probe { at } => ReplyModel::Entry(entry_at(paths, disk, at)),
        RequestModel::ProbeLink { at } => ReplyModel::Entry(entry_at(paths, disk, at)),
        RequestModel::Resolve { at } => ReplyModel::Resolved(
            if entry_at(paths, disk, at) is Missing {
                ResolutionModel::Failed { reason: seq![] }
            } else {
                ResolutionModel::Allowed { at: resolved(paths, at) }
            },
        ),
        RequestModel::Read { at } => ReplyModel::Text(
            if disk.files.contains_key(resolved(paths, at)) {
                Ok(disk.files[resolved(paths, at)])
            } else {
                Err(seq![])
            },
        ),
        RequestModel::CreateDirectories { .. } => ReplyModel::Done(None),
        RequestModel::JoinFileName { directory, of } => ReplyModel::Path(
            Some(name_in(paths, directory, of)),
        ),
        RequestModel::Write { .. } => ReplyModel::Done(None),
        RequestModel::Remove { .. } => ReplyModel::Done(None),
    }
}

/// The disk once the request was met.
pub open spec fn changed(paths: Paths, disk: Disk, request: RequestModel) -> Disk {
    match request {
        RequestModel::CreateDirectories { at } => Disk {
            directories: Set::new(
                |one: PathId|
                    disk.directories.contains(one) || exists|count: nat|
                        one == resolved(paths, #[trigger] climbed(paths, at, count)),
            ),
            ..disk
        },
        RequestModel::Write { at, content } => Disk {
            files: disk.files.insert(resolved(paths, at), content),
            ..disk
        },
        RequestModel::Remove { at } => Disk { files: disk.files.remove(resolved(paths, at)), ..disk },
        _ => disk,
    }
}

/// A patch that is carried out on a disk.
#[verifier::ext_equal]
pub struct Work {
    pub run: RunModel,
    pub disk: Disk,
}

/// The work after one more request, if there is one.
pub open spec fn stepped(paths: Paths, work: Work) -> Work {
    match requested(work.run) {
        None => work,
        Some(request) => Work {
            run: advanced(work.run, answer(paths, work.disk, request)),
            disk: changed(paths, work.disk, request),
        },
    }
}

/// The work after so many requests.
pub open spec fn worked(paths: Paths, work: Work, count: nat) -> Work
    decreases count,
{
    if count == 0 {
        work
    } else {
        stepped(paths, worked(paths, work, (count - 1) as nat))
    }
}

/// Whether the work comes from one state to another.
pub open spec fn leads(paths: Paths, from: Work, to: Work) -> bool {
    exists|count: nat| #[trigger] worked(paths, from, count) == to
}

/// Whether climbing from a path leads to a directory that is there, past nothing
/// but paths where nothing is.
pub open spec fn is_rooted(paths: Paths, disk: Disk, at: PathId) -> bool
    decreases depth(paths, at),
{
    match entry_at(paths, disk, at) {
        EntryModel::Directory => true,
        EntryModel::Missing => match above(paths, at) {
            Some(up) => depth(paths, up) < depth(paths, at) && is_rooted(paths, disk, up),
            None => false,
        },
        _ => false,
    }
}

/// Why a file that has to be there cannot be changed, if so.
pub open spec fn existing_obstacle(
    paths: Paths,
    disk: Disk,
    workspace: Seq<char>,
    path: Seq<char>,
) -> Option<ExecutionErrorModel> {
    match entry_at(paths, disk, place(paths, workspace, path)) {
        EntryModel::File => None,
        EntryModel::Missing => Some(ExecutionErrorModel::MissingTarget { path }),
        _ => Some(ExecutionErrorModel::NotAFile { path }),
    }
}

/// Why a file that must not be there yet cannot be created, if so.
pub open spec fn new_obstacle(
    paths: Paths,
    disk: Disk,
    workspace: Seq<char>,
    path: Seq<char>,
    moving: bool,
) -> Option<ExecutionErrorModel> {
    match entry_at(paths, disk, place(paths, workspace, path)) {
        EntryModel::Missing => None,
        EntryModel::File => if moving {
            Some(ExecutionErrorModel::MoveDestinationExists { path })
        } else {
            Some(ExecutionErrorModel::TargetExists { path })
        },
        _ => Some(ExecutionErrorModel::NotAFile { path }),
    }
}

/// Whether there is a directory that the file of that path can be created in.
pub open spec fn has_room(paths: Paths, disk: Disk, workspace: Seq<char>, path: Seq<char>) -> bool {
    above(paths, place(paths, workspace, path)) matches Some(up) && is_rooted(paths, disk, up)
}

/// The text of a file of the disk.
pub open spec fn text_at(paths: Paths, disk: Disk, workspace: Seq<char>, path: Seq<char>) -> Seq<char> {
    disk.files[resolved(paths, place(paths, workspace, path))]
}

/// Why an operation cannot be carried out on the disk, if so.
pub open spec fn obstacle(
    paths: Paths,
    disk: Disk,
    workspace: Seq<char>,
    operation: OperationModel,
) -> Option<ExecutionErrorModel> {
    match operation {
        OperationModel::Add { path, .. } => new_obstacle(paths, disk, workspace, path, false),
        OperationModel::Delete { path } => existing_obstacle(paths, disk, workspace, path),
        OperationModel::Update { path, move_to, hunks } => match existing_obstacle(
            paths,
            disk,
            workspace,
            path,
        ) {
            Some(error) => Some(error),
            None => match text_after_hunks(text_at(paths, disk, workspace, path), hunks, path) {
                Err(error) => Some(error),
                Ok(_) => match move_to {
                    Some(target) => new_obstacle(paths, disk, workspace, target, true),
                    None => None,
                },
            },
        },
    }
}

/// Whether there is room for what the operation creates.
pub open spec fn is_placeable(
    paths: Paths,
    disk: Disk,
    workspace: Seq<char>,
    operation: OperationModel,
) -> bool {
    match operation {
        OperationModel::Add { path, .. } => has_room(paths, disk, workspace, path),
        OperationModel::Update { move_to: Some(target), .. } => has_room(
            paths,
            disk,
            workspace,
            target,
        ),
        _ => true,
    }
}

/// The files once an operation was carried out. What it changes is the text that
/// the file had before the patch.
pub open spec fn files_after(
    paths: Paths,
    disk: Disk,
    workspace: Seq<char>,
    operation: OperationModel,
    files: Map<PathId, Seq<char>>,
) -> Map<PathId, Seq<char>> {
    match operation {
        OperationModel::Add { path, lines } => files.insert(
            resolved(paths, place(paths, workspace, path)),
            joined(lines, seq!['\n']),
        ),
        OperationModel::Delete { path } => files.remove(
            resolved(paths, place(paths, workspace, path)),
        ),
        OperationModel::Update { path, move_to, hunks } => {
            let text = text_after_hunks(text_at(paths, disk, workspace, path), hunks, path)->Ok_0;
            match move_to {
                None => files.insert(resolved(paths, place(paths, workspace, path)), text),
                Some(target) => files.insert(
                    resolved(paths, place(paths, workspace, target)),
                    text,
                ).remove(resolved(paths, place(paths, workspace, path))),
            }
        },
    }
}

/// The files once the first `count` operations were carried out.
pub open spec fn files_after_all(
    paths: Paths,
    disk: Disk,
    workspace: Seq<char>,
    operations: Seq<OperationModel>,
    count: int,
) -> Map<PathId, Seq<char>>
    decreases count,
{
    if count <= 0 {
        disk.files
    } else {
        files_after(
            paths,
            disk,
            workspace,
            operations[count - 1],
            files_after_all(paths, disk, workspace, operations, count - 1),
        )
    }
}

/// Work leads to itself.
proof fn lemma_stays(paths: Paths, work: Work)
    ensures
        leads(paths, work, work),
{
    assert(worked(paths, work, 0) == work);
}

/// So many requests, and then so many more.
proof fn lemma_worked(paths: Paths, work: Work, one: nat, other: nat)
    ensures
        worked(paths, worked(paths, work, one), other) == worked(paths, work, one + other),
    decreases other,
{
    if other > 0 {
        lemma_worked(paths, work, one, (other - 1) as nat);
    }
}

/// What leads to where something else begins leads to where that ends.
proof fn lemma_leads_on(paths: Paths, from: Work, middle: Work, to: Work)
    requires
        leads(paths, from, middle),
        leads(paths, middle, to),
    ensures
        leads(paths, from, to),
{
    let one = choose|count: nat| #[trigger] worked(paths, from, count) == middle;
    let other = choose|count: nat| #[trigger] worked(paths, middle, count) == to;
    lemma_worked(paths, from, one, other);
    assert(worked(paths, from, one + other) == to);
}

/// Work leads to where its next step leads.
proof fn lemma_step_leads(paths: Paths, from: Work, to: Work)
    requires
        leads(paths, stepped(paths, from), to),
    ensures
        leads(paths, from, to),
{
    assert(worked(paths, from, 0) == from);
    assert(worked(paths, from, 1) == stepped(paths, from));
    lemma_leads_on(paths, from, stepped(paths, from), to);
}

/// The question of the check of a new file, for an operation.
spec fn future_step(operation: OperationModel, source: PathId, step: FutureStep) -> Step {
    if operation is Add {
        Step::Add { step }
    } else {
        Step::Destination { source, step }
    }
}

/// The path that an operation creates.
spec fn new_path(operation: OperationModel) -> Seq<char> {
    match operation {
        OperationModel::Add { path, .. } => path,
        OperationModel::Update { move_to: Some(target), .. } => target,
        _ => seq![],
    }
}

/// The plan for an operation whose new file was checked.
spec fn new_plan(
    operation: OperationModel,
    source: PathId,
    full: PathId,
    parent: PathId,
    draft: Seq<char>,
) -> PlannedModel {
    match operation {
        OperationModel::Add { lines, .. } => PlannedModel::Add {
            full,
            parent,
            content: file_text(lines, false),
        },
        _ => PlannedModel::Update { source, destination: Some((full, parent)), content: draft },
    }
}

/// Whether the operation creates a file.
spec fn creates(operation: OperationModel) -> bool {
    operation is Add || (operation matches OperationModel::Update { move_to, .. } && move_to is Some)
}

/// One step of the check of a new file.
proof fn lemma_future_step(paths: Paths, work: Work, source: PathId, step: FutureStep)
    requires
        0 <= work.run.current < work.run.operations.len(),
        creates(work.run.operations[work.run.current]),
        work.run.step == future_step(work.run.operations[work.run.current], source, step),
    ensures
        ({
            let run = work.run;
            let operation = run.operations[run.current];
            let path = new_path(operation);
            let reply = answer(paths, work.disk, future_request(step, run.workspace, path));
            stepped(paths, work) == (Work {
                run: match future_next(step, path, !(operation is Add), reply) {
                    Next::Ask(next) => RunModel {
                        step: future_step(operation, source, next),
                        ..run
                    },
                    Next::Fail(error) => failed(run, error),
                    Next::Done((full, parent)) => planned(
                        run,
                        new_plan(operation, source, full, parent, run.draft),
                    ),
                },
                disk: work.disk,
            })
        }),
{
}

/// Climbing ends at the directory that is there.
proof fn lemma_climb(
    paths: Paths,
    work: Work,
    source: PathId,
    full: PathId,
    parent: PathId,
    candidate: PathId,
)
    requires
        0 <= work.run.current < work.run.operations.len(),
        creates(work.run.operations[work.run.current]),
        work.run.step == future_step(
            work.run.operations[work.run.current],
            source,
            FutureStep::Ancestor { full, parent, candidate },
        ),
        is_rooted(paths, work.disk, candidate),
    ensures
        leads(
            paths,
            work,
            Work {
                run: RunModel {
                    step: future_step(
                        work.run.operations[work.run.current],
                        source,
                        FutureStep::ParentLink { full, parent },
                    ),
                    ..work.run
                },
                disk: work.disk,
            },
        ),
    decreases depth(paths, candidate),
{
    let run = work.run;
    let operation = run.operations[run.current];
    let end = Work {
        run: RunModel {
            step: future_step(operation, source, FutureStep::ParentLink { full, parent }),
            ..run
        },
        disk: work.disk,
    };
    let step = FutureStep::Ancestor { full, parent, candidate };
    lemma_future_step(paths, work, source, step);
    let second = stepped(paths, work);
    if entry_at(paths, work.disk, candidate) is Missing {
        let next = FutureStep::AncestorParent { full, parent, candidate };
        lemma_future_step(paths, second, source, next);
        let third = stepped(paths, second);
        let up = above(paths, candidate)->0;
        assert(third.run == RunModel {
            step: future_step(
                operation,
                source,
                FutureStep::Ancestor { full, parent, candidate: up },
            ),
            ..run
        });
        lemma_climb(paths, third, source, full, parent, up);
        assert(end.run == RunModel { step: end.run.step, ..third.run });
        lemma_step_leads(paths, second, end);
        lemma_step_leads(paths, work, end);
    } else {
        let next = FutureStep::ResolveAncestor { full, parent, candidate };
        lemma_future_step(paths, second, source, next);
        assert(stepped(paths, second) == end);
        lemma_stays(paths, end);
        lemma_step_leads(paths, second, end);
        lemma_step_leads(paths, work, end);
    }
}

/// The check of a new file ends with its place, or with what stands in the way.
proof fn lemma_future(paths: Paths, work: Work, source: PathId)
    requires
        0 <= work.run.current < work.run.operations.len(),
        creates(work.run.operations[work.run.current]),
        work.run.step == future_step(
            work.run.operations[work.run.current],
            source,
            FutureStep::Allowed,
        ),
        has_room(
            paths,
            work.disk,
            work.run.workspace,
            new_path(work.run.operations[work.run.current]),
        ),
    ensures
        ({
            let run = work.run;
            let operation = run.operations[run.current];
            let full = place(paths, run.workspace, new_path(operation));
            let parent = above(paths, full)->0;
            leads(
                paths,
                work,
                Work {
                    run: match new_obstacle(
                        paths,
                        work.disk,
                        run.workspace,
                        new_path(operation),
                        !(operation is Add),
                    ) {
                        Some(error) => failed(run, error),
                        None => planned(
                            run,
                            new_plan(operation, source, full, parent, run.draft),
                        ),
                    },
                    disk: work.disk,
                },
            )
        }),
{
    let run = work.run;
    let operation = run.operations[run.current];
    let path = new_path(operation);
    let full = place(paths, run.workspace, path);
    let parent = above(paths, full)->0;
    let blocked = new_obstacle(paths, work.disk, run.workspace, path, !(operation is Add));
    let end = Work {
        run: match blocked {
            Some(error) => failed(run, error),
            None => planned(run, new_plan(operation, source, full, parent, run.draft)),
        },
        disk: work.disk,
    };
    lemma_future_step(paths, work, source, FutureStep::Allowed);
    let second = stepped(paths, work);
    lemma_future_step(paths, second, source, FutureStep::Locate);
    let third = stepped(paths, second);
    lemma_climb(paths, third, source, full, parent, parent);
    let fourth = Work {
        run: RunModel {
            step: future_step(operation, source, FutureStep::ParentLink { full, parent }),
            ..run
        },
        disk: work.disk,
    };
    assert(fourth.run == RunModel { step: fourth.run.step, ..third.run });
    lemma_future_step(paths, fourth, source, FutureStep::ParentLink { full, parent });
    let fifth = stepped(paths, fourth);
    if entry_at(paths, work.disk, parent) is Missing {
        lemma_target(paths, fifth, source, full, parent, end);
    } else {
        lemma_future_step(paths, fifth, source, FutureStep::ResolveParent { full, parent });
        let sixth = stepped(paths, fifth);
        lemma_target(paths, sixth, source, full, parent, end);
        lemma_step_leads(paths, fifth, end);
    }
    lemma_step_leads(paths, fourth, end);
    lemma_leads_on(paths, third, fourth, end);
    lemma_step_leads(paths, second, end);
    lemma_step_leads(paths, work, end);
}

/// The last questions of the check of a new file.
proof fn lemma_target(
    paths: Paths,
    work: Work,
    source: PathId,
    full: PathId,
    parent: PathId,
    end: Work,
)
    requires
        0 <= work.run.current < work.run.operations.len(),
        creates(work.run.operations[work.run.current]),
        work.run.step == future_step(
            work.run.operations[work.run.current],
            source,
            FutureStep::TargetLink { full, parent },
        ),
        full == place(
            paths,
            work.run.workspace,
            new_path(work.run.operations[work.run.current]),
        ),
        end == (Work {
            run: match new_obstacle(
                paths,
                work.disk,
                work.run.workspace,
                new_path(work.run.operations[work.run.current]),
                !(work.run.operations[work.run.current] is Add),
            ) {
                Some(error) => failed(work.run, error),
                None => planned(
                    work.run,
                    new_plan(
                        work.run.operations[work.run.current],
                        source,
                        full,
                        parent,
                        work.run.draft,
                    ),
                ),
            },
            disk: work.disk,
        }),
    ensures
        leads(paths, work, end),
{
    lemma_future_step(paths, work, source, FutureStep::TargetLink { full, parent });
    let second = stepped(paths, work);
    lemma_stays(paths, end);
    if entry_at(paths, work.disk, full) is Directory {
        assert(second == end);
    } else {
        lemma_future_step(paths, second, source, FutureStep::Exists { full, parent });
        assert(stepped(paths, second) == end);
        lemma_step_leads(paths, second, end);
    }
    lemma_step_leads(paths, work, end);
}

/// The question of the check of a file that has to be there, for an operation.
spec fn existing_step(operation: OperationModel, step: ExistingStep) -> Step {
    if operation is Delete {
        Step::Delete { step }
    } else {
        Step::Source { step }
    }
}

/// The path of a file that an operation changes.
spec fn old_path(operation: OperationModel) -> Seq<char> {
    match operation {
        OperationModel::Add { path, .. } => path,
        OperationModel::Delete { path } => path,
        OperationModel::Update { path, .. } => path,
    }
}

/// One step of the check of a file that has to be there.
proof fn lemma_existing_step(paths: Paths, work: Work, step: ExistingStep)
    requires
        0 <= work.run.current < work.run.operations.len(),
        !(work.run.operations[work.run.current] is Add),
        work.run.step == existing_step(work.run.operations[work.run.current], step),
    ensures
        ({
            let run = work.run;
            let operation = run.operations[run.current];
            let path = old_path(operation);
            let reply = answer(paths, work.disk, existing_request(step, run.workspace, path));
            stepped(paths, work) == (Work {
                run: match existing_next(step, path, reply) {
                    Next::Ask(next) => RunModel { step: existing_step(operation, next), ..run },
                    Next::Fail(error) => failed(run, error),
                    Next::Done(at) => if operation is Delete {
                        planned(run, PlannedModel::Delete { target: at })
                    } else {
                        RunModel { step: Step::Read { source: at }, ..run }
                    },
                },
                disk: work.disk,
            })
        }),
{
}

/// The check of a file that has to be there ends with what it resolves to, or
/// with what stands in the way.
proof fn lemma_existing(paths: Paths, work: Work)
    requires
        0 <= work.run.current < work.run.operations.len(),
        !(work.run.operations[work.run.current] is Add),
        work.run.step == existing_step(
            work.run.operations[work.run.current],
            ExistingStep::Allowed,
        ),
    ensures
        ({
            let run = work.run;
            let operation = run.operations[run.current];
            let at = resolved(paths, place(paths, run.workspace, old_path(operation)));
            leads(
                paths,
                work,
                Work {
                    run: match existing_obstacle(
                        paths,
                        work.disk,
                        run.workspace,
                        old_path(operation),
                    ) {
                        Some(error) => failed(run, error),
                        None => if operation is Delete {
                            planned(run, PlannedModel::Delete { target: at })
                        } else {
                            RunModel { step: Step::Read { source: at }, ..run }
                        },
                    },
                    disk: work.disk,
                },
            )
        }),
{
    let run = work.run;
    let operation = run.operations[run.current];
    let full = place(paths, run.workspace, old_path(operation));
    let at = resolved(paths, full);
    let end = Work {
        run: match existing_obstacle(paths, work.disk, run.workspace, old_path(operation)) {
            Some(error) => failed(run, error),
            None => if operation is Delete {
                planned(run, PlannedModel::Delete { target: at })
            } else {
                RunModel { step: Step::Read { source: at }, ..run }
            },
        },
        disk: work.disk,
    };
    lemma_stays(paths, end);
    lemma_existing_step(paths, work, ExistingStep::Allowed);
    let second = stepped(paths, work);
    lemma_existing_step(paths, second, ExistingStep::Locate);
    let third = stepped(paths, second);
    lemma_existing_step(paths, third, ExistingStep::Link { full });
    let fourth = stepped(paths, third);
    if entry_at(paths, work.disk, full) is File {
        lemma_existing_step(paths, fourth, ExistingStep::Resolve { full });
        let fifth = stepped(paths, fourth);
        lemma_existing_step(paths, fifth, ExistingStep::ResolveAgain { full });
        assert(stepped(paths, fifth) == end);
        lemma_step_leads(paths, fifth, end);
        lemma_step_leads(paths, fourth, end);
    } else {
        assert(fourth == end);
    }
    lemma_step_leads(paths, third, end);
    lemma_step_leads(paths, second, end);
    lemma_step_leads(paths, work, end);
}

/// The plan for an operation on a disk.
spec fn plan_for(
    paths: Paths,
    disk: Disk,
    workspace: Seq<char>,
    operation: OperationModel,
) -> PlannedModel {
    match operation {
        OperationModel::Add { path, lines } => PlannedModel::Add {
            full: place(paths, workspace, path),
            parent: above(paths, place(paths, workspace, path))->0,
            content: file_text(lines, false),
        },
        OperationModel::Delete { path } => PlannedModel::Delete {
            target: resolved(paths, place(paths, workspace, path)),
        },
        OperationModel::Update { path, move_to, hunks } => PlannedModel::Update {
            source: resolved(paths, place(paths, workspace, path)),
            destination: match move_to {
                Some(target) => Some(
                    (
                        place(paths, workspace, target),
                        above(paths, place(paths, workspace, target))->0,
                    ),
                ),
                None => None,
            },
            content: text_after_hunks(
                text_at(paths, disk, workspace, path),
                hunks,
                path,
            )->Ok_0,
        },
    }
}

/// A run whose check of operation `count` has begun.
spec fn planning_at(
    paths: Paths,
    disk: Disk,
    workspace: Seq<char>,
    operations: Seq<OperationModel>,
    count: int,
    draft: Seq<char>,
) -> RunModel {
    planning(
        RunModel {
            plan: Seq::new(
                count as nat,
                |i: int| plan_for(paths, disk, workspace, operations[i]),
            ),
            draft,
            ..started(workspace, operations)
        },
        count,
    )
}

/// Whether the check of operation `count` has begun.
spec fn is_planning_at(
    run: RunModel,
    paths: Paths,
    disk: Disk,
    workspace: Seq<char>,
    operations: Seq<OperationModel>,
    count: int,
) -> bool {
    exists|draft: Seq<char>|
        run == planning_at(paths, disk, workspace, operations, count, draft)
}

/// One operation is planned, or stands in the way.
proof fn lemma_plan_one(
    paths: Paths,
    disk: Disk,
    workspace: Seq<char>,
    operations: Seq<OperationModel>,
    count: int,
    draft: Seq<char>,
) -> (end: Work)
    requires
        are_paths(paths),
        0 <= count < operations.len(),
        is_placeable(paths, disk, workspace, operations[count]),
    ensures
        leads(
            paths,
            Work { run: planning_at(paths, disk, workspace, operations, count, draft), disk },
            end,
        ),
        end.disk == disk,
        match obstacle(paths, disk, workspace, operations[count]) {
            Some(error) => end.run.outcome == Some(Err::<Seq<Seq<char>>, _>(error)),
            None => is_planning_at(
                end.run,
                paths,
                disk,
                workspace,
                operations,
                count + 1,
            ),
        },
{
    let run = planning_at(paths, disk, workspace, operations, count, draft);
    let work = Work { run, disk };
    let operation = operations[count];
    let more = Seq::new(
        (count + 1) as nat,
        |i: int| plan_for(paths, disk, workspace, operations[i]),
    );
    let plan = plan_for(paths, disk, workspace, operation);
    assert(more == run.plan.push(plan));
    match operation {
        OperationModel::Add { path, lines } => {
            lemma_future(paths, work, 0);
            let end = Work {
                run: match obstacle(paths, disk, workspace, operation) {
                    Some(error) => failed(run, error),
                    None => planned(run, plan),
                },
                disk,
            };
            if obstacle(paths, disk, workspace, operation) is None {
                assert(end.run == planning_at(
                    paths,
                    disk,
                    workspace,
                    operations,
                    count + 1,
                    draft,
                ));
            }
            end
        },
        OperationModel::Delete { path } => {
            lemma_existing(paths, work);
            let end = Work {
                run: match obstacle(paths, disk, workspace, operation) {
                    Some(error) => failed(run, error),
                    None => planned(run, plan),
                },
                disk,
            };
            if obstacle(paths, disk, workspace, operation) is None {
                assert(end.run == planning_at(
                    paths,
                    disk,
                    workspace,
                    operations,
                    count + 1,
                    draft,
                ));
            }
            end
        },
        OperationModel::Update { path, move_to, hunks } => {
            lemma_plan_update(paths, disk, workspace, operations, count, draft)
        },
    }
}

/// An update is planned, or stands in the way.
proof fn lemma_plan_update(
    paths: Paths,
    disk: Disk,
    workspace: Seq<char>,
    operations: Seq<OperationModel>,
    count: int,
    draft: Seq<char>,
) -> (end: Work)
    requires
        are_paths(paths),
        0 <= count < operations.len(),
        is_placeable(paths, disk, workspace, operations[count]),
        operations[count] is Update,
    ensures
        leads(
            paths,
            Work { run: planning_at(paths, disk, workspace, operations, count, draft), disk },
            end,
        ),
        end.disk == disk,
        match obstacle(paths, disk, workspace, operations[count]) {
            Some(error) => end.run.outcome == Some(Err::<Seq<Seq<char>>, _>(error)),
            None => is_planning_at(
                end.run,
                paths,
                disk,
                workspace,
                operations,
                count + 1,
            ),
        },
{
    let run = planning_at(paths, disk, workspace, operations, count, draft);
    let work = Work { run, disk };
    let operation = operations[count];
    let more = Seq::new(
        (count + 1) as nat,
        |i: int| plan_for(paths, disk, workspace, operations[i]),
    );
    let plan = plan_for(paths, disk, workspace, operation);
    assert(more == run.plan.push(plan));
    lemma_existing(paths, work);
    let path = old_path(operation);
    let source = resolved(paths, place(paths, workspace, path));
    if let OperationModel::Update { path, move_to, hunks } = operation {
        match existing_obstacle(paths, disk, workspace, path) {
            Some(error) => Work { run: failed(run, error), disk },
            None => {
                let reading = Work {
                    run: RunModel { step: Step::Read { source }, ..run },
                    disk,
                };
                let text = text_at(paths, disk, workspace, path);
                assert(resolved(paths, source) == source);
                assert(requested(reading.run) == Some(RequestModel::Read { at: source }));
                let read = stepped(paths, reading);
                assert(read == Work {
                    run: advanced(reading.run, ReplyModel::Text(Ok(text))),
                    disk,
                });
                let end = match text_after_hunks(text, hunks, path) {
                    Err(error) => Work { run: failed(reading.run, error), disk },
                    Ok(content) => match move_to {
                        None => {
                            let end = Work { run: planned(reading.run, plan), disk };
                            assert(end.run == planning_at(
                                paths,
                                disk,
                                workspace,
                                operations,
                                count + 1,
                                draft,
                            ));
                            end
                        },
                        Some(target) => {
                            lemma_future(paths, read, source);
                            let end = Work {
                                run: match new_obstacle(paths, disk, workspace, target, true) {
                                    Some(error) => failed(read.run, error),
                                    None => planned(read.run, plan),
                                },
                                disk,
                            };
                            if new_obstacle(paths, disk, workspace, target, true) is None {
                                assert(end.run == planning_at(
                                    paths,
                                    disk,
                                    workspace,
                                    operations,
                                    count + 1,
                                    content,
                                ));
                            }
                            end
                        },
                    },
                };
                lemma_stays(paths, end);
                assert(leads(paths, read, end));
                lemma_step_leads(paths, reading, end);
                lemma_leads_on(paths, work, reading, end);
                end
            },
        }
    } else {
        work
    }
}

/// All operations from `count` on are planned.
proof fn lemma_plan_all(
    paths: Paths,
    disk: Disk,
    workspace: Seq<char>,
    operations: Seq<OperationModel>,
    count: int,
    to: int,
    draft: Seq<char>,
) -> (then: Seq<char>)
    requires
        are_paths(paths),
        0 <= count <= to <= operations.len(),
        forall|i: int|
            0 <= i < to ==> is_placeable(paths, disk, workspace, #[trigger] operations[i])
                && obstacle(paths, disk, workspace, operations[i]) is None,
    ensures
        leads(
            paths,
            Work { run: planning_at(paths, disk, workspace, operations, count, draft), disk },
            Work { run: planning_at(paths, disk, workspace, operations, to, then), disk },
        ),
    decreases to - count,
{
    let from = Work { run: planning_at(paths, disk, workspace, operations, count, draft), disk };
    if count == to {
        lemma_stays(paths, from);
        draft
    } else {
        assert(is_placeable(paths, disk, workspace, operations[count]));
        let middle = lemma_plan_one(paths, disk, workspace, operations, count, draft);
        let behind = count + 1;
        let next = choose|then: Seq<char>|
            middle.run == planning_at(paths, disk, workspace, operations, behind, then);
        let then = lemma_plan_all(paths, disk, workspace, operations, count + 1, to, next);
        lemma_leads_on(
            paths,
            from,
            middle,
            Work { run: planning_at(paths, disk, workspace, operations, to, then), disk },
        );
        then
    }
}

/// The patch begins with its first operation.
proof fn lemma_begin(
    paths: Paths,
    disk: Disk,
    workspace: Seq<char>,
    operations: Seq<OperationModel>,
)
    ensures
        leads(
            paths,
            Work { run: started(workspace, operations), disk },
            Work { run: planning_at(paths, disk, workspace, operations, 0, seq![]), disk },
        ),
{
    let first = Work { run: started(workspace, operations), disk };
    let second = stepped(paths, first);
    let third = stepped(paths, second);
    let end = Work { run: planning_at(paths, disk, workspace, operations, 0, seq![]), disk };
    assert(third == end) by {
        assert(Seq::new(
            0,
            |i: int| plan_for(paths, disk, workspace, operations[i]),
        ) == Seq::<PlannedModel>::empty());
        assert(third.run == end.run);
    }
    lemma_stays(paths, end);
    lemma_step_leads(paths, second, end);
    lemma_step_leads(paths, first, end);
}

/// What a patch says of an operation that it carried out.
pub open spec fn told_of(operation: OperationModel) -> Seq<char> {
    match operation {
        OperationModel::Add { path, .. } => path,
        OperationModel::Delete { path } => path,
        OperationModel::Update { path, move_to: None, .. } => path,
        OperationModel::Update { path, move_to: Some(target), .. } => path + " -> "@ + target,
    }
}

/// A patch in whose way an operation stands ends with the error that says so,
/// and leaves the disk as it is.
pub proof fn law_obstacle_leaves_the_disk_alone(
    paths: Paths,
    disk: Disk,
    workspace: Seq<char>,
    operations: Seq<OperationModel>,
    at: int,
    error: ExecutionErrorModel,
) -> (end: Work)
    requires
        are_paths(paths),
        0 <= at < operations.len(),
        forall|i: int|
            0 <= i < at ==> is_placeable(paths, disk, workspace, #[trigger] operations[i])
                && obstacle(paths, disk, workspace, operations[i]) is None,
        is_placeable(paths, disk, workspace, operations[at]),
        obstacle(paths, disk, workspace, operations[at]) == Some(error),
    ensures
        leads(paths, Work { run: started(workspace, operations), disk }, end),
        end.run.outcome == Some(Err::<Seq<Seq<char>>, _>(error)),
        end.disk == disk,
{
    let first = Work { run: started(workspace, operations), disk };
    let second = Work {
        run: planning_at(paths, disk, workspace, operations, 0, seq![]),
        disk,
    };
    lemma_begin(paths, disk, workspace, operations);
    let then = lemma_plan_all(paths, disk, workspace, operations, 0, at, seq![]);
    let third = Work { run: planning_at(paths, disk, workspace, operations, at, then), disk };
    lemma_leads_on(paths, first, second, third);
    let end = lemma_plan_one(paths, disk, workspace, operations, at, then);
    lemma_leads_on(paths, first, third, end);
    end
}

/// What a patch says of its operations, in their order.
pub open spec fn told_of_all(operations: Seq<OperationModel>) -> Seq<Seq<char>> {
    operations.map_values(|operation: OperationModel| told_of(operation))
}

/// A run whose operation `count` is about to be carried out.
spec fn applying_at(
    paths: Paths,
    disk: Disk,
    workspace: Seq<char>,
    operations: Seq<OperationModel>,
    count: int,
    draft: Seq<char>,
) -> RunModel {
    applying(
        RunModel {
            plan: Seq::new(
                operations.len(),
                |i: int| plan_for(paths, disk, workspace, operations[i]),
            ),
            draft,
            affected: told_of_all(operations).take(count),
            current: 0,
            ..started(workspace, operations)
        },
        count,
    )
}

/// Whether two runs have come equally far.
spec fn is_as_far(one: RunModel, other: RunModel) -> bool {
    &&& one.workspace == other.workspace
    &&& one.operations == other.operations
    &&& one.step == other.step
    &&& one.plan == other.plan
    &&& one.affected == other.affected
    &&& one.outcome == other.outcome
    &&& !(one.step is Finished) ==> one.current == other.current
}

/// A new file is made ready: its name in its directory is written next.
proof fn lemma_ready(paths: Paths, work: Work, full: PathId, parent: PathId) -> (end: Work)
    requires
        are_paths(paths),
        0 <= work.run.current < work.run.operations.len(),
        work.run.current < work.run.plan.len(),
        work.run.step == (Step::Ready { step: ReadyStep::CreateDirectories }),
        new_file(work.run.plan[work.run.current]) == Some(
            (full, parent),
        ),
        above(paths, full) == Some(parent),
    ensures
        leads(paths, work, end),
        end.disk.files == work.disk.files,
        end.run == (RunModel {
            step: Step::Write { at: name_in(paths, resolved(paths, parent), full) },
            ..work.run
        }),
{
    let run = work.run;
    let directory = resolved(paths, parent);
    let name = name_in(paths, directory, full);
    let second = stepped(paths, work);
    assert(requested(run) == Some(RequestModel::CreateDirectories { at: parent }));
    assert(second.run == RunModel { step: Step::Ready { step: ReadyStep::Resolve }, ..run });
    assert(climbed(paths, parent, 0) == parent);
    assert(second.disk.directories.contains(directory));
    let third = stepped(paths, second);
    assert(requested(second.run) == Some(RequestModel::Resolve { at: parent }));
    assert(third.run == RunModel {
        step: Step::Ready { step: ReadyStep::Join { directory } },
        ..run
    });
    let fourth = stepped(paths, third);
    assert(requested(third.run) == Some(RequestModel::JoinFileName { directory, of: full }));
    assert(fourth.run == RunModel {
        step: Step::Ready { step: ReadyStep::Link { target: name } },
        ..run
    });
    let end = stepped(paths, fourth);
    assert(requested(fourth.run) == Some(RequestModel::ProbeLink { at: name }));
    assert(end.run == RunModel { step: Step::Write { at: name }, ..run });
    lemma_stays(paths, end);
    lemma_step_leads(paths, fourth, end);
    lemma_step_leads(paths, third, end);
    lemma_step_leads(paths, second, end);
    lemma_step_leads(paths, work, end);
    end
}

/// With one more operation carried out the run is at the next one.
proof fn lemma_applied(
    paths: Paths,
    disk: Disk,
    workspace: Seq<char>,
    operations: Seq<OperationModel>,
    count: int,
    run: RunModel,
)
    requires
        0 <= count < operations.len(),
        is_as_far(
            RunModel {
                step: applying_at(paths, disk, workspace, operations, count, seq![]).step,
                ..run
            },
            applying_at(paths, disk, workspace, operations, count, seq![]),
        ),
    ensures
        is_as_far(
            applied(run, operations[count]),
            applying_at(paths, disk, workspace, operations, count + 1, seq![]),
        ),
{
    let operation = operations[count];
    let told = told_of_all(operations);
    assert(told.take(count).push(told_of(operation)) == told.take(count + 1));
    assert(affected_text(operation) == told_of(operation));
}

/// A file that is there is removed or written.
proof fn lemma_apply_there(
    paths: Paths,
    disk: Disk,
    workspace: Seq<char>,
    operations: Seq<OperationModel>,
    count: int,
    work: Work,
)
    requires
        are_paths(paths),
        0 <= count < operations.len(),
        !creates(operations[count]),
        is_as_far(
            work.run,
            applying_at(paths, disk, workspace, operations, count, seq![]),
        ),
    ensures
        stepped(paths, work).disk.files == files_after(
            paths,
            disk,
            workspace,
            operations[count],
            work.disk.files,
        ),
        stepped(paths, work).run == applied(work.run, operations[count]),
{
    let run = work.run;
    let operation = operations[count];
    let plan = plan_for(paths, disk, workspace, operation);
    assert(run.plan[count] == plan);
    match plan {
        PlannedModel::Delete { target } => {
            assert(requested(run) == Some(RequestModel::Remove { at: target }));
            assert(resolved(paths, target) == target);
        },
        PlannedModel::Update { source, destination, content } => {
            assert(resolved(paths, source) == source);
            assert(requested(run) == Some(RequestModel::Write { at: source, content }));
        },
        _ => {},
    }
}

/// A new file is written, and what was moved there is removed.
proof fn lemma_apply_new(
    paths: Paths,
    disk: Disk,
    workspace: Seq<char>,
    operations: Seq<OperationModel>,
    count: int,
    work: Work,
) -> (end: Work)
    requires
        are_paths(paths),
        0 <= count < operations.len(),
        creates(operations[count]),
        is_placeable(paths, disk, workspace, operations[count]),
        is_as_far(
            work.run,
            applying_at(paths, disk, workspace, operations, count, seq![]),
        ),
    ensures
        leads(paths, work, end),
        end.disk.files == files_after(
            paths,
            disk,
            workspace,
            operations[count],
            work.disk.files,
        ),
        exists|step: Step| #[trigger]
            applied(RunModel { step, ..work.run }, operations[count]) == end.run,
{
    let run = work.run;
    let operation = operations[count];
    let plan = plan_for(paths, disk, workspace, operation);
    assert(run.plan[count] == plan);
    let (full, parent) = new_file(plan)->0;
    let at = name_in(paths, resolved(paths, parent), full);
    let ready = lemma_ready(paths, work, full, parent);
    assert(resolved(paths, at) == resolved(paths, full));
    let written = stepped(paths, ready);
    lemma_stays(paths, written);
    match plan {
        PlannedModel::Add { content, .. } => {
            assert(requested(ready.run) == Some(RequestModel::Write { at, content }));
            assert(written.run == applied(RunModel { step: ready.run.step, ..run }, operation));
            lemma_step_leads(paths, ready, written);
            lemma_leads_on(paths, work, ready, written);
            written
        },
        PlannedModel::Update { source, content, .. } => {
            assert(resolved(paths, source) == source);
            assert(requested(ready.run) == Some(RequestModel::Write { at, content }));
            assert(written.run == RunModel { step: Step::Remove { at: source }, ..run });
            assert(requested(written.run) == Some(RequestModel::Remove { at: source }));
            let end = stepped(paths, written);
            assert(end.run == applied(RunModel { step: written.run.step, ..run }, operation));
            lemma_stays(paths, end);
            lemma_step_leads(paths, written, end);
            lemma_step_leads(paths, ready, end);
            lemma_leads_on(paths, work, ready, end);
            end
        },
        PlannedModel::Delete { .. } => work,
    }
}

/// One operation is carried out.
proof fn lemma_apply_one(
    paths: Paths,
    disk: Disk,
    workspace: Seq<char>,
    operations: Seq<OperationModel>,
    count: int,
    work: Work,
) -> (end: Work)
    requires
        are_paths(paths),
        0 <= count < operations.len(),
        is_placeable(paths, disk, workspace, operations[count]),
        is_as_far(
            work.run,
            applying_at(paths, disk, workspace, operations, count, seq![]),
        ),
    ensures
        leads(paths, work, end),
        end.disk.files == files_after(
            paths,
            disk,
            workspace,
            operations[count],
            work.disk.files,
        ),
        is_as_far(
            end.run,
            applying_at(paths, disk, workspace, operations, count + 1, seq![]),
        ),
{
    if creates(operations[count]) {
        let end = lemma_apply_new(paths, disk, workspace, operations, count, work);
        let step = choose|step: Step| #[trigger]
            applied(RunModel { step, ..work.run }, operations[count]) == end.run;
        lemma_applied(
            paths,
            disk,
            workspace,
            operations,
            count,
            RunModel { step, ..work.run },
        );
        end
    } else {
        lemma_apply_there(paths, disk, workspace, operations, count, work);
        lemma_applied(paths, disk, workspace, operations, count, work.run);
        let end = stepped(paths, work);
        lemma_stays(paths, end);
        lemma_step_leads(paths, work, end);
        end
    }
}

/// All operations from `count` on are carried out.
proof fn lemma_apply_all(
    paths: Paths,
    disk: Disk,
    workspace: Seq<char>,
    operations: Seq<OperationModel>,
    count: int,
    work: Work,
) -> (end: Work)
    requires
        are_paths(paths),
        0 <= count <= operations.len(),
        forall|i: int|
            0 <= i < operations.len() ==> is_placeable(
                paths,
                disk,
                workspace,
                #[trigger] operations[i],
            ),
        is_as_far(
            work.run,
            applying_at(paths, disk, workspace, operations, count, seq![]),
        ),
        work.disk.files == files_after_all(paths, disk, workspace, operations, count),
    ensures
        leads(paths, work, end),
        end.disk.files == files_after_all(
            paths,
            disk,
            workspace,
            operations,
            operations.len() as int,
        ),
        end.run.outcome == Some(Ok::<_, ExecutionErrorModel>(told_of_all(operations))),
    decreases operations.len() - count,
{
    if count == operations.len() {
        let told = told_of_all(operations);
        assert(told.take(count) == told);
        lemma_stays(paths, work);
        work
    } else {
        assert(is_placeable(paths, disk, workspace, operations[count]));
        let middle = lemma_apply_one(paths, disk, workspace, operations, count, work);
        let end = lemma_apply_all(paths, disk, workspace, operations, count + 1, middle);
        lemma_leads_on(paths, work, middle, end);
        end
    }
}

/// A patch in whose way nothing stands is carried out as a whole: every file
/// that it adds, changes or moves has its new text at its place, what it deletes
/// or moves away is gone, and no other file is touched. It succeeds, and names
/// its operations in their order.
pub proof fn law_patch_is_carried_out(
    paths: Paths,
    disk: Disk,
    workspace: Seq<char>,
    operations: Seq<OperationModel>,
) -> (end: Work)
    requires
        are_paths(paths),
        forall|i: int|
            0 <= i < operations.len() ==> is_placeable(
                paths,
                disk,
                workspace,
                #[trigger] operations[i],
            ) && obstacle(paths, disk, workspace, operations[i]) is None,
    ensures
        leads(paths, Work { run: started(workspace, operations), disk }, end),
        end.run.outcome == Some(Ok::<_, ExecutionErrorModel>(told_of_all(operations))),
        end.disk.files == files_after_all(
            paths,
            disk,
            workspace,
            operations,
            operations.len() as int,
        ),
{
    let first = Work { run: started(workspace, operations), disk };
    let second = Work {
        run: planning_at(paths, disk, workspace, operations, 0, seq![]),
        disk,
    };
    let count = operations.len() as int;
    lemma_begin(paths, disk, workspace, operations);
    let then = lemma_plan_all(paths, disk, workspace, operations, 0, count, seq![]);
    let third = Work { run: planning_at(paths, disk, workspace, operations, count, then), disk };
    lemma_leads_on(paths, first, second, third);
    let fourth = stepped(paths, third);
    assert(requested(third.run) == Some(RequestModel::RecordAction));
    assert(told_of_all(operations).take(0) == Seq::<Seq<char>>::empty());
    assert(is_as_far(
        fourth.run,
        applying_at(paths, disk, workspace, operations, 0, seq![]),
    ));
    let end = lemma_apply_all(paths, disk, workspace, operations, 0, fourth);
    lemma_step_leads(paths, third, end);
    lemma_leads_on(paths, first, third, end);
    end
}

} // verus!
