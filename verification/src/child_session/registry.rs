//! The child agents of all conversations, by the names of their sessions.

use crate::child_session::session::{
    cancelled, completed, new_child, timed_out, AgentModel, ChildModel, ChildSession,
    ChildSessionState, ChildTask, DelegateAgentConfig,
};
use crate::host::time::Timestamp;
use crate::host::tool::{
    copy_optional, error_result, optional_context, tool_error, ContextModel, ToolExecutionContext,
    ToolResult, ToolResultModel,
};
use crate::text::chars::same_text;
use crate::text::decimal::{append_padded, law_padded_is_unique, padded};
use vstd::prelude::*;

verus! {

/// What can go wrong with a child session.
#[derive(Debug, Clone, PartialEq, Eq)]
pub enum ChildSessionError {
    SessionNotFound { session_id: String },
}

/// The message of the error for a session that is not there.
pub open spec fn not_found_text(session_id: Seq<char>) -> Seq<char> {
    "child session '"@ + session_id + "' not found"@
}

impl ChildSessionError {
    /// The session that the error is about.
    pub open spec fn session(&self) -> Seq<char> {
        match self {
            ChildSessionError::SessionNotFound { session_id } => session_id@,
        }
    }

    /// The message of the error.
    pub fn to_text(&self) -> (r: String)
        ensures
            r@ == not_found_text(self.session()),
    {
        match self {
            ChildSessionError::SessionNotFound { session_id } => {
                let mut text = "child session '".to_string();
                text.append(session_id.as_str());
                text.append("' not found");
                text
            },
        }
    }
}

/// How the work of a child ended.
#[derive(Debug, Clone, PartialEq, Eq)]
pub enum DelegateOutcome {
    Finished(ToolResult),
    Failed { reason: String },
    TimedOut,
}

/// What such an end says.
#[verifier::ext_equal]
pub enum DelegateModel {
    Finished(ToolResultModel),
    Failed { reason: Seq<char> },
    TimedOut,
}

impl View for DelegateOutcome {
    type V = DelegateModel;

    open spec fn view(&self) -> DelegateModel {
        match self {
            DelegateOutcome::Finished(result) => DelegateModel::Finished(result@),
            DelegateOutcome::Failed { reason } => DelegateModel::Failed { reason: reason@ },
            DelegateOutcome::TimedOut => DelegateModel::TimedOut,
        }
    }
}

/// The child agents, and the number of the last one.
pub struct ChildSessionRegistry {
    next_id: u64,
    sessions: Vec<ChildSession>,
}

/// What a registry holds.
#[verifier::ext_equal]
pub struct ChildRegistryModel {
    pub next_id: u64,
    pub sessions: Seq<ChildModel>,
}

/// What sessions hold.
pub open spec fn child_models(list: Seq<ChildSession>) -> Seq<ChildModel> {
    Seq::new(list.len(), |i: int| list[i]@)
}

impl View for ChildSessionRegistry {
    type V = ChildRegistryModel;

    closed spec fn view(&self) -> ChildRegistryModel {
        ChildRegistryModel { next_id: self.next_id, sessions: child_models(self.sessions@) }
    }
}

/// The place of a session, or the number of sessions where there is none.
pub open spec fn child_index(sessions: Seq<ChildModel>, session_id: Seq<char>) -> int
    decreases sessions.len(),
{
    if sessions.len() == 0 || sessions.first().snapshot.session_id == session_id {
        0
    } else {
        1 + child_index(sessions.drop_first(), session_id)
    }
}

/// Whether there is a session of that name.
pub open spec fn has_child(sessions: Seq<ChildModel>, session_id: Seq<char>) -> bool {
    child_index(sessions, session_id) < sessions.len()
}

/// The session of that name.
pub open spec fn child_named(sessions: Seq<ChildModel>, session_id: Seq<char>) -> ChildModel {
    sessions[child_index(sessions, session_id)]
}

/// The sessions, with `child` in the place of the one of that name, or behind
/// the others.
pub open spec fn with_child(sessions: Seq<ChildModel>, child: ChildModel) -> Seq<ChildModel> {
    if has_child(sessions, child.snapshot.session_id) {
        sessions.update(child_index(sessions, child.snapshot.session_id), child)
    } else {
        sessions.push(child)
    }
}

/// The registry, with `child` in the place of the one of that name.
pub open spec fn storing_child(registry: ChildRegistryModel, child: ChildModel) -> ChildRegistryModel {
    ChildRegistryModel { sessions: with_child(registry.sessions, child), ..registry }
}

/// The place of a session holds one of that name, with none before it.
proof fn lemma_child_index(sessions: Seq<ChildModel>, session_id: Seq<char>)
    ensures
        0 <= child_index(sessions, session_id) <= sessions.len(),
        has_child(sessions, session_id) ==> child_named(sessions, session_id).snapshot.session_id
            == session_id,
        forall|i: int|
            0 <= i < child_index(sessions, session_id) ==> (
            #[trigger] sessions[i]).snapshot.session_id != session_id,
    decreases sessions.len(),
{
    if sessions.len() > 0 && sessions.first().snapshot.session_id != session_id {
        lemma_child_index(sessions.drop_first(), session_id);
        assert forall|i: int| 0 <= i < child_index(sessions, session_id) implies (
        #[trigger] sessions[i]).snapshot.session_id != session_id by {
            if i > 0 {
                assert(sessions.drop_first()[i - 1] == sessions[i]);
            }
        }
    }
}

/// A place that holds a session of that name, with none before it, is the place.
proof fn lemma_child_index_is(sessions: Seq<ChildModel>, session_id: Seq<char>, at: int)
    requires
        0 <= at <= sessions.len(),
        at < sessions.len() ==> sessions[at].snapshot.session_id == session_id,
        forall|i: int| 0 <= i < at ==> (#[trigger] sessions[i]).snapshot.session_id != session_id,
    ensures
        child_index(sessions, session_id) == at,
{
    lemma_child_index(sessions, session_id);
}

/// A session that was stored is found under its name.
pub proof fn lemma_stored_child(sessions: Seq<ChildModel>, child: ChildModel)
    ensures
        has_child(with_child(sessions, child), child.snapshot.session_id),
        child_named(with_child(sessions, child), child.snapshot.session_id) == child,
{
    let id = child.snapshot.session_id;
    let after = with_child(sessions, child);
    let at = child_index(sessions, id);
    lemma_child_index(sessions, id);
    assert(after[at] == child);
    assert(forall|i: int| 0 <= i < at ==> #[trigger] after[i] == sessions[i]);
    lemma_child_index_is(after, id, at);
}

/// The name that is given to child number `number`.
pub open spec fn child_id(number: int) -> Seq<char> {
    "child-"@ + padded(number as nat, 6)
}

/// The registry with one more child.
pub open spec fn with_registered_child(
    registry: ChildRegistryModel,
    task: ChildTask,
    now: int,
) -> ChildRegistryModel {
    ChildRegistryModel {
        next_id: (registry.next_id + 1) as u64,
        ..storing_child(registry, new_child(child_id(registry.next_id + 1), task, now))
    }
}

/// The session of that name, for the conversation that owns it. To any other
/// it does not exist.
pub open spec fn owned_child(
    registry: ChildRegistryModel,
    owner_key: Seq<char>,
    session_id: Seq<char>,
) -> Option<ChildModel> {
    if has_child(registry.sessions, session_id) && child_named(
        registry.sessions,
        session_id,
    ).snapshot.owner_key == owner_key {
        Some(child_named(registry.sessions, session_id))
    } else {
        None
    }
}

/// The session after its work ended.
pub open spec fn after_delegate(
    child: ChildModel,
    outcome: DelegateModel,
    workspace: Seq<char>,
    now: int,
) -> ChildModel {
    match outcome {
        DelegateModel::Finished(result) => completed(child, result, workspace, now),
        DelegateModel::Failed { reason } => completed(child, error_result(reason), workspace, now),
        DelegateModel::TimedOut => timed_out(child, child.snapshot.timeout_secs, now),
    }
}

/// The registry after the work of a child ended.
pub open spec fn with_delegate_ended(
    registry: ChildRegistryModel,
    session_id: Seq<char>,
    outcome: DelegateModel,
    workspace: Seq<char>,
    now: int,
) -> ChildRegistryModel {
    if has_child(registry.sessions, session_id) {
        storing_child(
            registry,
            after_delegate(child_named(registry.sessions, session_id), outcome, workspace, now),
        )
    } else {
        registry
    }
}

/// The registry once the work of a child can be broken off.
pub open spec fn with_abort_handle(registry: ChildRegistryModel, session_id: Seq<char>) -> ChildRegistryModel {
    if has_child(registry.sessions, session_id) {
        storing_child(
            registry,
            ChildModel {
                has_abort_handle: true,
                ..child_named(registry.sessions, session_id)
            },
        )
    } else {
        registry
    }
}

/// The registry once a child was cancelled.
pub open spec fn with_cancelled(
    registry: ChildRegistryModel,
    session_id: Seq<char>,
    reason: Seq<char>,
    now: int,
) -> ChildRegistryModel {
    if has_child(registry.sessions, session_id) {
        storing_child(
            registry,
            cancelled(child_named(registry.sessions, session_id), reason, now),
        )
    } else {
        registry
    }
}

/// The task of a child, from the conversation that sets it.
pub open spec fn task_from(
    owner_key: Seq<char>,
    context: Option<ContextModel>,
    agent_name: Seq<char>,
    agent: AgentModel,
    timeout_secs: u64,
    prompt_summary: Seq<char>,
) -> ChildTask {
    ChildTask {
        owner_key,
        channel_name: match context {
            Some(context) => context.channel_name,
            None => None,
        },
        reply_target: match context {
            Some(context) => context.reply_target,
            None => None,
        },
        agent_name,
        agent,
        timeout_secs,
        prompt_summary,
    }
}

/// An empty registry.
pub open spec fn new_child_registry() -> ChildRegistryModel {
    ChildRegistryModel { next_id: 0, sessions: seq![] }
}

impl Default for ChildSessionRegistry {
    fn default() -> (r: Self)
        ensures
            r@ == new_child_registry(),
    {
        let r = ChildSessionRegistry { next_id: 0, sessions: Vec::new() };
        assert(r@.sessions == Seq::<ChildModel>::empty());
        r
    }
}

impl ChildSessionRegistry {
    /// The place of a session, or the number of sessions where there is none.
    fn index_of(&self, session_id: &str) -> (r: usize)
        ensures
            r == child_index(self@.sessions, session_id@),
            r <= self.sessions@.len(),
    {
        let mut i: usize = 0;
        while i < self.sessions.len()
            invariant
                i <= self.sessions@.len(),
                self@.sessions == child_models(self.sessions@),
                forall|j: int|
                    0 <= j < i ==> (#[trigger] self@.sessions[j]).snapshot.session_id
                        != session_id@,
            decreases self.sessions@.len() - i,
        {
            assert(self@.sessions[i as int] == self.sessions@[i as int]@);
            if same_text(self.sessions[i].session_id(), session_id) {
                proof {
                    lemma_child_index_is(self@.sessions, session_id@, i as int);
                }
                return i;
            }
            i += 1;
        }
        proof {
            lemma_child_index_is(self@.sessions, session_id@, i as int);
        }
        i
    }

    /// Whether there is a number left for one more child.
    pub fn has_room(&self) -> (r: bool)
        ensures
            r == (self@.next_id < u64::MAX),
    {
        self.next_id < u64::MAX
    }

    /// Gives a child that is about to begin a session of its own, and returns
    /// the name of it.
    pub fn register(
        &mut self,
        owner_key: String,
        context: &Option<ToolExecutionContext>,
        agent_name: &str,
        agent_config: &DelegateAgentConfig,
        timeout_secs: u64,
        prompt_summary: String,
        now: Timestamp,
    ) -> (r: String)
        requires
            old(self)@.next_id < u64::MAX,
        ensures
            final(self)@ == with_registered_child(
                old(self)@,
                task_from(
                    owner_key@,
                    optional_context(*context),
                    agent_name@,
                    agent_config@,
                    timeout_secs,
                    prompt_summary@,
                ),
                now@,
            ),
            r@ == child_id(old(self)@.next_id + 1),
    {
        self.next_id = self.next_id + 1;
        let mut session_id = "child-".to_string();
        append_padded(&mut session_id, self.next_id, 6);
        let (channel_name, reply_target) = match context {
            Some(context) => (
                copy_optional(&context.channel_name),
                copy_optional(&context.reply_target),
            ),
            None => (None, None),
        };
        let session = ChildSession::new(
            session_id.clone(),
            owner_key,
            channel_name,
            reply_target,
            agent_name.to_string(),
            agent_config,
            timeout_secs,
            prompt_summary,
            now,
        );
        let ghost before = self@.sessions;
        proof {
            lemma_child_index(before, session_id@);
        }
        let index: usize = self.index_of(session_id.as_str());
        if index < self.sessions.len() {
            self.sessions.set(index, session);
            assert(self@.sessions == before.update(index as int, session@));
        } else {
            self.sessions.push(session);
            assert(self@.sessions == before.push(session@));
        }
        session_id
    }

    /// The session of that name.
    pub fn get(&self, session_id: &str) -> (r: Option<&ChildSession>)
        ensures
            match r {
                Some(session) => has_child(self@.sessions, session_id@) && session@ == child_named(
                    self@.sessions,
                    session_id@,
                ),
                None => !has_child(self@.sessions, session_id@),
            },
    {
        let index: usize = self.index_of(session_id);
        if index < self.sessions.len() {
            assert(self@.sessions[index as int] == self.sessions@[index as int]@);
            Some(&self.sessions[index])
        } else {
            None
        }
    }

    /// The session of that name, for the conversation that owns it.
    pub fn get_owned(&self, owner_key: &str, session_id: &str) -> (r: Result<
        &ChildSession,
        ChildSessionError,
    >)
        ensures
            match r {
                Ok(session) => owned_child(self@, owner_key@, session_id@) == Some(session@),
                Err(error) => owned_child(self@, owner_key@, session_id@) is None
                    && error.session() == session_id@,
            },
    {
        match self.get(session_id) {
            Some(session) => {
                if same_text(session.owner_key(), owner_key) {
                    Ok(session)
                } else {
                    Err(ChildSessionError::SessionNotFound { session_id: session_id.to_string() })
                }
            },
            None => Err(ChildSessionError::SessionNotFound { session_id: session_id.to_string() }),
        }
    }

    /// Notes that the work of a child can be broken off from now on.
    pub fn set_abort_handle(&mut self, session_id: &str)
        ensures
            final(self)@ == with_abort_handle(old(self)@, session_id@),
    {
        let ghost before = self@;
        let ghost list = self.sessions@;
        proof {
            lemma_child_index(before.sessions, session_id@);
        }
        let index: usize = self.index_of(session_id);
        if index < self.sessions.len() {
            assert(before.sessions[index as int] == list[index as int]@);
            self.sessions[index].set_abort_handle();
            assert(self@.sessions == before.sessions.update(
                index as int,
                self.sessions@[index as int]@,
            ));
        }
    }

    /// Notes that a child was cancelled. Returns whether there is work to be
    /// broken off; nothing where there is no such session.
    pub fn cancel(&mut self, session_id: &str, reason: &str, now: Timestamp) -> (r: Option<bool>)
        ensures
            final(self)@ == with_cancelled(old(self)@, session_id@, reason@, now@),
            match r {
                Some(abort) => has_child(old(self)@.sessions, session_id@) && abort == child_named(
                    old(self)@.sessions,
                    session_id@,
                ).has_abort_handle,
                None => !has_child(old(self)@.sessions, session_id@),
            },
    {
        let ghost before = self@;
        let ghost list = self.sessions@;
        proof {
            lemma_child_index(before.sessions, session_id@);
        }
        let index: usize = self.index_of(session_id);
        if index < self.sessions.len() {
            assert(before.sessions[index as int] == list[index as int]@);
            let abort = self.sessions[index].cancel(reason, now);
            assert(self@.sessions == before.sessions.update(
                index as int,
                self.sessions@[index as int]@,
            ));
            Some(abort)
        } else {
            None
        }
    }

    /// Notes how the work of a child ended.
    pub fn finish(
        &mut self,
        session_id: &str,
        outcome: &DelegateOutcome,
        workspace_dir: &str,
        now: Timestamp,
    )
        ensures
            final(self)@ == with_delegate_ended(
                old(self)@,
                session_id@,
                outcome@,
                workspace_dir@,
                now@,
            ),
    {
        let ghost before = self@;
        let ghost list = self.sessions@;
        proof {
            lemma_child_index(before.sessions, session_id@);
        }
        let index: usize = self.index_of(session_id);
        if index < self.sessions.len() {
            assert(before.sessions[index as int] == list[index as int]@);
            match outcome {
                DelegateOutcome::Finished(result) => {
                    self.sessions[index].mark_completed(result, workspace_dir, now);
                },
                DelegateOutcome::Failed { reason } => {
                    let result = tool_error(reason.clone());
                    self.sessions[index].mark_completed(&result, workspace_dir, now);
                },
                DelegateOutcome::TimedOut => {
                    let timeout_secs: u64 = self.sessions[index].timeout_secs();
                    self.sessions[index].mark_timeout(timeout_secs, now);
                },
            }
            assert(self@.sessions == before.sessions.update(
                index as int,
                self.sessions@[index as int]@,
            ));
        }
    }
}

/// Two numbers give two names.
pub proof fn law_child_names_are_unique(a: nat, b: nat)
    requires
        child_id(a as int) == child_id(b as int),
    ensures
        a == b,
{
    let start = "child-"@;
    let left = padded(a, 6);
    let right = padded(b, 6);
    assert((start + left).skip(start.len() as int) == left);
    assert((start + right).skip(start.len() as int) == right);
    law_padded_is_unique(a, b, 6);
}

/// Whether the name was given to a child of this registry, or could have been.
pub open spec fn was_issued(registry: ChildRegistryModel, session_id: Seq<char>) -> bool {
    exists|number: nat| 1 <= number <= registry.next_id && #[trigger] child_id(number as int) == session_id
}

/// Whether the names of all sessions were given by this registry.
pub open spec fn all_were_issued(registry: ChildRegistryModel) -> bool {
    forall|i: int|
        0 <= i < registry.sessions.len() ==> was_issued(
            registry,
            (#[trigger] registry.sessions[i]).snapshot.session_id,
        )
}

/// A child that is registered gets a session that was not there before, and all
/// other sessions stay as they are.
pub proof fn law_registration_adds_a_child(registry: ChildRegistryModel, task: ChildTask, now: int)
    requires
        all_were_issued(registry),
        registry.next_id < u64::MAX,
    ensures
        !has_child(registry.sessions, child_id(registry.next_id + 1)),
        with_registered_child(registry, task, now).sessions == registry.sessions.push(
            new_child(child_id(registry.next_id + 1), task, now),
        ),
        all_were_issued(with_registered_child(registry, task, now)),
{
    let id = child_id(registry.next_id + 1);
    lemma_child_index(registry.sessions, id);
    if has_child(registry.sessions, id) {
        let at = child_index(registry.sessions, id);
        assert(was_issued(registry, registry.sessions[at].snapshot.session_id));
        let number = choose|number: nat|
            1 <= number <= registry.next_id && #[trigger] child_id(number as int) == id;
        law_child_names_are_unique(number, (registry.next_id + 1) as nat);
    }
    let after = with_registered_child(registry, task, now);
    assert forall|i: int| 0 <= i < after.sessions.len() implies was_issued(
        after,
        (#[trigger] after.sessions[i]).snapshot.session_id,
    ) by {
        if i < registry.sessions.len() {
            assert(after.sessions[i] == registry.sessions[i]);
            assert(was_issued(registry, registry.sessions[i].snapshot.session_id));
            let number = choose|number: nat|
                1 <= number <= registry.next_id && #[trigger] child_id(number as int)
                    == registry.sessions[i].snapshot.session_id;
            assert(child_id(number as int) == after.sessions[i].snapshot.session_id);
        } else {
            let number = (registry.next_id + 1) as nat;
            assert(child_id(number as int) == after.sessions[i].snapshot.session_id);
        }
    }
}

/// A conversation sees the children that it owns, and no others.
pub proof fn law_children_are_private(
    registry: ChildRegistryModel,
    owner_key: Seq<char>,
    other: Seq<char>,
    session_id: Seq<char>,
)
    ensures
        owned_child(registry, owner_key, session_id) matches Some(child) ==> {
            &&& child.snapshot.owner_key == owner_key
            &&& child.snapshot.session_id == session_id
            &&& other != owner_key ==> owned_child(registry, other, session_id) is None
        },
{
    lemma_child_index(registry.sessions, session_id);
}

/// Once the work of a child has ended, nothing that comes later changes what is
/// told of it.
pub proof fn law_ended_child_stays(
    registry: ChildRegistryModel,
    session_id: Seq<char>,
    outcome: DelegateModel,
    workspace: Seq<char>,
    reason: Seq<char>,
    now: int,
)
    requires
        has_child(registry.sessions, session_id),
        child_named(registry.sessions, session_id).snapshot.state != ChildSessionState::Running,
    ensures
        with_delegate_ended(registry, session_id, outcome, workspace, now) == registry,
        child_named(
            with_cancelled(registry, session_id, reason, now).sessions,
            session_id,
        ).snapshot == child_named(registry.sessions, session_id).snapshot,
{
    lemma_child_index(registry.sessions, session_id);
    let child = child_named(registry.sessions, session_id);
    assert(registry.sessions.update(child_index(registry.sessions, session_id), child)
        == registry.sessions);
    lemma_stored_child(registry.sessions, cancelled(child, reason, now));
}

} // verus!
