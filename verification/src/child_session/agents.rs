//! The agents that can be delegated to.

use crate::child_session::session::{AgentModel, DelegateAgentConfig};
use crate::text::chars::same_text;
use vstd::prelude::*;

verus! {

/// An agent with its name.
#[derive(Debug, Clone, PartialEq, Eq)]
pub struct NamedAgent {
    pub name: String,
    pub config: DelegateAgentConfig,
}

/// What named agents say.
pub open spec fn agent_models(list: Seq<NamedAgent>) -> Seq<(Seq<char>, AgentModel)> {
    Seq::new(list.len(), |i: int| (list[i].name@, list[i].config@))
}

/// The agent of that name.
pub open spec fn agent_named(agents: Seq<(Seq<char>, AgentModel)>, name: Seq<char>) -> Option<
    AgentModel,
>
    decreases agents.len(),
{
    if agents.len() == 0 {
        None
    } else if agents.first().0 == name {
        Some(agents.first().1)
    } else {
        agent_named(agents.drop_first(), name)
    }
}

/// No two agents have the same name.
pub open spec fn has_distinct_names(agents: Seq<(Seq<char>, AgentModel)>) -> bool {
    forall|i: int, j: int|
        0 <= i < j < agents.len() ==> (#[trigger] agents[i]).0 != (#[trigger] agents[j]).0
}

/// Where no two agents have the same name, each is found under its own.
pub proof fn law_agents_are_found(agents: Seq<(Seq<char>, AgentModel)>, at: int)
    requires
        has_distinct_names(agents),
        0 <= at < agents.len(),
    ensures
        agent_named(agents, agents[at].0) == Some(agents[at].1),
    decreases agents.len(),
{
    if at > 0 {
        let rest = agents.drop_first();
        assert(agents[0].0 != agents[at].0);
        assert(rest[at - 1] == agents[at]);
        assert forall|i: int, j: int| 0 <= i < j < rest.len() implies (#[trigger] rest[i]).0 != (
        #[trigger] rest[j]).0 by {
            assert(agents[i + 1].0 != agents[j + 1].0);
        }
        law_agents_are_found(rest, at - 1);
    }
}

/// Why an agent cannot be delegated to, if so. One that uses tools on its own
/// has to be bounded in which.
pub open spec fn agent_error(agents: Seq<(Seq<char>, AgentModel)>, name: Seq<char>) -> Option<
    Seq<char>,
> {
    match agent_named(agents, name) {
        None => Some("Unknown agent '"@ + name + "'"@),
        Some(agent) => if agent.max_depth == 0 {
            Some("Agent '"@ + name + "' must have max_depth > 0"@)
        } else if agent.max_iterations == 0 {
            Some("Agent '"@ + name + "' must have max_iterations > 0"@)
        } else if agent.agentic && agent.allowed_tools.len() == 0 {
            Some(
                "Agent '"@ + name
                    + "' has agentic=true but no allowed_tools, so child sessions would be unbounded"@,
            )
        } else {
            None
        },
    }
}

/// The agent of that name.
pub fn find_agent<'a>(agents: &'a Vec<NamedAgent>, name: &str) -> (r: Option<&'a DelegateAgentConfig>)
    ensures
        match r {
            Some(config) => agent_named(agent_models(agents@), name@) == Some(config@),
            None => agent_named(agent_models(agents@), name@) is None,
        },
{
    let ghost all = agent_models(agents@);
    let mut i: usize = 0;
    assert(all.skip(0) == all);
    while i < agents.len()
        invariant
            i <= agents@.len(),
            all == agent_models(agents@),
            agent_named(all.skip(i as int), name@) == agent_named(all, name@),
        decreases agents@.len() - i,
    {
        assert(all.skip(i as int).first() == all[i as int]);
        assert(all.skip(i as int).drop_first() == all.skip(i + 1));
        if same_text(agents[i].name.as_str(), name) {
            return Some(&agents[i].config);
        }
        i += 1;
    }
    assert(all.skip(i as int).len() == 0);
    None
}

/// A sentence on an agent.
fn about(start: &str, name: &str, rest: &str) -> (r: String)
    ensures
        r@ == start@ + name@ + rest@,
{
    let mut text = start.to_string();
    text.append(name);
    text.append(rest);
    text
}

/// The agent of that name, if it can be delegated to.
pub fn validate_agent<'a>(agents: &'a Vec<NamedAgent>, name: &str) -> (r: Result<
    &'a DelegateAgentConfig,
    String,
>)
    ensures
        match r {
            Ok(config) => agent_error(agent_models(agents@), name@) is None && agent_named(
                agent_models(agents@),
                name@,
            ) == Some(config@),
            Err(message) => agent_error(agent_models(agents@), name@) == Some(message@),
        },
{
    match find_agent(agents, name) {
        None => Err(about("Unknown agent '", name, "'")),
        Some(config) => {
            assert(config@.allowed_tools.len() == config.allowed_tools@.len());
            if config.max_depth == 0 {
                Err(about("Agent '", name, "' must have max_depth > 0"))
            } else if config.max_iterations == 0 {
                Err(about("Agent '", name, "' must have max_iterations > 0"))
            } else if config.agentic && config.allowed_tools.len() == 0 {
                Err(
                    about(
                        "Agent '",
                        name,
                        "' has agentic=true but no allowed_tools, so child sessions would be unbounded",
                    ),
                )
            } else {
                Ok(config)
            }
        },
    }
}

/// An agent that can be delegated to is bounded: in how deep it may delegate,
/// in how often it may go round, and in which tools it may use on its own.
pub proof fn law_delegates_are_bounded(agents: Seq<(Seq<char>, AgentModel)>, name: Seq<char>)
    requires
        agent_error(agents, name) is None,
    ensures
        agent_named(agents, name) matches Some(agent) && {
            &&& agent.max_depth > 0
            &&& agent.max_iterations > 0
            &&& agent.agentic ==> agent.allowed_tools.len() > 0
        },
{
}

} // verus!
