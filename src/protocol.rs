//! The two ways a backend can report the action it chose, behind one interface.

use vstd::prelude::*;
use crate::action_thought::{
    action_of, extract_thought_action, extract_tool_and_input, tool_input_of, tool_name_of,
};
use crate::error::AgentError;
use crate::model_client::GuidanceResponse;
use crate::text::{ends_with, has_suffix, trim, trim_str};

verus! {

/// How the backend reports the action it chose.
#[derive(Debug, Clone, Copy, PartialEq, Eq, Structural)]
pub enum ActionProtocol {
    /// In the variables `action` and `action_input`.
    Structured,
    /// In the generated text, as `<action>NAME(argument)</action`, the text
    /// stopping at that partial closing tag.
    Marked,
}

/// The action and its argument that a response reports under `protocol`, if it
/// reports one.
pub open spec fn reported_action(
    protocol: ActionProtocol,
    text: Seq<char>,
    vars: Map<Seq<char>, Seq<char>>,
) -> Option<(Seq<char>, Seq<char>)> {
    match protocol {
        ActionProtocol::Structured => if vars.contains_key("action"@) && vars.contains_key(
            "action_input"@,
        ) {
            Some((trim(vars["action"@]), trim(vars["action_input"@])))
        } else {
            None
        },
        ActionProtocol::Marked => if has_suffix(text, "</action"@) {
            Some((tool_name_of(action_of(text)), tool_input_of(action_of(text))))
        } else {
            None
        },
    }
}

impl ActionProtocol {
    /// The action and argument that `response` reports; a response that
    /// reports none violates the protocol.
    pub fn extract_action(&self, response: &GuidanceResponse) -> (r: Result<(String, String), AgentError>)
        requires
            response.wf(),
        ensures
            match reported_action(*self, response.text_view(), response.vars_view()) {
                Some((action, input)) => match r {
                    Ok((a, i)) => a@ == action && i@ == input,
                    Err(_) => false,
                },
                None => r matches Err(AgentError::ProtocolViolation(_)),
            },
    {
        match self {
            ActionProtocol::Structured => {
                let action = match response.expect_variable("action") {
                    Ok(a) => trim_str(a),
                    Err(e) => {
                        return Err(e);
                    },
                };
                let input = match response.expect_variable("action_input") {
                    Ok(a) => trim_str(a),
                    Err(e) => {
                        return Err(e);
                    },
                };
                Ok((action, input))
            },
            ActionProtocol::Marked => {
                if !ends_with(response.text(), "</action") {
                    return Err(AgentError::ProtocolViolation("action".to_owned()));
                }
                let (_thought, action) = extract_thought_action(response.text());
                let (tool, input) = extract_tool_and_input(action.as_str());
                Ok((tool, input))
            },
        }
    }
}

} // verus!
