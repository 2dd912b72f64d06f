//! The marker-delimited protocol: the backend writes `<thought>…</thought>`,
//! `<action>NAME(argument)</action` and, after the tool's output has been fed
//! back, `<response>…</response`.

use vstd::prelude::*;
use crate::conversation::{keeps_earlier_turns, Conversation};
use crate::error::AgentError;
use crate::text::{
    after_first, before_first, chars_of, ends_with, find_in, first_piece,
    first_piece_bounds, has_suffix, str_eq, trim, trim_bounds,
};
use crate::tools::{lookup_tool, none_action, ToolKind, ToolRegistry};

verus! {

/// Whether the backend should go on generating after a step of the protocol.
#[derive(Debug, Copy, Clone, PartialEq, Eq, Structural)]
pub enum NextStep {
    KeepPredicting,
    StopPredicting,
}

/// The tool name of an action `NAME(argument)`: the trimmed text before the first `(`.
pub open spec fn tool_name_of(action: Seq<char>) -> Seq<char> {
    trim(before_first(trim(action), "("@))
}

/// `r` without one closing parenthesis at its end.
pub open spec fn strip_close_paren(r: Seq<char>) -> Seq<char> {
    if r.len() > 0 && r.last() == ')' {
        r.drop_last()
    } else {
        r
    }
}

/// The argument of an action `NAME(argument)`: what follows the first `(`,
/// trimmed, without a closing `)`, trimmed again. `NONE` takes no argument.
pub open spec fn tool_input_of(action: Seq<char>) -> Seq<char> {
    if tool_name_of(action) == none_action() {
        Seq::empty()
    } else {
        match after_first(trim(action), "("@) {
            None => Seq::empty(),
            Some(rest) => trim(strip_close_paren(trim(rest))),
        }
    }
}

/// The thought of a marked text: the first non-empty piece, split at `<thought>`,
/// of what precedes the first `</thought>`, trimmed.
pub open spec fn thought_of(text: Seq<char>) -> Seq<char> {
    match first_piece(before_first(trim(text), "</thought>"@), "<thought>"@) {
        Some(p) => trim(p),
        None => Seq::empty(),
    }
}

/// The action of a marked text: after the first `<action>`, the first non-empty
/// piece split at `<action>`, then its first non-empty piece split at
/// `</action`, trimmed.
pub open spec fn action_of(text: Seq<char>) -> Seq<char> {
    match after_first(trim(text), "<action>"@) {
        None => Seq::empty(),
        Some(rest) => match first_piece(rest, "<action>"@) {
            None => Seq::empty(),
            Some(seg) => match first_piece(seg, "</action"@) {
                None => Seq::empty(),
                Some(p) => trim(p),
            },
        },
    }
}

/// Splits an action `NAME(argument)` into its tool name and argument.
pub fn extract_tool_and_input(text: &str) -> (r: (String, String))
    ensures
        r.0@ == tool_name_of(text@),
        r.1@ == tool_input_of(text@),
{
    let v = chars_of(text);
    let n = v.len();
    let open = chars_of("(");
    let (a, b) = trim_bounds(&v, 0, n);
    assert(v@.subrange(0, n as int) =~= v@);
    let ghost t = v@.subrange(a as int, b as int);
    let found = find_in(&v, a, b, &open);
    let name_end: usize = match found {
        Some(i) => i,
        None => b,
    };
    assert(t.subrange(0, name_end - a) =~= v@.subrange(a as int, name_end as int));
    let (na, nb) = trim_bounds(&v, a, name_end);
    let tool = text.substring_char(na, nb).to_owned();
    if str_eq(tool.as_str(), "NONE") {
        return (tool, String::new());
    }
    match found {
        None => (tool, String::new()),
        Some(i) => {
            assert(t.subrange(i + open.len() - a, t.len() as int) =~= v@.subrange(
                i + open.len(),
                b as int,
            ));
            let (c, d) = trim_bounds(&v, i + open.len(), b);
            let e: usize = if d > c && v[d - 1] == ')' {
                assert(v@.subrange(c as int, d as int).drop_last() =~= v@.subrange(
                    c as int,
                    d - 1,
                ));
                d - 1
            } else {
                d
            };
            let (x, y) = trim_bounds(&v, c, e);
            let input = text.substring_char(x, y).to_owned();
            (tool, input)
        },
    }
}

/// Extracts the thought and the action of a marked text; each is empty when absent.
pub fn extract_thought_action(text: &str) -> (r: (String, String))
    ensures
        r.0@ == thought_of(text@),
        r.1@ == action_of(text@),
{
    let v = chars_of(text);
    let n = v.len();
    let (a, b) = trim_bounds(&v, 0, n);
    assert(v@.subrange(0, n as int) =~= v@);
    let ghost t = v@.subrange(a as int, b as int);

    let thought_close = chars_of("</thought>");
    let thought_open = chars_of("<thought>");
    let head_end: usize = match find_in(&v, a, b, &thought_close) {
        Some(i) => i,
        None => b,
    };
    assert(t.subrange(0, head_end - a) =~= v@.subrange(a as int, head_end as int));
    let thought = match first_piece_bounds(&v, a, head_end, &thought_open) {
        Some((c, d)) => {
            let (x, y) = trim_bounds(&v, c, d);
            text.substring_char(x, y).to_owned()
        },
        None => String::new(),
    };

    let action_open = chars_of("<action>");
    let action_close = chars_of("</action");
    let action = match find_in(&v, a, b, &action_open) {
        None => String::new(),
        Some(i) => {
            let start = i + action_open.len();
            assert(t.subrange(start - a, t.len() as int) =~= v@.subrange(start as int, b as int));
            match first_piece_bounds(&v, start, b, &action_open) {
                None => String::new(),
                Some((c, d)) => match first_piece_bounds(&v, c, d, &action_close) {
                    None => String::new(),
                    Some((e, f)) => {
                        let (x, y) = trim_bounds(&v, e, f);
                        text.substring_char(x, y).to_owned()
                    },
                },
            }
        },
    };
    (thought, action)
}

/// The marker that ends a finished transcript.
pub open spec fn eos_marker() -> Seq<char> {
    "</s>"@
}

/// What the protocol does next with the last assistant turn.
#[derive(Debug)]
pub enum MarkerAction {
    /// The turn ends in `</action`: invoke `tool` with `input`, then call
    /// [`ActionThought::complete_tool_call`] with its output.
    InvokeTool { tool: ToolKind, tool_name: String, input: String },
    /// The turn is closed; `tool_info` is the tool output to show, if a
    /// non-empty one was recorded.
    Stop { tool_info: Option<String> },
}

/// The marker-delimited protocol over the registered tools.
pub struct ActionThought {
    tools: ToolRegistry,
}

impl ActionThought {
    pub closed spec fn tools_view(&self) -> Seq<ToolKind> {
        self.tools.tools_view()
    }

    pub fn new() -> (r: ActionThought)
        ensures
            r.tools_view() == seq![ToolKind::WebSearch, ToolKind::Noop],
    {
        ActionThought { tools: ToolRegistry::standard() }
    }

    /// The registered tool named `name`.
    pub fn select_tool(&self, name: &str) -> (r: Result<ToolKind, AgentError>)
        ensures
            match lookup_tool(self.tools_view(), name@) {
                Some(t) => r == Ok::<ToolKind, AgentError>(t),
                None => match r {
                    Err(AgentError::UnknownTool(n)) => n@ == name@,
                    _ => false,
                },
            },
    {
        self.tools.select_tool(name)
    }

    /// Inspects the last turn, an assistant turn. Ending in `</action`, it asks
    /// for the tool that its action names; ending in `</response`, it is closed
    /// with `>` and the end marker and the recorded tool output is handed back;
    /// otherwise it is closed with the end marker.
    pub fn handle_assistant_message(&self, conversation: &mut Conversation) -> (r: Result<
        MarkerAction,
        AgentError,
    >)
        requires
            old(conversation).wf(),
            old(conversation).turns().len() > 0,
            old(conversation).turns().last() is Assistant,
        ensures
            final(conversation).wf(),
            keeps_earlier_turns(old(conversation), final(conversation)),
            final(conversation).turns().last() is Assistant,
            final(conversation).meta_view(old(conversation).turns().len() - 1) == old(
                conversation,
            ).meta_view(old(conversation).turns().len() - 1),
            ({
                let last = old(conversation).turns().last().text_view();
                let action = action_of(last);
                let name = tool_name_of(action);
                if has_suffix(last, "</action"@) {
                    &&& *final(conversation) == *old(conversation)
                    &&& match lookup_tool(self.tools_view(), name) {
                        Some(t) => match r {
                            Ok(MarkerAction::InvokeTool { tool, tool_name, input }) => tool == t
                                && tool_name@ == name && input@ == tool_input_of(action),
                            _ => false,
                        },
                        None => match r {
                            Err(AgentError::UnknownTool(n)) => n@ == name,
                            _ => false,
                        },
                    }
                } else if has_suffix(last, "</response"@) {
                    &&& final(conversation).turns().last().text_view() == last + ">"@
                        + eos_marker()
                    &&& match r {
                        Ok(MarkerAction::Stop { tool_info }) => {
                            let meta = old(conversation).meta_view(
                                old(conversation).turns().len() - 1,
                            );
                            match tool_info {
                                Some(info) => meta.contains_key("tool_output"@) && info@
                                    == meta["tool_output"@] && info@.len() > 0,
                                None => !meta.contains_key("tool_output"@)
                                    || meta["tool_output"@].len() == 0,
                            }
                        },
                        _ => false,
                    }
                } else {
                    &&& final(conversation).turns().last().text_view() == last + eos_marker()
                    &&& r matches Ok(MarkerAction::Stop { tool_info: None })
                }
            }),
    {
        let n = conversation.len();
        let last = conversation.messages()[n - 1].text().to_owned();
        if ends_with(last.as_str(), "</action") {
            let (_thought, action) = extract_thought_action(last.as_str());
            let (tool_name, input) = extract_tool_and_input(action.as_str());
            let tool = self.select_tool(tool_name.as_str())?;
            Ok(MarkerAction::InvokeTool { tool, tool_name, input })
        } else if ends_with(last.as_str(), "</response") {
            conversation.append_to_last(">");
            conversation.append_to_last("</s>");
            let info = match conversation.metadata(n - 1).get("tool_output") {
                Some(t) => if t.as_str().unicode_len() > 0 {
                    Some(t.clone())
                } else {
                    None
                },
                None => None,
            };
            Ok(MarkerAction::Stop { tool_info: info })
        } else {
            conversation.append_to_last("</s>");
            Ok(MarkerAction::Stop { tool_info: None })
        }
    }

    /// Records the output of the tool that the last assistant turn asked for,
    /// and resumes that turn with the output block and an opening `<response>`.
    pub fn complete_tool_call(
        &self,
        conversation: &mut Conversation,
        tool_name: &str,
        tool_output: &str,
    ) -> (r: NextStep)
        requires
            old(conversation).wf(),
            old(conversation).turns().len() > 0,
            old(conversation).turns().last() is Assistant,
        ensures
            r == NextStep::KeepPredicting,
            final(conversation).wf(),
            keeps_earlier_turns(old(conversation), final(conversation)),
            final(conversation).turns().last() is Assistant,
            final(conversation).turns().last().text_view() == old(conversation).turns().last().text_view()
                + ">\n<output>\n"@ + tool_output@ + "\n</output>\n<response>"@,
            final(conversation).meta_view(old(conversation).turns().len() - 1) == old(conversation).meta_view(
                old(conversation).turns().len() - 1,
            ).insert("tool_output"@, tool_output@).insert("tool_name"@, tool_name@),
    {
        let n = conversation.len();
        conversation.set_metadata(n - 1, "tool_output".to_owned(), tool_output.to_owned());
        conversation.set_metadata(n - 1, "tool_name".to_owned(), tool_name.to_owned());
        conversation.append_to_last(">\n<output>\n");
        conversation.append_to_last(tool_output);
        conversation.append_to_last("\n</output>\n<response>");
        NextStep::KeepPredicting
    }
}

} // verus!
