//! The dialogue agent: one user turn runs through an action pass, an optional
//! tool dispatch and a streamed response pass. The agent decides; the caller
//! performs each request it hands out and reports what came back.

use vstd::prelude::*;
use crate::conversation::{render, ChatMessage, Conversation};
use crate::error::AgentError;
use crate::model_client::{
    is_list_param, is_text_param, GuidanceRequest, GuidanceRequestBuilder, GuidanceResponse,
};
use crate::protocol::{reported_action, ActionProtocol};
use crate::server::MessageToClient;
use crate::text::{
    lemma_trim_start_concat, lemma_trim_start_idempotent, replace_all, replace_str, str_eq, trim,
    trim_start, trim_start_str, trim_str,
};
use crate::tools::{lookup_tool, none_action, ToolKind, ToolRegistry};
use crate::vars::{lemma_merge_value, merge_vars, value_or_empty, Variables};

verus! {

/// Prompt texts, resolved once when an agent is built.
pub struct PromptConfig {
    /// Instructions placed at `{{preamble}}` in the chat template.
    pub preamble: String,
    /// The template of the action pass, with `{{preamble}}` and `{{history~}}`.
    pub chat: String,
    /// The template of a recorded assistant turn, with `{{action}}`,
    /// `{{action_input}}` and `{{response}}`.
    pub response: String,
}

/// Where the agent stands within a turn.
#[derive(Debug, Clone, Copy, PartialEq, Eq, Structural)]
pub enum TurnPhase {
    AwaitingInput,
    ActionPending,
    ToolDispatch,
    ResponsePending,
}

/// What follows the action pass.
#[derive(Debug)]
pub enum ToolCall {
    /// No tool was asked for: send `request` as the response pass.
    NoTool { request: GuidanceRequest },
    /// Show `notice`, invoke `tool` with `input`, and report its output.
    Invoke { tool: ToolKind, input: String, notice: MessageToClient },
}

/// The text of an assistant turn: the response template with the action,
/// its argument and the response filled in, each trimmed.
pub open spec fn assistant_text(
    template: Seq<char>,
    action: Seq<char>,
    action_input: Seq<char>,
    response: Seq<char>,
) -> Seq<char> {
    replace_all(
        replace_all(
            replace_all(template, "{{action}}"@, trim(action)),
            "{{action_input}}"@,
            trim(action_input),
        ),
        "{{response}}"@,
        trim(response),
    )
}

/// The template of the action pass for a conversation rendered as `history`.
pub open spec fn action_prompt(chat: Seq<char>, preamble: Seq<char>, history: Seq<char>) -> Seq<char> {
    replace_all(replace_all(chat, "{{preamble}}"@, preamble), "{{history~}}"@, history)
}

/// The assistant turn recorded for a finished turn.
pub fn build_assistant_chat_message(
    template: &str,
    action: &str,
    action_input: &str,
    response: &str,
) -> (r: ChatMessage)
    ensures
        r is Assistant,
        r.text_view() == assistant_text(template@, action@, action_input@, response@),
{
    let a = trim_str(action);
    let ai = trim_str(action_input);
    let resp = trim_str(response);
    let t1 = replace_str(template, "{{action}}", a.as_str());
    let t2 = replace_str(t1.as_str(), "{{action_input}}", ai.as_str());
    let t3 = replace_str(t2.as_str(), "{{response}}", resp.as_str());
    ChatMessage::Assistant(t3)
}

/// The dialogue agent of one session.
pub struct ThoughtActionAgent {
    protocol: ActionProtocol,
    prompts: PromptConfig,
    tools: ToolRegistry,
    conversation: Conversation,
    phase: TurnPhase,
    ongoing: String,
    action: String,
    action_input: String,
    tool_output: String,
    stream_count: usize,
    accumulated: GuidanceResponse,
    forwarded: Ghost<Seq<char>>,
}

impl ThoughtActionAgent {
    pub closed spec fn wf(&self) -> bool {
        let response = value_or_empty(self.accumulated.vars_view(), "response"@);
        &&& self.conversation.wf()
        &&& self.accumulated.wf()
        &&& self.stream_count == 0 ==> self.forwarded@ == Seq::<char>::empty() && response
            == Seq::<char>::empty()
        &&& trim_start(self.forwarded@) == trim_start(response)
    }

    /// The text of every chunk forwarded in this turn, joined in order.
    pub closed spec fn forwarded_text(&self) -> Seq<char> {
        self.forwarded@
    }

    pub closed spec fn phase_view(&self) -> TurnPhase {
        self.phase
    }

    pub closed spec fn turns(&self) -> Seq<ChatMessage> {
        self.conversation.turns()
    }

    /// The metadata recorded for the turn at position `i`.
    pub closed spec fn meta_view(&self, i: int) -> Map<Seq<char>, Seq<char>> {
        self.conversation.meta_view(i)
    }

    pub closed spec fn tools_view(&self) -> Seq<ToolKind> {
        self.tools.tools_view()
    }

    pub closed spec fn protocol_view(&self) -> ActionProtocol {
        self.protocol
    }

    pub closed spec fn preamble_view(&self) -> Seq<char> {
        self.prompts.preamble@
    }

    pub closed spec fn chat_view(&self) -> Seq<char> {
        self.prompts.chat@
    }

    pub closed spec fn response_template_view(&self) -> Seq<char> {
        self.prompts.response@
    }

    /// The transcript of the action pass, resumed by the response pass.
    pub closed spec fn ongoing_view(&self) -> Seq<char> {
        self.ongoing@
    }

    pub closed spec fn action_view(&self) -> Seq<char> {
        self.action@
    }

    pub closed spec fn action_input_view(&self) -> Seq<char> {
        self.action_input@
    }

    pub closed spec fn tool_output_view(&self) -> Seq<char> {
        self.tool_output@
    }

    /// How many response chunks this turn has forwarded.
    pub closed spec fn forwarded_count(&self) -> nat {
        self.stream_count as nat
    }

    pub closed spec fn accumulated_text(&self) -> Seq<char> {
        self.accumulated.text_view()
    }

    pub closed spec fn accumulated_vars(&self) -> Map<Seq<char>, Seq<char>> {
        self.accumulated.vars_view()
    }

    /// An agent whose backend reports actions in variables.
    pub fn new(prompts: PromptConfig) -> (r: ThoughtActionAgent)
        ensures
            r.wf(),
            r.protocol_view() == ActionProtocol::Structured,
            r.phase_view() == TurnPhase::AwaitingInput,
            r.turns() == Seq::<ChatMessage>::empty(),
            r.tools_view() == seq![ToolKind::WebSearch, ToolKind::Noop],
            r.preamble_view() == prompts.preamble@,
            r.chat_view() == prompts.chat@,
            r.response_template_view() == prompts.response@,
    {
        Self::with_protocol(prompts, ActionProtocol::Structured)
    }

    /// An agent whose backend reports actions under `protocol`.
    pub fn with_protocol(prompts: PromptConfig, protocol: ActionProtocol) -> (r: ThoughtActionAgent)
        ensures
            r.wf(),
            r.protocol_view() == protocol,
            r.phase_view() == TurnPhase::AwaitingInput,
            r.turns() == Seq::<ChatMessage>::empty(),
            r.tools_view() == seq![ToolKind::WebSearch, ToolKind::Noop],
            r.preamble_view() == prompts.preamble@,
            r.chat_view() == prompts.chat@,
            r.response_template_view() == prompts.response@,
    {
        ThoughtActionAgent {
            protocol,
            prompts,
            tools: ToolRegistry::standard(),
            conversation: Conversation::new(),
            phase: TurnPhase::AwaitingInput,
            ongoing: String::new(),
            action: String::new(),
            action_input: String::new(),
            tool_output: String::new(),
            stream_count: 0,
            accumulated: GuidanceResponse::new(),
            forwarded: Ghost(Seq::empty()),
        }
    }

    pub fn phase(&self) -> (r: TurnPhase)
        ensures
            r == self.phase_view(),
    {
        self.phase
    }

    pub fn conversation(&self) -> (r: &Conversation)
        ensures
            r.turns() == self.turns(),
            forall|i: int| 0 <= i < self.turns().len() ==> #[trigger] r.meta_view(i) == self.meta_view(i),
            self.wf() ==> r.wf(),
    {
        &self.conversation
    }

    /// Abandons the current turn, whatever its phase; recorded turns stay.
    pub fn abort_turn(&mut self)
        requires
            old(self).wf(),
        ensures
            final(self).wf(),
            final(self).phase_view() == TurnPhase::AwaitingInput,
            final(self).turns() == old(self).turns(),
            final(self).tools_view() == old(self).tools_view(),
            final(self).protocol_view() == old(self).protocol_view(),
            final(self).chat_view() == old(self).chat_view(),
            final(self).preamble_view() == old(self).preamble_view(),
            final(self).response_template_view() == old(self).response_template_view(),
            forall|i: int| 0 <= i < old(self).turns().len() ==> #[trigger] final(self).meta_view(i) == old(self).meta_view(i),
    {
        self.phase = TurnPhase::AwaitingInput;
    }

    /// Takes the user's message: records it as a user turn and hands back the
    /// request of the action pass, whose parameters are the raw message and
    /// the names of the valid actions.
    pub fn start_turn(&mut self, message: &str) -> (r: GuidanceRequest)
        requires
            old(self).wf(),
            old(self).phase_view() == TurnPhase::AwaitingInput,
        ensures
            final(self).wf(),
            final(self).phase_view() == TurnPhase::ActionPending,
            final(self).turns().len() == old(self).turns().len() + 1,
            final(self).turns().drop_last() == old(self).turns(),
            final(self).turns().last() is User,
            final(self).turns().last().text_view() == message@,
            final(self).tools_view() == old(self).tools_view(),
            final(self).protocol_view() == old(self).protocol_view(),
            final(self).chat_view() == old(self).chat_view(),
            final(self).preamble_view() == old(self).preamble_view(),
            final(self).response_template_view() == old(self).response_template_view(),
            r.template_view() == action_prompt(
                old(self).chat_view(),
                old(self).preamble_view(),
                render(final(self).turns()),
            ),
            r.params_view().dom() == set!["user_input"@, "valid_actions"@],
            is_text_param(r.params_view(), "user_input"@, message@),
            is_list_param(
                r.params_view(),
                "valid_actions"@,
                old(self).tools_view().map_values(|t: ToolKind| t.spec_name()),
            ),
    {
        self.conversation.add_message(ChatMessage::User(message.to_owned()));
        assert(self.conversation.turns().drop_last() =~= old(self).conversation.turns());
        let with_preamble = replace_str(
            self.prompts.chat.as_str(),
            "{{preamble}}",
            self.prompts.preamble.as_str(),
        );
        let history = self.conversation.build_history();
        let prompt = replace_str(with_preamble.as_str(), "{{history~}}", history.as_str());
        let actions = self.tools.valid_actions();
        let text = message.to_owned();
        let ghost text_value = text;
        let request = GuidanceRequestBuilder::new(prompt).with_parameter(
            "user_input".to_owned(),
            text,
        ).with_parameter_list("valid_actions".to_owned(), actions).build();
        proof {
            reveal_strlit("user_input");
            reveal_strlit("valid_actions");
            assert("user_input"@.len() != "valid_actions"@.len());
            assert("user_input"@ != "valid_actions"@);
            assert(request.params_view()["user_input"@] == crate::model_client::ParamValue::Text(
                text_value,
            ));
            assert(request.params_view().dom() =~= set!["user_input"@, "valid_actions"@]);
        }
        self.phase = TurnPhase::ActionPending;
        self.stream_count = 0;
        self.accumulated = GuidanceResponse::new();
        self.forwarded = Ghost(Seq::empty());
        request
    }

    /// Takes the result of the action pass. A result that reports no action
    /// under the agent's protocol aborts the turn, as does an action that names
    /// no registered tool. The action `NONE` needs no tool: its output is empty
    /// and the response pass follows at once. Any other action is resolved to
    /// its tool, to be invoked with the argument.
    pub fn on_action_response(&mut self, output: GuidanceResponse) -> (r: Result<ToolCall, AgentError>)
        requires
            old(self).wf(),
            old(self).phase_view() == TurnPhase::ActionPending,
            output.wf(),
        ensures
            final(self).wf(),
            final(self).turns() == old(self).turns(),
            final(self).tools_view() == old(self).tools_view(),
            final(self).protocol_view() == old(self).protocol_view(),
            final(self).chat_view() == old(self).chat_view(),
            final(self).preamble_view() == old(self).preamble_view(),
            final(self).response_template_view() == old(self).response_template_view(),
            final(self).forwarded_count() == 0,
            final(self).accumulated_text() == Seq::<char>::empty(),
            final(self).accumulated_vars() == Map::<Seq<char>, Seq<char>>::empty(),
            forall|i: int| 0 <= i < old(self).turns().len() ==> #[trigger] final(self).meta_view(i) == old(self).meta_view(i),
            match reported_action(old(self).protocol_view(), output.text_view(), output.vars_view()) {
                None => {
                    &&& final(self).phase_view() == TurnPhase::AwaitingInput
                    &&& r matches Err(AgentError::ProtocolViolation(_))
                },
                Some((action, input)) => {
                    &&& final(self).action_view() == action
                    &&& final(self).action_input_view() == input
                    &&& final(self).ongoing_view() == output.text_view()
                    &&& if action == none_action() {
                        &&& final(self).phase_view() == TurnPhase::ResponsePending
                        &&& final(self).tool_output_view() == Seq::<char>::empty()
                        &&& match r {
                            Ok(ToolCall::NoTool { request }) => request.template_view()
                                == output.text_view() && request.params_view().dom() == set![
                                "output"@,
                            ] && is_text_param(request.params_view(), "output"@, Seq::empty()),
                            _ => false,
                        }
                    } else {
                        match lookup_tool(old(self).tools_view(), action) {
                            Some(t) => {
                                &&& final(self).phase_view() == TurnPhase::ToolDispatch
                                &&& match r {
                                    Ok(ToolCall::Invoke { tool, input: arg, notice }) => tool == t
                                        && arg@ == input && notice.event@ == Seq::<char>::empty()
                                        && notice.text@ == "Searching: "@ + input
                                        && notice.message_num == 0,
                                    _ => false,
                                }
                            },
                            None => {
                                &&& final(self).phase_view() == TurnPhase::AwaitingInput
                                &&& r matches Err(AgentError::UnknownTool(_))
                            },
                        }
                    }
                },
            },
    {
        self.accumulated = GuidanceResponse::new();
        self.stream_count = 0;
        self.forwarded = Ghost(Seq::empty());
        let (action, input) = match self.protocol.extract_action(&output) {
            Ok(pair) => pair,
            Err(e) => {
                self.phase = TurnPhase::AwaitingInput;
                return Err(e);
            },
        };
        self.ongoing = output.text().to_owned();
        self.action = action;
        self.action_input = input;
        if str_eq(self.action.as_str(), "NONE") {
            self.tool_output = String::new();
            self.phase = TurnPhase::ResponsePending;
            let request = GuidanceRequestBuilder::new(self.ongoing.clone()).with_parameter(
                "output".to_owned(),
                String::new(),
            ).build();
            proof {
                reveal_strlit("output");
                assert(request.params_view().dom() =~= set!["output"@]);
            }
            return Ok(ToolCall::NoTool { request });
        }
        match self.tools.select_tool(self.action.as_str()) {
            Ok(tool) => {
                let mut text = String::new();
                text.append("Searching: ");
                text.append(self.action_input.as_str());
                let notice = MessageToClient::new(String::new(), text, 0);
                self.phase = TurnPhase::ToolDispatch;
                Ok(ToolCall::Invoke { tool, input: self.action_input.clone(), notice })
            },
            Err(e) => {
                self.phase = TurnPhase::AwaitingInput;
                Err(e)
            },
        }
    }

    /// Takes the invoked tool's output and hands back the request of the
    /// response pass: the action pass's transcript with the output as parameter.
    pub fn on_tool_output(&mut self, tool_output: String) -> (r: GuidanceRequest)
        requires
            old(self).wf(),
            old(self).phase_view() == TurnPhase::ToolDispatch,
        ensures
            final(self).wf(),
            final(self).phase_view() == TurnPhase::ResponsePending,
            final(self).turns() == old(self).turns(),
            final(self).tools_view() == old(self).tools_view(),
            final(self).protocol_view() == old(self).protocol_view(),
            final(self).response_template_view() == old(self).response_template_view(),
            final(self).chat_view() == old(self).chat_view(),
            final(self).preamble_view() == old(self).preamble_view(),
            final(self).action_view() == old(self).action_view(),
            final(self).action_input_view() == old(self).action_input_view(),
            final(self).ongoing_view() == old(self).ongoing_view(),
            final(self).tool_output_view() == tool_output@,
            final(self).forwarded_count() == old(self).forwarded_count(),
            final(self).accumulated_text() == old(self).accumulated_text(),
            final(self).accumulated_vars() == old(self).accumulated_vars(),
            forall|i: int| 0 <= i < old(self).turns().len() ==> #[trigger] final(self).meta_view(i) == old(self).meta_view(i),
            r.template_view() == old(self).ongoing_view(),
            r.params_view().dom() == set!["output"@],
            is_text_param(r.params_view(), "output"@, tool_output@),
    {
        let request = GuidanceRequestBuilder::new(self.ongoing.clone()).with_parameter(
            "output".to_owned(),
            tool_output.clone(),
        ).build();
        proof {
            reveal_strlit("output");
            assert(request.params_view().dom() =~= set!["output"@]);
        }
        self.tool_output = tool_output;
        self.phase = TurnPhase::ResponsePending;
        request
    }

    /// Takes one delta of the response pass. A non-empty `response` variable
    /// is forwarded as the next chunk, the first with its leading whitespace
    /// trimmed; every delta is merged into the accumulated response.
    pub fn on_delta(&mut self, delta: GuidanceResponse) -> (r: Option<MessageToClient>)
        requires
            old(self).wf(),
            old(self).phase_view() == TurnPhase::ResponsePending,
            delta.wf(),
        ensures
            final(self).wf(),
            final(self).phase_view() == TurnPhase::ResponsePending,
            final(self).turns() == old(self).turns(),
            final(self).tools_view() == old(self).tools_view(),
            final(self).protocol_view() == old(self).protocol_view(),
            final(self).response_template_view() == old(self).response_template_view(),
            final(self).chat_view() == old(self).chat_view(),
            final(self).preamble_view() == old(self).preamble_view(),
            final(self).action_view() == old(self).action_view(),
            final(self).action_input_view() == old(self).action_input_view(),
            final(self).ongoing_view() == old(self).ongoing_view(),
            final(self).tool_output_view() == old(self).tool_output_view(),
            forall|i: int| 0 <= i < old(self).turns().len() ==> #[trigger] final(self).meta_view(i) == old(self).meta_view(i),
            final(self).accumulated_text() == old(self).accumulated_text() + delta.text_view(),
            final(self).accumulated_vars() == merge_vars(old(self).accumulated_vars(), delta.vars_view()),
            final(self).forwarded_text() == old(self).forwarded_text() + match r {
                Some(m) => m.text@,
                None => Seq::<char>::empty(),
            },
            ({
                let v = value_or_empty(delta.vars_view(), "response"@);
                if v.len() > 0 {
                    &&& final(self).forwarded_count() == if old(self).forwarded_count() < usize::MAX {
                        old(self).forwarded_count() + 1
                    } else {
                        old(self).forwarded_count()
                    }
                    &&& match r {
                        Some(m) => m.event@ == Seq::<char>::empty() && m.message_num
                            == old(self).forwarded_count() && m.text@ == if old(self).forwarded_count()
                            == 0 {
                            trim_start(v)
                        } else {
                            v
                        },
                        None => false,
                    }
                } else {
                    &&& final(self).forwarded_count() == old(self).forwarded_count()
                    &&& r is None
                }
            }),
    {
        let forwarded = match delta.variable("response") {
            Some(v) => {
                if v.unicode_len() > 0 {
                    let text = if self.stream_count == 0 {
                        trim_start_str(v)
                    } else {
                        v.to_owned()
                    };
                    let m = MessageToClient::new(String::new(), text, self.stream_count);
                    if self.stream_count < usize::MAX {
                        self.stream_count = self.stream_count + 1;
                    }
                    Some(m)
                } else {
                    None
                }
            },
            None => None,
        };
        let ghost v = value_or_empty(delta.vars_view(), "response"@);
        let ghost acc = value_or_empty(self.accumulated.vars_view(), "response"@);
        let ghost before = self.forwarded@;
        let ghost sent = match &forwarded {
            Some(m) => m.text@,
            None => Seq::<char>::empty(),
        };
        self.accumulated.apply_delta(delta);
        self.forwarded = Ghost(before + sent);
        proof {
            lemma_merge_value(old(self).accumulated.vars_view(), delta.vars_view(), "response"@);
            let now = value_or_empty(self.accumulated.vars_view(), "response"@);
            assert(now == acc + v);
            if v.len() == 0 {
                assert(sent =~= Seq::<char>::empty());
                assert(before + sent =~= before);
                assert(acc + v =~= acc);
            } else if old(self).stream_count == 0 {
                assert(before + sent =~= trim_start(v));
                assert(acc + v =~= v);
                lemma_trim_start_idempotent(v);
            } else {
                assert(sent == v);
                lemma_trim_start_concat(before, v);
                lemma_trim_start_concat(acc, v);
            }
        }
        forwarded
    }

    /// The chunks forwarded in a turn, joined and trimmed, are the accumulated
    /// `response` variable, trimmed.
    pub proof fn lemma_forwarded_is_response(&self)
        requires
            self.wf(),
        ensures
            trim(self.forwarded_text()) == trim(value_or_empty(self.accumulated_vars(), "response"@)),
    {
    }

    /// Ends the turn once the response stream is exhausted. The accumulated
    /// `response` variable, missing, aborts the turn; present, it is recorded
    /// as an assistant turn whose metadata holds the action, its argument, the
    /// tool name and the tool output. A non-empty tool output is handed back
    /// as a tool-info notice.
    pub fn finish_turn(&mut self) -> (r: Result<Option<MessageToClient>, AgentError>)
        requires
            old(self).wf(),
            old(self).phase_view() == TurnPhase::ResponsePending,
        ensures
            final(self).wf(),
            final(self).phase_view() == TurnPhase::AwaitingInput,
            final(self).tools_view() == old(self).tools_view(),
            final(self).protocol_view() == old(self).protocol_view(),
            final(self).response_template_view() == old(self).response_template_view(),
            final(self).chat_view() == old(self).chat_view(),
            final(self).preamble_view() == old(self).preamble_view(),
            forall|i: int| 0 <= i < old(self).turns().len() ==> #[trigger] final(self).meta_view(i) == old(self).meta_view(i),
            if !old(self).accumulated_vars().contains_key("response"@) {
                &&& final(self).turns() == old(self).turns()
                &&& r matches Err(AgentError::ProtocolViolation(_))
            } else {
                let n = old(self).turns().len() as int;
                &&& final(self).turns().len() == n + 1
                &&& final(self).turns().drop_last() == old(self).turns()
                &&& final(self).turns().last() is Assistant
                &&& final(self).turns().last().text_view() == assistant_text(
                    old(self).response_template_view(),
                    old(self).action_view(),
                    old(self).action_input_view(),
                    old(self).accumulated_vars()["response"@],
                )
                &&& final(self).meta_view(n) == Map::<Seq<char>, Seq<char>>::empty().insert(
                    "action"@,
                    old(self).action_view(),
                ).insert("action_input"@, old(self).action_input_view()).insert(
                    "tool_name"@,
                    old(self).action_view(),
                ).insert("tool_output"@, old(self).tool_output_view())
                &&& match r {
                    Ok(Some(m)) => old(self).tool_output_view().len() > 0 && m.event@ == "ToolInfo"@
                        && m.text@ == old(self).tool_output_view() && m.message_num == 0,
                    Ok(None) => old(self).tool_output_view().len() == 0,
                    Err(_) => false,
                }
            },
    {
        self.phase = TurnPhase::AwaitingInput;
        let response = match self.accumulated.expect_variable("response") {
            Ok(t) => t.to_owned(),
            Err(e) => {
                return Err(e);
            },
        };
        let info = if self.tool_output.as_str().unicode_len() > 0 {
            Some(MessageToClient::new("ToolInfo".to_owned(), self.tool_output.clone(), 0))
        } else {
            None
        };
        let message = build_assistant_chat_message(
            self.prompts.response.as_str(),
            self.action.as_str(),
            self.action_input.as_str(),
            response.as_str(),
        );
        let mut metadata = Variables::new();
        metadata.insert("action".to_owned(), self.action.clone());
        metadata.insert("action_input".to_owned(), self.action_input.clone());
        metadata.insert("tool_name".to_owned(), self.action.clone());
        metadata.insert("tool_output".to_owned(), self.tool_output.clone());
        self.conversation.add_message_with_metadata(message, metadata);
        assert(self.conversation.turns().drop_last() =~= old(self).conversation.turns());
        Ok(info)
    }
}

} // verus!
