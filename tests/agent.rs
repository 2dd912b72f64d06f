use rainchain::conversation::ChatMessage;
use rainchain::error::AgentError;
use rainchain::intent_detector::{Intent, IntentDetector};
use rainchain::model_client::{GuidanceResponse, ParamValue};
use rainchain::protocol::ActionProtocol;
use rainchain::server::{MessageFromClient, MessageToClient};
use rainchain::thought_action_agent::{
    build_assistant_chat_message, PromptConfig, ThoughtActionAgent, ToolCall, TurnPhase,
};
use rainchain::tools::ToolKind;
use rainchain::vars::Variables;
use rainchain::web_search::{rank_sections, synthesize};

fn prompts() -> PromptConfig {
    PromptConfig {
        preamble: "Be brief.".to_string(),
        chat: "{{preamble}}|{{history~}}|".to_string(),
        response: "<action>{{action}}</action><input>{{action_input}}</input>{{response}}".to_string(),
    }
}

fn response(text: &str, vars: &[(&str, &str)]) -> GuidanceResponse {
    let mut v = Variables::new();
    for (k, val) in vars {
        v.insert(k.to_string(), val.to_string());
    }
    GuidanceResponse::from_parts(text.to_string(), v)
}

fn text_param<'a>(params: &'a [(String, ParamValue)], key: &str) -> Option<&'a str> {
    params.iter().rev().find(|(k, _)| k == key).and_then(|(_, v)| match v {
        ParamValue::Text(s) => Some(s.as_str()),
        _ => None,
    })
}

#[test]
fn end_to_end_turn_with_web_search() {
    let mut agent = ThoughtActionAgent::new(prompts());
    let request = agent.start_turn("find the cheapest flight to Rome");
    assert_eq!(agent.phase(), TurnPhase::ActionPending);
    assert_eq!(
        request.template(),
        "Be brief.|{{~#user~}}find the cheapest flight to Rome{{~/user}}|"
    );
    assert_eq!(
        text_param(request.parameters(), "user_input"),
        Some("find the cheapest flight to Rome")
    );

    let pass1 = response(
        "transcript so far",
        &[("action", "WEB_SEARCH"), ("action_input", "cheapest flight to Rome")],
    );
    let input = match agent.on_action_response(pass1).unwrap() {
        ToolCall::Invoke { tool, input, notice } => {
            assert_eq!(tool, ToolKind::WebSearch);
            assert_eq!(notice.text, "Searching: cheapest flight to Rome");
            input
        }
        other => panic!("unexpected {:?}", other),
    };
    assert_eq!(input, "cheapest flight to Rome");
    assert_eq!(agent.phase(), TurnPhase::ToolDispatch);

    let sections: Vec<String> = vec!["Fly from Milan.", "Book early.", "Avoid August.", "Other."]
        .into_iter()
        .map(String::from)
        .collect();
    let ranked = rank_sections(&vec![(0, 50), (1, 90), (2, 70), (3, 10)], 3);
    let evidence = synthesize(&sections, &ranked).unwrap();
    assert_eq!(evidence.lines().count(), 3);

    let request = agent.on_tool_output(evidence.clone());
    assert_eq!(request.template(), "transcript so far");
    assert_eq!(text_param(request.parameters(), "output"), Some(evidence.as_str()));

    let deltas = vec![
        response("a", &[("response", "  The cheapest")]),
        response("b", &[]),
        response("c", &[("response", "")]),
        response("d", &[("response", " flight is in March.")]),
    ];
    let mut chunks: Vec<MessageToClient> = Vec::new();
    for d in deltas {
        if let Some(m) = agent.on_delta(d) {
            chunks.push(m);
        }
    }
    assert_eq!(chunks.len(), 2);
    assert!(chunks.iter().all(|c| !c.text.is_empty()));
    assert_eq!(chunks[0].message_num, 0);
    assert_eq!(chunks[1].message_num, 1);
    let joined: String = chunks.iter().map(|c| c.text.as_str()).collect();
    assert_eq!(joined.trim(), "The cheapest flight is in March.");

    let info = agent.finish_turn().unwrap().expect("tool info");
    assert_eq!(info.event, "ToolInfo");
    assert_eq!(info.text, evidence);
    assert_eq!(agent.phase(), TurnPhase::AwaitingInput);

    let conversation = agent.conversation();
    assert_eq!(conversation.len(), 2);
    let last = &conversation.messages()[1];
    assert!(last.is_assistant());
    assert_eq!(
        last.text(),
        "<action>WEB_SEARCH</action><input>cheapest flight to Rome</input>The cheapest flight is in March."
    );
    assert_eq!(conversation.metadata(1).get("tool_name").unwrap(), "WEB_SEARCH");
    assert_eq!(conversation.metadata(1).get("tool_output").unwrap(), &evidence);
}

#[test]
fn none_action_dispatches_no_tool() {
    let mut agent = ThoughtActionAgent::new(prompts());
    agent.start_turn("hello");
    let pass1 = response("t", &[("action", " NONE "), ("action_input", "")]);
    match agent.on_action_response(pass1).unwrap() {
        ToolCall::NoTool { request } => {
            assert_eq!(request.template(), "t");
            assert_eq!(text_param(request.parameters(), "output"), Some(""));
            assert_eq!(request.parameters().len(), 1);
        }
        other => panic!("unexpected {:?}", other),
    }
    assert_eq!(agent.phase(), TurnPhase::ResponsePending);
    agent.on_delta(response("", &[("response", "Hi!")]));
    assert!(agent.finish_turn().unwrap().is_none());
    assert_eq!(agent.conversation().metadata(1).get("tool_output").unwrap(), "");
}

#[test]
fn missing_action_aborts_turn() {
    let mut agent = ThoughtActionAgent::new(prompts());
    agent.start_turn("hello");
    let result = agent.on_action_response(response("t", &[("action", "NONE")]));
    assert!(matches!(result, Err(AgentError::ProtocolViolation(_))));
    assert_eq!(agent.phase(), TurnPhase::AwaitingInput);
    agent.start_turn("again");
    assert_eq!(agent.phase(), TurnPhase::ActionPending);
}

#[test]
fn unknown_action_is_configuration_error() {
    let mut agent = ThoughtActionAgent::new(prompts());
    agent.start_turn("lights on");
    let result = agent.on_action_response(response(
        "t",
        &[("action", "HOME_AUTOMATION"), ("action_input", "on")],
    ));
    assert!(matches!(result, Err(AgentError::UnknownTool(_))));
    assert_eq!(agent.phase(), TurnPhase::AwaitingInput);
}

#[test]
fn missing_response_aborts_turn() {
    let mut agent = ThoughtActionAgent::new(prompts());
    agent.start_turn("hello");
    agent
        .on_action_response(response("t", &[("action", "NONE"), ("action_input", "")]))
        .unwrap();
    assert!(matches!(agent.finish_turn(), Err(AgentError::ProtocolViolation(_))));
    assert_eq!(agent.conversation().len(), 1);
}

#[test]
fn assistant_message_fills_template() {
    let m = build_assistant_chat_message(
        "{{action}}/{{action_input}}/{{response}}",
        " WEB_SEARCH ",
        " q ",
        " r ",
    );
    assert!(matches!(m, ChatMessage::Assistant(ref t) if t == "WEB_SEARCH/q/r"));
}

#[test]
fn intent_request_and_result() {
    let detector = IntentDetector::new(
        vec![Intent::new("information_retrieval".to_string(), "Look things up.".to_string())],
        "H: {{history}}".to_string(),
    );
    let mut conversation = rainchain::conversation::Conversation::new();
    conversation.add_message(ChatMessage::User("hi".to_string()));
    let request = detector.build_request(&conversation);
    assert_eq!(request.template(), "H: {{~#user~}}hi{{~/user}}");
    let intents = request.parameters().iter().find(|(k, _)| k == "intents").unwrap();
    match &intents.1 {
        ParamValue::Records(records) => {
            assert_eq!(records.len(), 1);
            assert_eq!(records[0][0], ("name".to_string(), "information_retrieval".to_string()));
            assert_eq!(records[0][1], ("description".to_string(), "Look things up.".to_string()));
        }
        other => panic!("unexpected {:?}", other),
    }
    let names = request.parameters().iter().find(|(k, _)| k == "intent_names").unwrap();
    assert!(matches!(&names.1, ParamValue::List(v) if v == &vec!["information_retrieval".to_string()]));
    let r = response("", &[("intent", "information_retrieval")]);
    assert_eq!(IntentDetector::intent_of(&r).unwrap(), "information_retrieval");
    assert!(IntentDetector::intent_of(&response("", &[])).is_err());
}

#[test]
fn client_messages() {
    let m = MessageFromClient::new("hey".to_string());
    assert_eq!(m.message(), "hey");
    let out = MessageToClient::new("ToolInfo".to_string(), "x".to_string(), 3);
    assert_eq!(out.event, "ToolInfo");
    assert_eq!(out.text, "x");
    assert_eq!(out.message_num, 3);
    let c = rainchain::guidance_client::GuidanceClient::new("http://h".to_string());
    assert_eq!(c.chat_url(), "http://h/chat");
    assert_eq!(c.embeddings_url(), "http://h/embeddings");
    let i = Intent::new("n".to_string(), "d".to_string());
    assert_eq!(i.name(), "n");
    assert_eq!(i.description(), "d");
}

#[test]
fn marked_protocol_reads_action_from_text() {
    let marked = response("<thought>look</thought><action>WEB_SEARCH( best phone 2024 )</action", &[]);
    let (action, input) = ActionProtocol::Marked.extract_action(&marked).unwrap();
    assert_eq!(action, "WEB_SEARCH");
    assert_eq!(input, "best phone 2024");
    assert!(matches!(
        ActionProtocol::Structured.extract_action(&marked),
        Err(AgentError::ProtocolViolation(_))
    ));
    let unfinished = response("<thought>look</thought>", &[]);
    assert!(ActionProtocol::Marked.extract_action(&unfinished).is_err());

    let mut agent = ThoughtActionAgent::with_protocol(prompts(), ActionProtocol::Marked);
    agent.start_turn("best phone?");
    match agent.on_action_response(marked).unwrap() {
        ToolCall::Invoke { tool, input, .. } => {
            assert_eq!(tool, ToolKind::WebSearch);
            assert_eq!(input, "best phone 2024");
        }
        other => panic!("unexpected {:?}", other),
    }
}
