use rainchain::action_thought::{
    extract_thought_action, extract_tool_and_input, ActionThought, MarkerAction, NextStep,
};
use rainchain::conversation::{ChatMessage, Conversation};
use rainchain::tools::ToolKind;

#[test]
fn test_extract_tool_input() {
    let input = "WEB_SEARCH(some input to the search)";

    let (tool, input) = extract_tool_and_input(input);

    assert_eq!(tool, "WEB_SEARCH");
    assert_eq!(input, "some input to the search");
}

#[test]
fn test_extract_tool_input_spaces() {
    let input = " WEB_SEARCH ( some input to the search) ";

    let (tool, input) = extract_tool_and_input(input);

    assert_eq!(tool, "WEB_SEARCH");
    assert_eq!(input, "some input to the search");
}

#[test]
fn action_text_yields_tool_and_argument() {
    let text = "<thought>I should look this up</thought>\n<action>WEB_SEARCH(best phone 2024)</action";
    let (thought, action) = extract_thought_action(text);
    assert_eq!(thought, "I should look this up");
    assert_eq!(action, "WEB_SEARCH(best phone 2024)");
    let (tool, input) = extract_tool_and_input(&action);
    assert_eq!(tool, "WEB_SEARCH");
    assert_eq!(input, "best phone 2024");
}

#[test]
fn action_extraction_ignores_whitespace_around_parentheses() {
    let text = "<thought> x </thought><action>  WEB_SEARCH  (  best phone 2024  )  </action";
    let (_thought, action) = extract_thought_action(text);
    let (tool, input) = extract_tool_and_input(&action);
    assert_eq!(tool, "WEB_SEARCH");
    assert_eq!(input, "best phone 2024");
}

#[test]
fn none_action_has_empty_argument() {
    let (tool, input) = extract_tool_and_input("NONE(ignored)");
    assert_eq!(tool, "NONE");
    assert_eq!(input, "");
    let (tool, input) = extract_tool_and_input("  NONE  ");
    assert_eq!(tool, "NONE");
    assert_eq!(input, "");
}

#[test]
fn action_without_parenthesis_has_empty_argument() {
    let (tool, input) = extract_tool_and_input("WEB_SEARCH");
    assert_eq!(tool, "WEB_SEARCH");
    assert_eq!(input, "");
}

#[test]
fn only_one_closing_parenthesis_is_stripped() {
    let (tool, input) = extract_tool_and_input("WEB_SEARCH(f(x))");
    assert_eq!(tool, "WEB_SEARCH");
    assert_eq!(input, "f(x)");
}

#[test]
fn missing_markers_give_empty_parts() {
    let (thought, action) = extract_thought_action("no markers here");
    assert_eq!(thought, "no markers here");
    assert_eq!(action, "");
    let (thought, action) = extract_thought_action("");
    assert_eq!(thought, "");
    assert_eq!(action, "");
}

#[test]
fn marker_protocol_requests_tool_then_resumes() {
    let agent = ActionThought::new();
    let mut conversation = Conversation::new();
    conversation.add_message(ChatMessage::User("phones?".to_string()));
    conversation.add_message(ChatMessage::Assistant(
        "<thought>search</thought><action>WEB_SEARCH(best phone 2024)</action".to_string(),
    ));
    match agent.handle_assistant_message(&mut conversation) {
        Ok(MarkerAction::InvokeTool { tool, tool_name, input }) => {
            assert_eq!(tool, ToolKind::WebSearch);
            assert_eq!(tool_name, "WEB_SEARCH");
            assert_eq!(input, "best phone 2024");
        }
        other => panic!("unexpected {:?}", other),
    }
    let step = agent.complete_tool_call(&mut conversation, "WEB_SEARCH", "[WEB_RESULT 0]: a phone");
    assert_eq!(step, NextStep::KeepPredicting);
    let last = conversation.messages()[1].text();
    assert!(last.ends_with(">\n<output>\n[WEB_RESULT 0]: a phone\n</output>\n<response>"));
    assert_eq!(conversation.metadata(1).get("tool_name").unwrap(), "WEB_SEARCH");

    conversation.append_to_last("It is this phone.</response");
    match agent.handle_assistant_message(&mut conversation) {
        Ok(MarkerAction::Stop { tool_info }) => {
            assert_eq!(tool_info.unwrap(), "[WEB_RESULT 0]: a phone");
        }
        other => panic!("unexpected {:?}", other),
    }
    assert!(conversation.messages()[1].text().ends_with("</response></s>"));
}

#[test]
fn marker_protocol_rejects_unknown_tool() {
    let agent = ActionThought::new();
    let mut conversation = Conversation::new();
    conversation.add_message(ChatMessage::Assistant("<action>FLY(to Rome)</action".to_string()));
    assert!(matches!(
        agent.handle_assistant_message(&mut conversation),
        Err(rainchain::error::AgentError::UnknownTool(_))
    ));
}

#[test]
fn marker_protocol_closes_plain_text() {
    let agent = ActionThought::new();
    let mut conversation = Conversation::new();
    conversation.add_message(ChatMessage::Assistant("hello".to_string()));
    assert!(matches!(
        agent.handle_assistant_message(&mut conversation),
        Ok(MarkerAction::Stop { tool_info: None })
    ));
    assert_eq!(conversation.messages()[0].text(), "hello</s>");
}

#[test]
fn empty_recorded_tool_output_is_not_shown() {
    let agent = ActionThought::new();
    let mut conversation = Conversation::new();
    conversation.add_message(ChatMessage::User("hi".to_string()));
    conversation.add_message(ChatMessage::Assistant("x</response".to_string()));
    conversation.set_metadata(1, "tool_output".to_string(), String::new());
    match agent.handle_assistant_message(&mut conversation) {
        Ok(MarkerAction::Stop { tool_info }) => assert!(tool_info.is_none()),
        other => panic!("unexpected {:?}", other),
    }
    assert_eq!(conversation.messages()[1].text(), "x</response></s>");
    assert_eq!(conversation.messages()[0].text(), "hi");
}

#[test]
fn unknown_tool_error_names_the_tool() {
    let agent = ActionThought::new();
    let mut conversation = Conversation::new();
    conversation.add_message(ChatMessage::Assistant("<action> FLY (to Rome)</action".to_string()));
    match agent.handle_assistant_message(&mut conversation) {
        Err(rainchain::error::AgentError::UnknownTool(name)) => assert_eq!(name, "FLY"),
        other => panic!("unexpected {:?}", other),
    }
    match agent.select_tool("FLY") {
        Err(rainchain::error::AgentError::UnknownTool(name)) => assert_eq!(name, "FLY"),
        other => panic!("unexpected {:?}", other),
    }
}
