use rainchain::conversation::{strip_citation_lines, ChatMessage, Conversation};
use rainchain::text::{replace_str, trim_str};

#[test]
fn empty_history_renders_empty() {
    let conversation = Conversation::new();
    assert_eq!(conversation.build_history(), "");
}

#[test]
fn one_user_turn_renders_in_user_delimiters() {
    let mut conversation = Conversation::new();
    conversation.add_message(ChatMessage::User("hi".to_string()));
    let history = conversation.build_history();
    assert!(history.contains("{{~#user~}}hi{{~/user}}"));
    assert!(!history.contains("{{~#assistant}}"));
    assert!(!history.contains("{{~/assistant}}"));
}

#[test]
fn history_renders_each_role() {
    let mut conversation = Conversation::new();
    conversation.add_message(ChatMessage::System("rules".to_string()));
    conversation.add_message(ChatMessage::User("hi".to_string()));
    conversation.add_message(ChatMessage::Assistant("hello".to_string()));
    assert_eq!(
        conversation.build_history(),
        "<<SYS>>rules<</SYS>>{{~#user~}}hi{{~/user}}{{~#assistant}}hello{{~/assistant}}"
    );
    assert!(conversation.messages()[0].is_system());
    assert!(conversation.messages()[1].is_user());
    assert!(conversation.messages()[2].is_assistant());
}

#[test]
fn history_drops_citation_lines() {
    let mut conversation = Conversation::new();
    conversation.add_message(ChatMessage::Assistant(
        "answer\n    [WEB_RESULT 0]: evidence\n[WEB_RESULT 1]: more\nend".to_string(),
    ));
    assert_eq!(
        conversation.build_history(),
        "{{~#assistant}}answer\nend{{~/assistant}}"
    );
}

#[test]
fn citation_stripping_keeps_other_lines() {
    assert_eq!(strip_citation_lines("a\nb\n"), "a\nb\n");
    assert_eq!(strip_citation_lines("[WEB_RESULT 2]: x"), "");
    assert_eq!(strip_citation_lines("a\n[WEB_RESULT 2]: x"), "a\n");
    assert_eq!(strip_citation_lines("not [WEB_RESULT here"), "not [WEB_RESULT here");
    assert_eq!(strip_citation_lines(""), "");
}

#[test]
fn metadata_is_recorded_per_turn() {
    let mut conversation = Conversation::new();
    conversation.add_message(ChatMessage::User("hi".to_string()));
    conversation.set_metadata(0, "k".to_string(), "v".to_string());
    conversation.set_metadata(0, "k".to_string(), "w".to_string());
    assert_eq!(conversation.metadata(0).get("k").unwrap(), "w");
    assert!(conversation.metadata(0).get("other").is_none());
    assert_eq!(conversation.len(), 1);
}

#[test]
fn replacement_is_single_pass() {
    assert_eq!(replace_str("a {{x}} b {{x}}", "{{x}}", "{{x}}{{x}}"), "a {{x}}{{x}} b {{x}}{{x}}");
    assert_eq!(replace_str("abc", "", "z"), "abc");
    assert_eq!(replace_str("aaa", "aa", "b"), "ba");
    assert_eq!(trim_str("\t x y \n"), "x y");
}
