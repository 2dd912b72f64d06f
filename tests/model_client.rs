use rainchain::model_client::{collect_stream, delta_step, DeltaStep};
use rainchain::model_client::{
    accumulate_event, EmbeddingsRequest, GuidanceEmbeddingsRequestBuilder, GuidanceRequestBuilder,
    GuidanceResponse, ParamValue, StreamEvent,
};
use rainchain::vars::Variables;

fn response(text: &str, vars: &[(&str, &str)]) -> GuidanceResponse {
    let mut v = Variables::new();
    for (k, val) in vars {
        v.insert(k.to_string(), val.to_string());
    }
    GuidanceResponse::from_parts(text.to_string(), v)
}

#[test]
fn deltas_append_never_overwrite() {
    let mut acc = GuidanceResponse::new();
    acc.apply_delta(response("", &[("a", "x")]));
    acc.apply_delta(response("", &[("a", "y")]));
    assert_eq!(acc.variable("a"), Some("xy"));
    assert_eq!(acc.variables().pairs().len(), 1);
}

#[test]
fn deltas_merge_text_and_several_variables() {
    let mut acc = GuidanceResponse::new();
    acc.apply_delta(response("He", &[("a", "1"), ("b", "2")]));
    acc.apply_delta(response("llo", &[("b", "3"), ("c", "4")]));
    assert_eq!(acc.text(), "Hello");
    assert_eq!(acc.variable("a"), Some("1"));
    assert_eq!(acc.variable("b"), Some("23"));
    assert_eq!(acc.variable("c"), Some("4"));
    assert_eq!(acc.variable("d"), None);
}

#[test]
fn missing_variable_is_protocol_violation() {
    let r = response("t", &[("action", "NONE")]);
    assert_eq!(r.expect_variable("action").unwrap(), "NONE");
    match r.expect_variable("response") {
        Err(rainchain::error::AgentError::ProtocolViolation(name)) => assert_eq!(name, "response"),
        other => panic!("unexpected {:?}", other),
    }
}

#[test]
fn stream_events_accumulate_until_end() {
    let mut acc = GuidanceResponse::new();
    assert!(accumulate_event(&mut acc, StreamEvent::Open));
    assert!(accumulate_event(&mut acc, StreamEvent::Message(response("a", &[("r", "1")]))));
    assert!(accumulate_event(&mut acc, StreamEvent::Message(response("b", &[("r", "2")]))));
    assert!(!accumulate_event(&mut acc, StreamEvent::End));
    assert_eq!(acc.text(), "ab");
    assert_eq!(acc.variable("r"), Some("12"));
}

#[test]
fn request_builder_sets_parameters() {
    let request = GuidanceRequestBuilder::new("tmpl".to_string())
        .with_parameter("k".to_string(), "v1".to_string())
        .with_parameter("k".to_string(), "v2".to_string())
        .with_parameter_list("l".to_string(), vec!["a".to_string(), "b".to_string()])
        .build();
    assert_eq!(request.template(), "tmpl");
    let params = request.parameters();
    let last_k = params.iter().rev().find(|(k, _)| k == "k").unwrap();
    assert!(matches!(&last_k.1, ParamValue::Text(s) if s == "v2"));
    let l = params.iter().find(|(k, _)| k == "l").unwrap();
    assert!(matches!(&l.1, ParamValue::List(v) if v.len() == 2));
}

#[test]
fn embeddings_builder_keeps_order() {
    let request = GuidanceEmbeddingsRequestBuilder::new()
        .add_input("a".to_string())
        .add_inputs(vec!["b".to_string(), "c".to_string()])
        .build();
    assert_eq!(request.input, vec!["a", "b", "c"]);
    let e = EmbeddingsRequest::new(vec!["x".to_string()]);
    assert_eq!(e.input, vec!["x"]);
}

#[test]
fn collected_stream_merges_deltas_in_order() {
    let events = vec![
        StreamEvent::Open,
        StreamEvent::Message(response("", &[("a", "x")])),
        StreamEvent::Message(response("", &[("a", "y")])),
        StreamEvent::End,
        StreamEvent::Message(response("late", &[("a", "z")])),
    ];
    let merged = collect_stream(events);
    assert_eq!(merged.variable("a"), Some("xy"));
    assert_eq!(merged.text(), "");
}

#[test]
fn delta_steps() {
    assert!(matches!(delta_step(StreamEvent::Open), DeltaStep::Skip));
    assert!(matches!(delta_step(StreamEvent::End), DeltaStep::Stop));
    match delta_step(StreamEvent::Message(response("t", &[]))) {
        DeltaStep::Yield(d) => assert_eq!(d.text(), "t"),
        other => panic!("unexpected {:?}", other),
    }
}
