use rainchain::tools::{HomeAutomation, Noop, ToolKind, ToolRegistry, WebSearch};
use rainchain::web_search::{
    extract_page_text, passage_inputs, question_query, rank_sections, select_links,
    split_text_into_sections, synthesize, top_k, MAX_SECTION_LEN,
};

#[test]
fn sections_stay_within_bound_unless_one_long_sentence() {
    let long_sentence = "x".repeat(450);
    let mut input = String::new();
    input.push_str(&"a".repeat(150));
    input.push('.');
    input.push_str(&"b".repeat(150));
    input.push('.');
    input.push_str(&long_sentence);
    input.push('.');
    input.push_str(&"c".repeat(100));
    input.push('\n');
    input.push_str(&"d".repeat(100));
    input.push('.');
    input.push_str(&"e".repeat(45));
    assert_eq!(input.chars().count(), 1000);
    let sections = split_text_into_sections(&input, 400);
    assert_eq!(sections.len(), 3);
    for s in &sections {
        let n = s.chars().count();
        assert!(n <= 400 || *s == long_sentence);
    }
    assert_eq!(sections[0], format!("{}. {}", "a".repeat(150), "b".repeat(150)));
    assert_eq!(sections[1], long_sentence);
    assert_eq!(
        sections[2],
        format!("{}. {}. {}", "c".repeat(100), "d".repeat(100), "e".repeat(45))
    );
}

#[test]
fn sections_of_empty_and_blank_text() {
    assert!(split_text_into_sections("", MAX_SECTION_LEN).is_empty());
    assert!(split_text_into_sections("  . \n .", MAX_SECTION_LEN).is_empty());
    assert_eq!(split_text_into_sections(" One. Two ", 400), vec!["One. Two"]);
}

#[test]
fn bound_counts_the_joining_separator() {
    // 3 + 2 + 3 = 8 characters fit a bound of 8, not of 7.
    assert_eq!(split_text_into_sections("abc.def", 8), vec!["abc. def"]);
    assert_eq!(split_text_into_sections("abc.def", 7), vec!["abc", "def"]);
}

#[test]
fn top_k_orders_by_score_then_position() {
    assert_eq!(top_k(&vec![5, 9, 7, 7, 1], 3), vec![1, 2, 3]);
    assert_eq!(top_k(&vec![5, 9, 7, 7, 1], 10), vec![1, 2, 3, 0, 4]);
    assert_eq!(top_k(&vec![], 3), Vec::<usize>::new());
    assert_eq!(top_k(&vec![4, 4, 4], 0), Vec::<usize>::new());
}

#[test]
fn equal_scores_at_threshold_both_kept() {
    // Two passages tie at the third place: both are in the top three.
    let ranked = top_k(&vec![2, 8, 3, 3, 9], 4);
    assert!(ranked.contains(&2) && ranked.contains(&3));
    let ranked = top_k(&vec![3, 3], 2);
    assert_eq!(ranked.len(), 2);
    assert!(ranked.contains(&0) && ranked.contains(&1));
}

#[test]
fn ranking_returns_tags() {
    let tagged = vec![(2usize, 10u32), (0, 30), (1, 20)];
    assert_eq!(rank_sections(&tagged, 2), vec![0, 1]);
}

#[test]
fn evidence_lists_top_three() {
    let sections: Vec<String> = vec!["zero", "one", "two", "three"]
        .into_iter()
        .map(String::from)
        .collect();
    let evidence = synthesize(&sections, &vec![3, 1, 0, 2]).unwrap();
    assert_eq!(
        evidence,
        "[WEB_RESULT 0]: three\n[WEB_RESULT 1]: one\n[WEB_RESULT 2]: zero"
    );
    assert_eq!(synthesize(&sections, &vec![]).unwrap(), "");
    assert_eq!(synthesize(&sections, &vec![2]).unwrap(), "[WEB_RESULT 0]: two");
}

#[test]
fn evidence_with_bad_index_fails() {
    let sections = vec!["only".to_string()];
    assert!(matches!(
        synthesize(&sections, &vec![0, 5]),
        Err(rainchain::error::AgentError::ProtocolViolation(_))
    ));
}

#[test]
fn queries_carry_prefixes() {
    let p = passage_inputs(&vec!["a".to_string(), "b".to_string()]);
    assert_eq!(p, vec!["passage: a", "passage: b"]);
    assert_eq!(question_query("why?"), "query: why?");
}

#[test]
fn at_most_six_links() {
    let links: Vec<String> = (0..9).map(|i| format!("https://e/{i}")).collect();
    let kept = select_links(links.clone());
    assert_eq!(kept, links[..6].to_vec());
    assert_eq!(select_links(vec!["a".to_string()]), vec!["a"]);
}

#[test]
fn page_text_is_extracted_from_markup() {
    let paragraph = "Rome is the capital of Italy, and flights to it are cheapest, \
        in most seasons, when booked several weeks ahead, from large hubs, with flexible dates, \
        and with carry-on luggage only, which many travellers prefer, as it is quicker.";
    let html = format!(
        "<html><head><title>t</title></head><body><article><p>{paragraph}</p><p>{paragraph}</p></article></body></html>"
    );
    let text = extract_page_text(&html).expect("page text");
    assert!(!text.contains("<p>"));
    assert!(!text.contains("<html>"));
    assert!(text.contains("Rome is the capital of Italy"));
    assert_eq!(text, text.trim());
}

#[test]
fn short_page_text_is_noise() {
    assert!(extract_page_text("<html><body><p>tiny</p></body></html>").is_none());
}

#[test]
fn tool_names_and_registry() {
    assert_eq!(WebSearch.name(), "WEB_SEARCH");
    assert_eq!(Noop.name(), "NONE");
    assert_eq!(HomeAutomation.name(), "HOME_AUTOMATION");
    assert_eq!(Noop.get_output("anything"), "");
    let registry = ToolRegistry::standard();
    assert_eq!(registry.valid_actions(), vec!["WEB_SEARCH", "NONE"]);
    assert_eq!(registry.select_tool("WEB_SEARCH").unwrap(), ToolKind::WebSearch);
    assert_eq!(registry.select_tool("NONE").unwrap(), ToolKind::Noop);
    match registry.select_tool("HOME_AUTOMATION") {
        Err(rainchain::error::AgentError::UnknownTool(name)) => assert_eq!(name, "HOME_AUTOMATION"),
        other => panic!("unexpected {:?}", other),
    }
}

#[test]
fn equal_scores_rank_by_tag_whatever_the_arrival_order() {
    let a = rank_sections(&vec![(3usize, 7u32), (1, 7), (2, 9), (0, 1)], 2);
    let b = rank_sections(&vec![(0usize, 1u32), (2, 9), (1, 7), (3, 7)], 2);
    assert_eq!(a, vec![2, 1]);
    assert_eq!(a, b);
}

#[test]
fn extracted_text_is_trimmed_and_filtered() {
    let long = format!("  {}  ", "word ".repeat(20));
    assert_eq!(rainchain::web_search::clean_page_text(&long).unwrap(), "word ".repeat(20).trim());
    assert!(rainchain::web_search::clean_page_text(&format!("  {}  ", "x".repeat(50))).is_none());
    assert_eq!(
        rainchain::web_search::clean_page_text(&"y".repeat(51)).unwrap(),
        "y".repeat(51)
    );
}
