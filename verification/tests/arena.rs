use inferlets::arena::{
    branch_count, completion_tokens, context_window, generated_count, last_user_prompt,
    model_is_served, not_served_error, picked_index, preview_text, preview_tokens,
    prompt_last_index, require_served_model, token_label, ChatMessage, ChatRequest,
    BRANCH_COUNT, BRANCH_TOKENS, TOP_K,
};

fn msg(role: &str, content: Option<&str>) -> ChatMessage {
    ChatMessage { role: role.to_string(), content: content.map(|c| c.to_string()) }
}

fn request(messages: Vec<ChatMessage>) -> ChatRequest {
    ChatRequest { model: "m".to_string(), messages }
}

#[test]
fn prompt_is_the_last_user_message() {
    let req = request(vec![
        msg("system", Some("be brief")),
        msg("user", Some("first")),
        msg("assistant", Some("ok")),
        msg("user", Some("  second  ")),
        msg("assistant", Some("")),
    ]);
    assert_eq!(last_user_prompt(&req).unwrap(), "  second  ");
}

#[test]
fn blank_or_missing_prompt_is_an_invalid_request() {
    for req in [
        request(vec![]),
        request(vec![msg("assistant", Some("hello"))]),
        request(vec![msg("user", Some("hello")), msg("user", Some(" \t\n\u{3000}"))]),
        request(vec![msg("user", None)]),
    ] {
        let e = last_user_prompt(&req).unwrap_err();
        assert_eq!(e.code, "invalid_request");
        assert_eq!(e.message, "Next Token Arena needs a non-empty user prompt");
        assert_eq!(e.param.as_deref(), Some("messages"));
    }
}

#[test]
fn content_str_exposes_text_content() {
    assert_eq!(msg("user", Some("x")).content_str(), Some("x"));
    assert_eq!(msg("user", None).content_str(), None);
}

#[test]
fn last_index_is_the_final_prompt_token() {
    assert_eq!(prompt_last_index(&vec![10u32, 11, 12]).unwrap(), 2);
    assert_eq!(prompt_last_index(&vec![10u32]).unwrap(), 0);
    let e = prompt_last_index(&vec![]).unwrap_err();
    assert_eq!(e.code, "invalid_request");
    assert_eq!(e.message, "prompt did not tokenize into any model tokens");
    assert_eq!(e.param.as_deref(), Some("messages"));
}

#[test]
fn empty_decodings_get_a_placeholder_label() {
    assert_eq!(token_label(42, String::new()), "<token:42>");
    assert_eq!(token_label(0, String::new()), "<token:0>");
    assert_eq!(token_label(u32::MAX, String::new()), "<token:4294967295>");
    assert_eq!(token_label(42, " the".to_string()), " the");
}

#[test]
fn preview_is_candidate_then_generation() {
    assert_eq!(preview_tokens(5, &vec![6u32, 7]), vec![5u32, 6, 7]);
    assert_eq!(preview_tokens(5, &vec![]), vec![5u32]);
}

#[test]
fn blank_preview_falls_back_to_the_candidate_text() {
    let fallback = "cand".to_string();
    assert_eq!(preview_text(" \n ".to_string(), &fallback), "cand");
    assert_eq!(preview_text(String::new(), &fallback), "cand");
    assert_eq!(preview_text(" go on".to_string(), &fallback), " go on");
}

#[test]
fn preview_counts_its_candidate() {
    assert_eq!(generated_count(0), 1);
    assert_eq!(generated_count(BRANCH_TOKENS), 13);
}

#[test]
fn picked_token_is_found_among_candidates() {
    let ids = vec![4u32, 9, 4, 1];
    assert_eq!(picked_index(&ids, 4), Some(0));
    assert_eq!(picked_index(&ids, 1), Some(3));
    assert_eq!(picked_index(&ids, 7), None);
    assert_eq!(picked_index(&vec![], 7), None);
}

#[test]
fn at_most_five_candidates_get_previews() {
    assert_eq!(TOP_K, 8);
    assert_eq!(BRANCH_COUNT, 5);
    assert_eq!(branch_count(8), 5);
    assert_eq!(branch_count(3), 3);
    assert_eq!(branch_count(0), 0);
}

#[test]
fn completion_counts_the_pick_and_all_previews() {
    assert_eq!(completion_tokens(&vec![13u32, 13, 2]), 29);
    assert_eq!(completion_tokens(&vec![]), 1);
}

#[test]
fn context_window_only_when_reported() {
    assert_eq!(context_window(0), None);
    assert_eq!(context_window(4096), Some(4096));
}

#[test]
fn served_model_check() {
    let models = vec!["a".to_string(), "qwen".to_string()];
    assert!(model_is_served(&models, &"qwen".to_string()));
    assert!(!model_is_served(&models, &"Qwen".to_string()));
    assert!(require_served_model(&models, &"a".to_string()).is_ok());
}

#[test]
fn unserved_model_error_quotes_the_id() {
    let models = vec!["a".to_string()];
    let e = require_served_model(&models, &"my \"m\"".to_string()).unwrap_err();
    assert_eq!(e.code, "model_not_found");
    assert_eq!(e.message, "model \"my \\\"m\\\"\" is not served by this engine");
    assert_eq!(e.param, None);
    assert_eq!(not_served_error("\"x\"").message, "model \"x\" is not served by this engine");
}
