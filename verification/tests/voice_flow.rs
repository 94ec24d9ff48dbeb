use space_lt::llm::{is_web_search_line, FailingMockLlmBackend, LlmBackend, MockLlmBackend,
    ALLOWED_TOOLS};
use space_lt::protocol::OrchestratorMsg;
use space_lt::voice::{parse_feedback, ReplyAction, VoiceFlow, FORMAT_REMINDER,
    LLM_FAILURE_FALLBACK, RETRY_CONTEXT};

#[test]
fn parse_feedback_with_valid_block() {
    let input = "[FEEDBACK]\nRED: \"I have went\" → \"I went\" (past simple)\nBLUE: \"it is good\" → \"it's appealing\" (more natural)\n[/FEEDBACK]\nThat sounds great! What else did you do?".to_string();
    let (fb, spoken) = parse_feedback(input);
    assert!(fb.is_some());
    let fb = fb.unwrap();
    assert!(fb.contains("RED:"));
    assert!(fb.contains("BLUE:"));
    assert_eq!(spoken, "That sounds great! What else did you do?");
}

#[test]
fn parse_feedback_without_block() {
    let input = "That sounds great! What else did you do?".to_string();
    let (fb, spoken) = parse_feedback(input.clone());
    assert!(fb.is_none());
    assert_eq!(spoken, input);
}

#[test]
fn parse_feedback_empty_block() {
    let input = "[FEEDBACK]\n[/FEEDBACK]\nThat sounds great!".to_string();
    let (fb, spoken) = parse_feedback(input);
    assert!(fb.is_none());
    assert_eq!(spoken, "That sounds great!");
}

#[test]
fn parse_feedback_malformed_no_closing_tag() {
    let input = "[FEEDBACK]\nRED: something\nThat sounds great!".to_string();
    let (fb, spoken) = parse_feedback(input.clone());
    assert!(fb.is_none());
    assert_eq!(spoken, input);
}

#[test]
fn parse_feedback_with_speed_tag_after() {
    let input = "[FEEDBACK]\nRED: \"I have went\" → \"I went\"\n[/FEEDBACK]\n[SPEED:0.8] That sounds great!".to_string();
    let (fb, spoken) = parse_feedback(input);
    assert!(fb.is_some());
    assert!(fb.unwrap().contains("RED:"));
    assert_eq!(spoken, "[SPEED:0.8] That sounds great!");
}

#[test]
fn parse_feedback_empty_input() {
    let (fb, spoken) = parse_feedback(String::new());
    assert!(fb.is_none());
    assert_eq!(spoken, "");
}

#[test]
fn parse_feedback_with_leading_whitespace() {
    let input = "  \n[FEEDBACK]\nRED: error\n[/FEEDBACK]\nResponse here.".to_string();
    let (fb, spoken) = parse_feedback(input);
    assert!(fb.is_some());
    assert_eq!(fb.unwrap(), "RED: error");
    assert_eq!(spoken, "Response here.");
}

#[test]
fn mock_backend_returns_response() {
    let mut backend = MockLlmBackend::new(vec!["Hello!".to_string()]);
    let result = backend.query("Hi", "agent.md", false).unwrap();
    assert_eq!(result, "Hello!");
}

#[test]
fn mock_backend_cycles_responses() {
    let mut backend = MockLlmBackend::new(vec!["A".to_string(), "B".to_string()]);

    assert_eq!(backend.query("1", "agent.md", false).unwrap(), "A");
    assert_eq!(backend.query("2", "agent.md", true).unwrap(), "B");
    assert_eq!(backend.query("3", "agent.md", true).unwrap(), "A"); // cycles
    assert_eq!(backend.query("4", "agent.md", true).unwrap(), "B");
}

#[test]
fn mock_backend_empty_responses_errors() {
    let mut backend = MockLlmBackend::new(vec![]);
    let result = backend.query("Hi", "agent.md", false);
    assert!(result.is_err());
}

#[test]
fn failing_mock_fails_then_succeeds() {
    let mut backend = FailingMockLlmBackend::new(2, vec!["Success".to_string()]);

    // the first two calls fail
    assert!(backend.query("1", "agent.md", false).is_err());
    assert!(backend.query("2", "agent.md", true).is_err());

    // the third call succeeds
    let result = backend.query("3", "agent.md", true).unwrap();
    assert_eq!(result, "Success");
}

#[test]
fn failing_mock_immediate_success_when_zero_failures() {
    let mut backend = FailingMockLlmBackend::new(0, vec!["OK".to_string()]);

    let result = backend.query("1", "agent.md", false).unwrap();
    assert_eq!(result, "OK");
}

#[test]
fn allowed_tools_enables_web_search() {
    assert!(
        ALLOWED_TOOLS.contains("WebSearch"),
        "the tool allowlist must include web search for topic discussions"
    );
    assert!(
        !ALLOWED_TOOLS.is_empty(),
        "the tool allowlist must not be empty (an empty string disables all tools)"
    );
}

#[test]
fn continue_flag_is_false_then_true_across_turns() {
    let mut flow = VoiceFlow::new();
    let q1 = flow.on_transcription("Turn one");
    assert!(!q1.continue_session);
    flow.on_llm_response("A".to_string());
    let q2 = flow.on_transcription("Turn two");
    assert!(q2.continue_session);
    flow.on_llm_response("B".to_string());
    let q3 = flow.on_transcription("Turn three");
    assert!(q3.continue_session);
}

#[test]
fn prompt_carries_reminder_and_text() {
    let mut flow = VoiceFlow::new();
    let q = flow.on_transcription("How are you?");
    assert_eq!(q.prompt, format!("{FORMAT_REMINDER}How are you?"));
}

#[test]
fn feedback_continue_releases_spoken_text() {
    let mut flow = VoiceFlow::new();
    flow.on_transcription("I have went to store");
    let action = flow.on_llm_response(
        "[FEEDBACK]\nRED: \"I have went\" → \"I went\" (past simple)\n[/FEEDBACK]\nThat sounds good! Tell me more.".to_string(),
    );
    match action {
        ReplyAction::AskFeedback(OrchestratorMsg::FeedbackText(fb)) => assert!(fb.contains("RED:")),
        other => panic!("Expected FeedbackText, got {other:?}"),
    }
    match flow.on_feedback_choice(true) {
        Some(OrchestratorMsg::ResponseText(t)) => {
            assert_eq!(t, "That sounds good! Tell me more.");
        }
        other => panic!("Expected ResponseText, got {other:?}"),
    }
}

#[test]
fn feedback_retry_skips_response_and_prefixes_next_prompt() {
    let mut flow = VoiceFlow::new();
    flow.on_transcription("I have went to store");
    let action = flow.on_llm_response(
        "[FEEDBACK]\nRED: \"I have went\" → \"I went\"\n[/FEEDBACK]\nNice try!".to_string(),
    );
    assert!(matches!(action, ReplyAction::AskFeedback(_)));

    // retry: nothing is spoken
    assert!(flow.on_feedback_choice(false).is_none());

    // the next prompt carries the rephrase prefix
    let q = flow.on_transcription("I went to the store");
    assert_eq!(q.prompt, format!("{FORMAT_REMINDER}{RETRY_CONTEXT}I went to the store"));
}

#[test]
fn cancel_at_gate_retries_without_prefix() {
    let mut flow = VoiceFlow::new();
    flow.on_transcription("I have went to store");
    flow.on_llm_response("[FEEDBACK]\nRED: tense\n[/FEEDBACK]\nNice try!".to_string());
    flow.on_cancel_at_gate();
    let q = flow.on_transcription("I went to the store");
    assert_eq!(q.prompt, format!("{FORMAT_REMINDER}I went to the store"));
}

#[test]
fn llm_failure_speaks_apology_then_recovers() {
    let mut backend = FailingMockLlmBackend::new(1, vec!["Normal response".to_string()]);
    let mut flow = VoiceFlow::new();

    // turn one: the query fails, the user still hears an apology
    let q1 = flow.on_transcription("First question");
    let m = match backend.query(&q1.prompt, "agent.md", q1.continue_session) {
        Ok(r) => flow.on_llm_response(r),
        Err(_) => ReplyAction::Speak(flow.on_llm_failure()),
    };
    match m {
        ReplyAction::Speak(OrchestratorMsg::ResponseText(t)) => {
            assert_eq!(t, LLM_FAILURE_FALLBACK);
            assert_eq!(t, "I'm sorry, something went wrong. Please try again.");
        }
        other => panic!("Expected error fallback ResponseText, got {other:?}"),
    }

    // turn two: the query succeeds and the normal response is spoken
    let q2 = flow.on_transcription("Second question");
    let m = match backend.query(&q2.prompt, "agent.md", q2.continue_session) {
        Ok(r) => flow.on_llm_response(r),
        Err(_) => ReplyAction::Speak(flow.on_llm_failure()),
    };
    match m {
        ReplyAction::Speak(OrchestratorMsg::ResponseText(t)) => assert_eq!(t, "Normal response"),
        other => panic!("Expected 'Normal response', got {other:?}"),
    }
}

#[test]
fn response_without_feedback_is_spoken_directly() {
    let mut flow = VoiceFlow::new();
    flow.on_transcription("I went to the store yesterday");
    match flow.on_llm_response("That's great!".to_string()) {
        ReplyAction::Speak(OrchestratorMsg::ResponseText(t)) => assert_eq!(t, "That's great!"),
        other => panic!("Expected ResponseText, got {other:?}"),
    }
}

#[test]
fn web_search_lines_are_detected() {
    assert!(is_web_search_line("Running a Web Search for recent news"));
    assert!(is_web_search_line("web ... search"));
    assert!(!is_web_search_line("searching my memory"));
}
