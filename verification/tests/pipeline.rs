use space_lt::protocol::ServerMsg;
use space_lt::router::{plan_response, response_wire_msgs, stt_step, tts_step, SttAction, TtsStep};
use space_lt::protocol::{ClientMsg, OrchestratorMsg};
use space_lt::sentences::{apply_crossfade, chunk_samples, parse_speed_marker, split_sentences,
    stream_sentences, SynthOutcome, CROSSFADE_LEN, TTS_CHUNK_SIZE};

#[test]
fn split_sentences_multiple() {
    assert_eq!(
        split_sentences("Hello. How are you? I'm fine!"),
        vec!["Hello.", "How are you?", "I'm fine!"]
    );
}

#[test]
fn split_sentences_single() {
    assert_eq!(split_sentences("Just one sentence"), vec!["Just one sentence"]);
}

#[test]
fn split_sentences_single_with_period() {
    assert_eq!(split_sentences("Just one sentence."), vec!["Just one sentence."]);
}

#[test]
fn split_sentences_empty() {
    let result: Vec<&str> = split_sentences("");
    assert!(result.is_empty());
}

#[test]
fn split_sentences_whitespace_only() {
    let result: Vec<&str> = split_sentences("   ");
    assert!(result.is_empty());
}

#[test]
fn split_sentences_extra_spaces() {
    assert_eq!(split_sentences("Hello.  Extra  spaces.  "), vec!["Hello.", "Extra  spaces."]);
}

#[test]
fn split_sentences_mixed_punctuation() {
    assert_eq!(split_sentences("Really? Yes! OK."), vec!["Really?", "Yes!", "OK."]);
}

#[test]
fn split_sentences_no_space_after_period() {
    // a period not followed by whitespace is not a boundary
    assert_eq!(split_sentences("Version 3.5 is out"), vec!["Version 3.5 is out"]);
}

#[test]
fn split_sentences_trailing_no_punctuation() {
    assert_eq!(
        split_sentences("First sentence. And then more"),
        vec!["First sentence.", "And then more"]
    );
}

#[test]
fn parse_speed_marker_with_valid_marker() {
    let (speed, text) = parse_speed_marker("[SPEED:0.6] Sure, I will speak more slowly.");
    assert_eq!(speed, Some("0.6"));
    assert_eq!(text, "Sure, I will speak more slowly.");
}

#[test]
fn parse_speed_marker_without_marker() {
    let (speed, text) = parse_speed_marker("Hello, how are you?");
    assert_eq!(speed, None);
    assert_eq!(text, "Hello, how are you?");
}

#[test]
fn parse_speed_marker_with_different_speeds() {
    let (speed, _) = parse_speed_marker("[SPEED:1.2] Fast speech");
    assert_eq!(speed, Some("1.2"));

    let (speed, _) = parse_speed_marker("[SPEED:0.5] Very slow");
    assert_eq!(speed, Some("0.5"));
}

#[test]
fn parse_speed_marker_malformed_is_literal() {
    let (speed, text) = parse_speed_marker("[SPEED:fast] Hello");
    assert_eq!(speed, None);
    assert_eq!(text, "[SPEED:fast] Hello");
}

#[test]
fn crossfade_smooths_sentence_boundary() {
    // the previous sentence held a constant 10000, the next a constant -5000
    let sentence_a = vec![10000i16; 1000];
    let mut sentence_b = vec![-5000i16; 1000];

    let tail: Vec<i16> = sentence_a[sentence_a.len() - CROSSFADE_LEN..].to_vec();
    apply_crossfade(&tail, &mut sentence_b);

    assert!(
        (sentence_b[0] as i32 - 10000).abs() < 200,
        "First crossfade sample should be near prev_tail value, got {}",
        sentence_b[0]
    );

    assert!(
        (sentence_b[CROSSFADE_LEN - 1] as i32 - (-5000)).abs() < 200,
        "Last crossfade sample should be near original value, got {}",
        sentence_b[CROSSFADE_LEN - 1]
    );

    let mid = sentence_b[CROSSFADE_LEN / 2] as i32;
    assert!(mid > -5000 && mid < 10000, "Midpoint should be between -5000 and 10000, got {mid}");

    assert_eq!(sentence_b[CROSSFADE_LEN], -5000);
    assert_eq!(sentence_b[999], -5000);

    let mut max_delta: i32 = 0;
    for w in sentence_b[..CROSSFADE_LEN].windows(2) {
        let delta = (w[1] as i32 - w[0] as i32).abs();
        max_delta = max_delta.max(delta);
    }
    assert!(max_delta < 200, "Crossfade should be smooth, max delta = {max_delta}");
}

#[test]
fn crossfade_skipped_for_short_sentence() {
    // a sentence shorter than the crossfade is only partially blended,
    // and keeps its length
    let tail = vec![10000i16; CROSSFADE_LEN];
    let mut short_sentence = vec![-5000i16; 50];
    let original = short_sentence.clone();

    apply_crossfade(&tail, &mut short_sentence);

    assert_eq!(short_sentence.len(), original.len());
}

#[test]
fn tts_chunking_splits_large_audio() {
    // ten thousand samples cut at four thousand: 4000, 4000, 2000
    let samples: Vec<i16> = (0..10000).map(|i| i as i16).collect();
    let chunks = chunk_samples(&samples);
    let sizes: Vec<usize> = chunks.iter().map(|c| c.len()).collect();
    assert_eq!(sizes, vec![4000, 4000, 2000]);
    let rejoined: Vec<i16> = chunks.concat();
    assert_eq!(rejoined, samples);
    for c in &chunks {
        assert!(c.len() <= TTS_CHUNK_SIZE, "Chunk size {} exceeds max {}", c.len(), TTS_CHUNK_SIZE);
    }
}

#[test]
fn stream_completes_without_interrupt() {
    // one long sentence: five chunks, then the terminator
    let samples: Vec<i16> = (0..20000).map(|i| i as i16).collect();
    let msgs = stream_sentences(vec![SynthOutcome::Audio(samples)], false);
    let mut chunk_count = 0;
    for m in &msgs[..msgs.len() - 1] {
        match m {
            ServerMsg::TtsAudioChunk(c) => {
                assert!(c.len() <= TTS_CHUNK_SIZE);
                chunk_count += 1;
            }
            other => panic!("Expected TtsAudioChunk, got {other:?}"),
        }
    }
    assert!(matches!(msgs[msgs.len() - 1], ServerMsg::TtsEnd));
    assert_eq!(chunk_count, 5, "20000 samples / 4000 = 5 chunks");
}

#[test]
fn stream_interrupted_before_first_chunk() {
    // the interrupt flag preset: no audio at all, exactly one terminator
    let samples: Vec<i16> = (0..20000).map(|i| i as i16).collect();
    let msgs = stream_sentences(vec![SynthOutcome::Audio(samples)], true);
    assert_eq!(msgs.len(), 1);
    assert!(matches!(msgs[0], ServerMsg::TtsEnd));
}

#[test]
fn stream_first_sentence_failure_sends_terminator() {
    // a failing first sentence still ends the response cleanly
    let msgs = stream_sentences(
        vec![SynthOutcome::Failed, SynthOutcome::Audio(vec![1i16; 4000])],
        false,
    );
    assert_eq!(msgs.len(), 1);
    assert!(matches!(msgs[0], ServerMsg::TtsEnd));
}

#[test]
fn stream_second_sentence_failure_preserves_first() {
    // the first sentence's audio arrives whole before the terminator
    let first: Vec<i16> = (0..6000).map(|i| i as i16).collect();
    let msgs = stream_sentences(
        vec![SynthOutcome::Audio(first.clone()), SynthOutcome::Failed, SynthOutcome::Audio(
            vec![7i16; 4000],
        )],
        false,
    );
    let mut delivered: Vec<i16> = Vec::new();
    for m in &msgs[..msgs.len() - 1] {
        match m {
            ServerMsg::TtsAudioChunk(c) => delivered.extend_from_slice(c),
            other => panic!("Expected TtsAudioChunk, got {other:?}"),
        }
    }
    assert!(matches!(msgs[msgs.len() - 1], ServerMsg::TtsEnd));
    assert_eq!(delivered, first);
}

#[test]
fn paused_response_yields_only_terminator() {
    // a response while paused sends exactly one terminator and no audio
    let msgs = response_wire_msgs(true, false, "Skipped", vec![SynthOutcome::Audio(
        vec![3i16; 8000],
    )]);
    assert_eq!(msgs.len(), 1);
    assert!(matches!(msgs[0], ServerMsg::TtsEnd));
}

#[test]
fn response_shows_display_line_then_audio() {
    let msgs = response_wire_msgs(false, false, "[SPEED:0.6] Hello", vec![SynthOutcome::Audio(
        vec![5i16; 100],
    )]);
    match &msgs[0] {
        ServerMsg::Text(t) => assert_eq!(t, "AI: Hello"),
        other => panic!("Expected Text, got {other:?}"),
    }
    assert!(matches!(msgs[1], ServerMsg::TtsAudioChunk(_)));
    assert!(matches!(msgs[2], ServerMsg::TtsEnd));
    assert_eq!(msgs.len(), 3);
}

#[test]
fn response_plan_strips_speed_marker() {
    let plan = plan_response(false, "[SPEED:0.6] Hello");
    assert!(!plan.skip);
    assert_eq!(plan.speed.as_deref(), Some("0.6"));
    assert_eq!(plan.display, "AI: Hello");
    assert_eq!(plan.sentences, vec!["Hello".to_string()]);
}

#[test]
fn paused_audio_segments_are_dropped() {
    // while paused the router drops audio instead of transcribing
    let a = stt_step(true, ClientMsg::AudioSegment(vec![0i16; 1600]));
    assert!(matches!(a, SttAction::DropAudio));
    let b = stt_step(false, ClientMsg::AudioSegment(vec![0i16; 1600]));
    match b {
        SttAction::Transcribe(v) => assert_eq!(v.len(), 1600),
        other => panic!("Expected Transcribe, got {other:?}"),
    }
}

#[test]
fn pause_resume_and_interrupt_set_flags() {
    assert!(matches!(stt_step(false, ClientMsg::PauseRequest), SttAction::SetPaused(true)));
    assert!(matches!(stt_step(true, ClientMsg::ResumeRequest), SttAction::SetPaused(false)));
    assert!(matches!(stt_step(false, ClientMsg::InterruptTts), SttAction::SetInterrupted));
}

#[test]
fn control_messages_forward_to_orchestrator() {
    match stt_step(false, ClientMsg::FeedbackChoice(true)) {
        SttAction::Forward(OrchestratorMsg::FeedbackChoice(p)) => assert!(p),
        other => panic!("Expected forwarded FeedbackChoice, got {other:?}"),
    }
    assert!(matches!(
        stt_step(false, ClientMsg::SummaryRequest),
        SttAction::Forward(OrchestratorMsg::SummaryRequest)
    ));
    assert!(matches!(
        stt_step(false, ClientMsg::CancelExchange),
        SttAction::Forward(OrchestratorMsg::CancelExchange)
    ));
}

#[test]
fn session_end_stops_the_speech_thread() {
    assert!(matches!(tts_step(OrchestratorMsg::SessionEnd), TtsStep::Stop));
}

#[test]
fn forwarded_kinds_reach_the_client_retagged() {
    match tts_step(OrchestratorMsg::FeedbackText("RED: x".into())) {
        TtsStep::ToClient(ServerMsg::Feedback(t)) => assert_eq!(t, "RED: x"),
        other => panic!("Expected Feedback, got {other:?}"),
    }
    match tts_step(OrchestratorMsg::SummaryResponse("# S".into())) {
        TtsStep::ToClient(ServerMsg::SessionSummary(t)) => assert_eq!(t, "# S"),
        other => panic!("Expected SessionSummary, got {other:?}"),
    }
    match tts_step(OrchestratorMsg::StatusNotification("Thinking...".into())) {
        TtsStep::ToClient(ServerMsg::StatusNotification(t)) => assert_eq!(t, "Thinking..."),
        other => panic!("Expected StatusNotification, got {other:?}"),
    }
}

#[test]
fn pause_resume_cycle_gates_transcription() {
    // audio flows, pausing drops it, resuming restores it
    let mut paused = false;
    match stt_step(paused, ClientMsg::PauseRequest) {
        SttAction::SetPaused(p) => paused = p,
        other => panic!("Expected SetPaused, got {other:?}"),
    }
    assert!(matches!(
        stt_step(paused, ClientMsg::AudioSegment(vec![0i16; 1600])),
        SttAction::DropAudio
    ));
    match stt_step(paused, ClientMsg::ResumeRequest) {
        SttAction::SetPaused(p) => paused = p,
        other => panic!("Expected SetPaused, got {other:?}"),
    }
    assert!(matches!(
        stt_step(paused, ClientMsg::AudioSegment(vec![0i16; 1600])),
        SttAction::Transcribe(_)
    ));
}

#[test]
fn stream_blends_sentence_boundaries() {
    // a loud tail into a quiet sentence: the seam is blended, the rest
    // of the second sentence is untouched
    let first = vec![10000i16; 4000];
    let second = vec![-5000i16; 4000];
    let msgs = stream_sentences(
        vec![SynthOutcome::Audio(first), SynthOutcome::Audio(second)],
        false,
    );
    let mut delivered: Vec<i16> = Vec::new();
    for m in &msgs[..msgs.len() - 1] {
        match m {
            ServerMsg::TtsAudioChunk(c) => delivered.extend_from_slice(c),
            other => panic!("Expected TtsAudioChunk, got {other:?}"),
        }
    }
    assert_eq!(delivered.len(), 8000);
    // the first blended sample sits near the loud tail
    assert!((delivered[4000] as i32 - 10000).abs() < 200);
    // past the blend the second sentence is unchanged
    assert_eq!(delivered[4000 + CROSSFADE_LEN], -5000);
    assert_eq!(delivered[7999], -5000);
}
