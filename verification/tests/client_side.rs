use space_lt::client::{backoff_delay_secs, cancel_key_plan, feedback_action_for_key,
    find_arg_value, format_timestamp, normalize_server_addr, poll_action_for_key, CancelPlan,
    ClientRx, FeedbackAction, PollAction, ReplayBuffer, REPLAY_BUFFER_MAX_SAMPLES};
use space_lt::playback::PlaybackBuffer;
use space_lt::router::stt_transcription_msgs;
use space_lt::protocol::{OrchestratorMsg, ServerMsg};

#[test]
fn find_arg_value_returns_following_argument() {
    let args: Vec<String> = vec![
        "prog".to_string(),
        "--server".to_string(),
        "10.0.0.2:9500".to_string(),
        "--debug".to_string(),
    ];
    assert_eq!(find_arg_value(&args, "--server"), Some("10.0.0.2:9500".to_string()));
    assert_eq!(find_arg_value(&args, "--port"), None);
    assert_eq!(find_arg_value(&args, "--debug"), None);
}

#[test]
fn server_addr_gets_default_port() {
    assert_eq!(normalize_server_addr("10.0.0.2"), "10.0.0.2:9500");
    assert_eq!(normalize_server_addr("10.0.0.2:7000"), "10.0.0.2:7000");
}

#[test]
fn backoff_is_one_then_two_seconds() {
    assert_eq!(backoff_delay_secs(2), 1);
    assert_eq!(backoff_delay_secs(3), 2);
}

#[test]
fn idle_keys_quit_replay_cancel() {
    assert_eq!(poll_action_for_key('q'), PollAction::Quit);
    assert_eq!(poll_action_for_key('3'), PollAction::Replay);
    assert_eq!(poll_action_for_key('4'), PollAction::Cancel);
    assert_eq!(poll_action_for_key('x'), PollAction::NoBinding);
}

#[test]
fn feedback_keys_map_to_choices() {
    assert_eq!(feedback_action_for_key('1', false), Some(FeedbackAction::Continue));
    assert_eq!(feedback_action_for_key('2', false), Some(FeedbackAction::Retry));
    assert_eq!(feedback_action_for_key('3', false), Some(FeedbackAction::Replay));
    assert_eq!(feedback_action_for_key('4', false), Some(FeedbackAction::Cancel));
    assert_eq!(feedback_action_for_key(' ', true), Some(FeedbackAction::Cancel));
    assert_eq!(feedback_action_for_key('z', false), None);
}

#[test]
fn cancel_key_interrupts_during_playback_only() {
    assert_eq!(cancel_key_plan(true, false), CancelPlan::InterruptAndCancel);
    assert_eq!(cancel_key_plan(false, false), CancelPlan::CancelOnly);
    assert_eq!(cancel_key_plan(false, true), CancelPlan::Nothing);
}

#[test]
fn replay_buffer_caps_at_five_minutes() {
    let mut buf = ReplayBuffer::new();
    let big = vec![1i16; REPLAY_BUFFER_MAX_SAMPLES - 100];
    buf.append_capped(&big);
    assert!(!buf.is_empty());
    // a chunk passing the bound is dropped whole
    let over = vec![2i16; 200];
    buf.append_capped(&over);
    let chunks = buf.replay_chunks();
    let total: usize = chunks.iter().map(|c| c.len()).sum();
    assert_eq!(total, REPLAY_BUFFER_MAX_SAMPLES - 100);
    buf.clear();
    assert!(buf.is_empty());
}

#[test]
fn replay_chunks_are_at_most_four_thousand_samples() {
    let mut buf = ReplayBuffer::new();
    buf.append_capped(&vec![7i16; 9000]);
    let chunks = buf.replay_chunks();
    let sizes: Vec<usize> = chunks.iter().map(|c| c.len()).collect();
    assert_eq!(sizes, vec![4000, 4000, 1000]);
}

#[test]
fn rx_first_chunk_starts_playback_and_clears_stale_cancel() {
    let mut rx = ClientRx::new();
    rx.cancel_requested = true;
    rx.on_tts_chunk(&vec![1i16; 100]);
    assert!(rx.is_playing);
    assert!(!rx.cancel_requested);
}

#[test]
fn rx_tts_end_resets_playback() {
    let mut rx = ClientRx::new();
    rx.on_tts_chunk(&vec![1i16; 100]);
    let cancelled = rx.on_tts_end();
    assert!(!cancelled);
    assert!(!rx.is_playing);
}

#[test]
fn rx_cancel_during_playback_drops_replay_audio() {
    let mut rx = ClientRx::new();
    rx.on_tts_chunk(&vec![1i16; 100]);
    rx.cancel_requested = true;
    let cancelled = rx.on_tts_end();
    assert!(cancelled);
    assert!(rx.replay.is_empty());
}

#[test]
fn rx_new_response_line_clears_replay() {
    let mut rx = ClientRx::new();
    rx.on_tts_chunk(&vec![1i16; 100]);
    rx.on_tts_end();
    assert!(!rx.replay.is_empty());
    rx.on_text("AI: Hello again");
    assert!(rx.replay.is_empty());
    rx.on_tts_chunk(&vec![1i16; 100]);
    rx.on_text("You: something");
    assert!(!rx.replay.is_empty());
}

#[test]
fn playback_drains_leftover_then_stashes_overflow() {
    let mut buf = PlaybackBuffer::new(16000);
    // nothing pending yet
    assert_eq!(buf.drain(4), Vec::<i16>::new());
    // a chunk bigger than the space: the head plays, the tail is stashed
    let chunk = vec![5i16; 10];
    let now = buf.push_chunk(&chunk, 6);
    assert_eq!(now, vec![5i16; 6]);
    assert_eq!(buf.pending_len(), 4);
    // the stash drains first on the next callback
    let drained = buf.drain(100);
    assert_eq!(drained, vec![5i16; 4]);
    assert_eq!(buf.pending_len(), 0);
}

#[test]
fn playback_leftover_is_bounded() {
    let mut buf = PlaybackBuffer::new(8);
    let chunk = vec![1i16; 100];
    let now = buf.push_chunk(&chunk, 0);
    assert!(now.is_empty());
    assert_eq!(buf.pending_len(), 8);
    buf.clear();
    assert_eq!(buf.pending_len(), 0);
}

#[test]
fn timestamp_is_zero_padded() {
    assert_eq!(format_timestamp(2026, 3, 7, 9, 5), "2026-03-07_09-05");
    assert_eq!(format_timestamp(999, 12, 31, 23, 59), "0999-12-31_23-59");
}

#[test]
fn empty_transcription_is_dropped() {
    assert!(stt_transcription_msgs("").is_none());
    match stt_transcription_msgs("Hello world") {
        Some((ServerMsg::Text(d), OrchestratorMsg::TranscribedText(t))) => {
            assert_eq!(d, "You: Hello world");
            assert_eq!(t, "Hello world");
        }
        other => panic!("Expected display and forward messages, got {other:?}"),
    }
}
