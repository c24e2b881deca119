use byok_server::output::{
    emit_status, is_end_stream_frame, OutputState, MAX_REPLAY_BYTES, MAX_REPLAY_FRAMES,
};

#[test]
fn an_output_with_too_many_frames_refuses_replay() {
    let mut state = OutputState::new();
    for _ in 0..=MAX_REPLAY_FRAMES {
        assert!(state.record(b"frame"));
    }
    assert!(state.replay().is_none());
    assert!(state.history.is_empty());
    assert!(state.record(b"later"));
    assert!(state.replay().is_none());
}

#[test]
fn a_fitting_history_replays_in_order() {
    let mut state = OutputState::new();
    assert!(state.record(b"one"));
    assert!(state.record(b"two"));
    let frames = state.replay().unwrap();
    assert_eq!(frames, vec![b"one".to_vec(), b"two".to_vec()]);
    assert_eq!(state.history_bytes, 6);
}

#[test]
fn the_last_frame_that_fits_is_kept() {
    let mut state = OutputState::new();
    for _ in 0..MAX_REPLAY_FRAMES {
        assert!(state.record(b"x"));
    }
    assert_eq!(state.replay().unwrap().len(), MAX_REPLAY_FRAMES);
}

#[test]
fn a_frame_beyond_the_byte_capacity_ends_replay() {
    let mut state = OutputState::new();
    let big = vec![0u8; MAX_REPLAY_BYTES];
    assert!(state.record(&big));
    assert_eq!(state.history_bytes, MAX_REPLAY_BYTES);
    assert!(state.record(b"y"));
    assert!(!state.replayable);
    assert_eq!(state.history_bytes, 0);
}

#[test]
fn a_closed_output_takes_no_frames() {
    let mut state = OutputState::new();
    assert!(state.record(b"one"));
    assert!(state.close());
    assert!(!state.close());
    assert!(!state.record(b"two"));
    assert_eq!(state.replay().unwrap(), vec![b"one".to_vec()]);
}

#[test]
fn evicting_the_last_subscriber_is_reported() {
    let status = emit_status(true, true, 0);
    assert!(status.accepted && status.last_subscriber_evicted);
    assert!(!emit_status(true, false, 0).last_subscriber_evicted);
    assert!(!emit_status(true, true, 1).last_subscriber_evicted);
}

#[test]
fn only_a_frame_with_the_end_flag_ends_the_stream() {
    assert!(is_end_stream_frame(&[0x02, 0, 0, 0, 0]));
    assert!(is_end_stream_frame(&[0x03]));
    assert!(!is_end_stream_frame(&[0x00, 0, 0, 0, 1, b'x']));
    assert!(!is_end_stream_frame(&[]));
}
