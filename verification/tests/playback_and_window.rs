use shader_experiment::playback::{clamp_index, feature_index, PlaybackState};
use shader_experiment::window::slide_window;

fn state(pos: u64, playing: bool, finished: bool) -> PlaybackState {
    PlaybackState { position_samples: pos, playing, finished }
}

#[test]
fn playback_default_is_stopped_at_start() {
    let s = PlaybackState::default();
    assert_eq!(s.position_samples, 0);
    assert!(!s.playing);
    assert!(!s.finished);
}

#[test]
fn play_after_end_restarts_from_zero() {
    let mut s = state(10, true, false);
    s.advance(500, 100);
    assert_eq!(s.position_samples, 100);
    assert!(s.finished);
    assert!(!s.playing);
    assert!(!s.is_audible());
    s.play();
    assert_eq!(s.position_samples, 0);
    assert!(s.playing);
    assert!(!s.finished);
}

#[test]
fn play_mid_track_keeps_position() {
    let mut s = state(42, false, false);
    s.play();
    assert_eq!(s.position_samples, 42);
    assert!(s.playing && s.is_audible());
    s.pause();
    assert_eq!(s.position_samples, 42);
    assert!(!s.playing && !s.is_audible());
}

#[test]
fn seek_clamps_to_track_and_clears_finished() {
    let mut s = state(100, false, true);
    s.seek(30, 100);
    assert_eq!(s.position_samples, 30);
    assert!(!s.finished);
    s.seek(1_000, 100);
    assert_eq!(s.position_samples, 100);
    s.seek(0, 0);
    assert_eq!(s.position_samples, 0);
}

#[test]
fn advance_inside_track_moves_head() {
    let mut s = state(0, true, false);
    s.advance(99, 100);
    assert_eq!(s.position_samples, 99);
    assert!(s.playing && !s.finished);
    s.advance(100, 100);
    assert_eq!(s.position_samples, 100);
    assert!(s.finished && !s.playing);
}

#[test]
fn feature_index_clamps_to_last_frame() {
    assert_eq!(feature_index(0, 1024, 10), 0);
    assert_eq!(feature_index(1023, 1024, 10), 0);
    assert_eq!(feature_index(1024, 1024, 10), 1);
    assert_eq!(feature_index(1_000_000, 1024, 10), 9);
    assert_eq!(feature_index(5_000, 1024, 0), 0);
}

#[test]
fn clamp_index_edges() {
    assert_eq!(clamp_index(3, 0), 0);
    assert_eq!(clamp_index(3, 4), 3);
    assert_eq!(clamp_index(4, 4), 3);
    assert_eq!(clamp_index(usize::MAX, 4), 3);
}

#[test]
fn slide_window_short_chunk_shifts() {
    let mut w = vec![1, 2, 3, 4, 5];
    slide_window(&mut w, &[6, 7]);
    assert_eq!(w, vec![3, 4, 5, 6, 7]);
}

#[test]
fn slide_window_long_chunk_keeps_tail() {
    let mut w = vec![1, 2, 3];
    slide_window(&mut w, &[10, 11, 12, 13, 14]);
    assert_eq!(w, vec![12, 13, 14]);
}

#[test]
fn slide_window_equal_and_empty_chunks() {
    let mut w = vec![1.0f32, 2.0, 3.0];
    slide_window(&mut w, &[4.0, 5.0, 6.0]);
    assert_eq!(w, vec![4.0, 5.0, 6.0]);
    slide_window(&mut w, &[]);
    assert_eq!(w, vec![4.0, 5.0, 6.0]);
    let mut empty: Vec<u8> = Vec::new();
    slide_window(&mut empty, &[1, 2]);
    assert!(empty.is_empty());
}

#[test]
fn slide_window_keeps_last_samples_of_stream() {
    let mut w = vec![0u32; 4];
    let mut stream = vec![0u32; 4];
    for chunk in [vec![1, 2, 3], vec![4], vec![5, 6, 7, 8, 9], vec![10, 11]] {
        slide_window(&mut w, &chunk);
        stream.extend_from_slice(&chunk);
        assert_eq!(w, stream[stream.len() - 4..].to_vec());
    }
}
