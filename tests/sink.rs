use csengo::sink::{frame_len, now_playing_change, SinkState, DEFAULT_FRAME_LEN, SILENCE_MILLIS};
use csengo::task::NowPlaying;

#[test]
fn tracks_play_in_append_order() {
    let mut s: SinkState<&str> = SinkState::new();
    s.append("a");
    s.append("b");
    assert_eq!(s.queue_len(), 2);
    assert_eq!(s.next_track(), Some("a"));
    s.append("c");
    assert_eq!(s.next_track(), Some("b"));
    assert_eq!(s.next_track(), Some("c"));
    assert_eq!(s.next_track(), None);
}

#[test]
fn stop_clears_queue_and_append_resumes() {
    let mut s: SinkState<&str> = SinkState::new();
    s.append("long");
    s.append("queued");
    assert_eq!(s.next_track(), Some("long"));
    s.stop();
    assert!(s.is_stopped());
    assert_eq!(s.queue_len(), 0);
    assert_eq!(s.next_track(), None);
    s.append("after");
    assert!(!s.is_stopped());
    assert_eq!(s.next_track(), Some("after"));
}

#[test]
fn empty_queue_frame_len_is_never_zero() {
    assert_eq!(SILENCE_MILLIS, 500);
    assert_eq!(frame_len(None, 0), DEFAULT_FRAME_LEN);
    assert_eq!(frame_len(Some(0), 0), 512);
    assert_eq!(frame_len(Some(0), 7), 7);
    assert_eq!(frame_len(Some(1024), 7), 1024);
    assert_eq!(frame_len(None, 22050), 22050);
}

#[test]
fn now_playing_follows_named_tracks() {
    let prev: Option<NowPlaying> = None;
    assert_eq!(
        now_playing_change(&prev, &Some("a.mp3".to_string())),
        Some(Some(NowPlaying { name: "a.mp3".to_string() }))
    );
    assert_eq!(now_playing_change(&prev, &None), None);
    let playing = Some(NowPlaying { name: "a.mp3".to_string() });
    assert_eq!(now_playing_change(&playing, &None), Some(None));
    assert_eq!(
        now_playing_change(&playing, &Some("b.mp3".to_string())),
        Some(Some(NowPlaying { name: "b.mp3".to_string() }))
    );
}
