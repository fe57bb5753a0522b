use music_browser::controller::Event;
use music_browser::engine::{DecodeOpenError, EngineState, PlayOrder, PlaybackEngine};

fn start(e: &mut PlaybackEngine, path: &str) -> bool {
    match e.load_and_play(path) {
        PlayOrder::Start { stop_previous, path: p } => {
            assert_eq!(p, path);
            stop_previous
        }
        PlayOrder::DeviceReleased => panic!("device released"),
    }
}

#[test]
fn second_play_terminates_first() {
    let mut e = PlaybackEngine::new();
    assert!(!start(&mut e, "/m/a.mp3"));
    assert!(matches!(e.play_outcome(Ok(())), Event::PlaybackStarted));
    assert!(e.state().session_active);
    assert!(start(&mut e, "/m/b.mp3"));
    assert!(!e.state().session_active);
    e.play_outcome(Ok(()));
    assert_eq!(e.state(), EngineState { device_open: true, session_active: true });
}

#[test]
fn failed_start_leaves_no_session() {
    let mut e = PlaybackEngine::new();
    start(&mut e, "/m/a.mp3");
    e.play_outcome(Ok(()));
    start(&mut e, "/m/gone.mp3");
    let err = DecodeOpenError { path: "/m/gone.mp3".to_string(), reason: "missing".to_string() };
    match e.play_outcome(Err(err)) {
        Event::PlaybackFailed(d) => assert_eq!(d.path, "/m/gone.mp3"),
        _ => panic!("expected a failure"),
    }
    assert!(!e.state().session_active);
}

#[test]
fn stop_is_idempotent() {
    let mut e = PlaybackEngine::new();
    assert!(!e.stop());
    start(&mut e, "/m/a.mp3");
    e.play_outcome(Ok(()));
    assert!(e.stop());
    assert!(!e.stop());
}

#[test]
fn shutdown_releases_device_once() {
    let mut e = PlaybackEngine::new();
    start(&mut e, "/m/a.mp3");
    e.play_outcome(Ok(()));
    let t = e.shutdown();
    assert!(t.stop_session && t.release_device);
    let t = e.shutdown();
    assert!(!t.stop_session && !t.release_device);
    assert!(matches!(e.load_and_play("/m/a.mp3"), PlayOrder::DeviceReleased));
}
