use music_browser::controller::{Controller, Event, Key, Phase};
use music_browser::engine::DecodeOpenError;
use music_browser::library::{build_library, ScanEntry};

fn browsing(names: &[&str]) -> Controller {
    let entries: Vec<ScanEntry> = names
        .iter()
        .map(|n| ScanEntry::Found { path: format!("/music/{}", n), is_file: true })
        .collect();
    let mut c = Controller::new();
    let r = c.handle(Event::Scanned(build_library(&entries)));
    assert!(r.redraw);
    c
}

fn press(c: &mut Controller, k: Key) -> music_browser::controller::Reaction {
    c.handle(Event::Pressed(k))
}

#[test]
fn scan_opens_browsing_at_first_track() {
    let c = browsing(&["a.mp3", "b.wav"]);
    assert_eq!(c.phase(), Phase::Browsing);
    assert_eq!(c.selection(), Some(0));
    assert_eq!(c.library().len(), 2);
}

#[test]
fn empty_library_disables_selection() {
    let mut c = browsing(&[]);
    assert_eq!(c.selection(), None);
    press(&mut c, Key::Down);
    press(&mut c, Key::Up);
    assert_eq!(c.selection(), None);
    let r = press(&mut c, Key::Confirm);
    assert!(r.play.is_none());
}

#[test]
fn selection_is_clamped_at_both_ends() {
    let mut c = browsing(&["a.mp3", "b.mp3", "c.mp3"]);
    press(&mut c, Key::Up);
    assert_eq!(c.selection(), Some(0));
    press(&mut c, Key::Down);
    assert_eq!(c.selection(), Some(1));
    press(&mut c, Key::Down);
    press(&mut c, Key::Down);
    press(&mut c, Key::Down);
    assert_eq!(c.selection(), Some(2));
    press(&mut c, Key::Up);
    assert_eq!(c.selection(), Some(1));
}

#[test]
fn confirm_plays_selected_track() {
    let mut c = browsing(&["a.mp3", "b.ogg"]);
    press(&mut c, Key::Down);
    let r = press(&mut c, Key::Confirm);
    assert_eq!(r.play.as_deref(), Some("/music/b.ogg"));
    assert!(!r.shutdown);
}

#[test]
fn failed_play_annotates_and_keeps_selection() {
    let mut c = browsing(&["a.mp3", "gone.mp3"]);
    press(&mut c, Key::Down);
    let r = press(&mut c, Key::Confirm);
    let path = r.play.unwrap();
    let err = DecodeOpenError { path: path.clone(), reason: "No such file or directory".to_string() };
    let r = c.handle(Event::PlaybackFailed(err));
    assert!(r.redraw);
    assert_eq!(c.selection(), Some(1));
    assert_eq!(c.library().len(), 2);
    let e = c.error().unwrap();
    assert_eq!(e.path, "/music/gone.mp3");
    assert_eq!(e.reason, "No such file or directory");
    c.handle(Event::PlaybackStarted);
    assert!(c.error().is_none());
}

#[test]
fn quit_orders_teardown_once() {
    let mut c = browsing(&["a.mp3"]);
    let r = press(&mut c, Key::Quit);
    assert!(r.shutdown);
    assert_eq!(c.phase(), Phase::Exiting);
    let r = press(&mut c, Key::Quit);
    assert!(!r.shutdown);
    let r = press(&mut c, Key::Down);
    assert!(!r.redraw && !r.shutdown);
}

#[test]
fn keys_wait_for_the_scan() {
    let mut c = Controller::new();
    let r = press(&mut c, Key::Quit);
    assert!(!r.shutdown);
    assert_eq!(c.phase(), Phase::Loading);
}

#[test]
fn list_view_highlights_the_selection() {
    let mut c = browsing(&["a.mp3", "b.mp3", "c.mp3"]);
    press(&mut c, Key::Down);
    press(&mut c, Key::Down);
    let v = c.list_view();
    assert_eq!(v.title, "Music Library");
    assert_eq!(v.rows, vec!["/music/a.mp3", "/music/b.mp3", "/music/c.mp3"]);
    assert_eq!(v.highlighted, Some(2));
    assert!(v.status.is_none());
}

#[test]
fn skip_count_reaches_the_view() {
    let entries = vec![
        ScanEntry::Unreadable { reason: "loop".to_string() },
        ScanEntry::Found { path: "/m/a.wav".to_string(), is_file: true },
    ];
    let mut c = Controller::new();
    c.handle(Event::Scanned(build_library(&entries)));
    assert_eq!(c.skipped(), 1);
    assert_eq!(c.list_view().skipped, 1);
}
