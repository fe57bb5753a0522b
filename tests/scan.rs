use music_browser::library::{audio_format, build_library, AudioFormat, ScanEntry};

fn file(path: &str) -> ScanEntry {
    ScanEntry::Found { path: path.to_string(), is_file: true }
}

fn dir(path: &str) -> ScanEntry {
    ScanEntry::Found { path: path.to_string(), is_file: false }
}

#[test]
fn example_music_directory() {
    let entries = vec![dir("/music"), file("/music/a.mp3"), file("/music/b.txt"), file("/music/c.wav")];
    let report = build_library(&entries);
    let paths: Vec<&str> = report.library.iter().map(|t| t.path.as_str()).collect();
    assert_eq!(paths, vec!["/music/a.mp3", "/music/c.wav"]);
    assert_eq!(report.library[0].format, AudioFormat::Mp3);
    assert_eq!(report.library[1].format, AudioFormat::Wav);
    assert!(report.skipped.is_empty());
}

#[test]
fn unreadable_entry_is_skipped_not_fatal() {
    let mut entries = vec![dir("/music")];
    for i in 0..9 {
        if i == 4 {
            entries.push(ScanEntry::Unreadable { reason: "permission denied".to_string() });
        }
        entries.push(file(&format!("/music/track{}.ogg", i)));
    }
    let report = build_library(&entries);
    assert_eq!(report.library.len(), 9);
    assert_eq!(report.skipped, vec!["permission denied".to_string()]);
    assert_eq!(report.library[4].path, "/music/track4.ogg");
}

#[test]
fn every_supported_file_once_in_walk_order() {
    let entries = vec![
        dir("/r"),
        file("/r/z.ogg"),
        dir("/r/sub"),
        file("/r/sub/a.mp3"),
        file("/r/sub/notes.md"),
        file("/r/sub/b.wav"),
        file("/r/cover.jpg"),
    ];
    let report = build_library(&entries);
    let paths: Vec<&str> = report.library.iter().map(|t| t.path.as_str()).collect();
    assert_eq!(paths, vec!["/r/z.ogg", "/r/sub/a.mp3", "/r/sub/b.wav"]);
}

#[test]
fn directory_named_like_a_track_is_not_a_track() {
    let report = build_library(&vec![dir("/r/album.mp3"), file("/r/album.mp3/x.wav")]);
    assert_eq!(report.library.len(), 1);
    assert_eq!(report.library[0].path, "/r/album.mp3/x.wav");
}

#[test]
fn empty_walk_gives_empty_library() {
    let report = build_library(&vec![]);
    assert!(report.library.is_empty());
    assert!(report.skipped.is_empty());
}

#[test]
fn extension_rule() {
    assert_eq!(audio_format("/m/song.mp3"), Some(AudioFormat::Mp3));
    assert_eq!(audio_format("/m/song.wav"), Some(AudioFormat::Wav));
    assert_eq!(audio_format("/m/song.ogg"), Some(AudioFormat::Ogg));
    assert_eq!(audio_format("a.mp3"), Some(AudioFormat::Mp3));
    assert_eq!(audio_format("/m/a.b.ogg"), Some(AudioFormat::Ogg));
    assert_eq!(audio_format("/m/song.MP3"), None);
    assert_eq!(audio_format("/m/song.flac"), None);
    assert_eq!(audio_format("/m/song.mp3.txt"), None);
    assert_eq!(audio_format("/m/.mp3"), None);
    assert_eq!(audio_format(".mp3"), None);
    assert_eq!(audio_format("mp3"), None);
    assert_eq!(audio_format("/m/songmp3"), None);
    assert_eq!(audio_format(""), None);
    assert_eq!(audio_format("/m/é.ogg"), Some(AudioFormat::Ogg));
}
