use vstd::prelude::*;
use vstd::string::StrSliceExecFns;

verus! {

/// The audio formats that the browser plays, named by their file extension.
#[derive(Clone, Copy, Debug, PartialEq, Eq, Structural)]
pub enum AudioFormat {
    Mp3,
    Wav,
    Ogg,
}

/// The format named by a three-letter extension, if it is one of the supported
/// ones; the match is exact and lower case.
pub open spec fn extension_format(a: char, b: char, c: char) -> Option<AudioFormat> {
    if a == 'm' && b == 'p' && c == '3' {
        Some(AudioFormat::Mp3)
    } else if a == 'w' && b == 'a' && c == 'v' {
        Some(AudioFormat::Wav)
    } else if a == 'o' && b == 'g' && c == 'g' {
        Some(AudioFormat::Ogg)
    } else {
        None
    }
}

/// The format of a path: its file name is a non-empty stem, a dot and one of
/// the supported extensions. A name that is only a dot and an extension
/// (`.mp3`) has no extension, as a hidden file.
pub open spec fn format_of(path: Seq<char>) -> Option<AudioFormat> {
    let n = path.len();
    if n < 5 || path[n - 5] == '/' || path[n - 4] != '.' {
        None
    } else {
        extension_format(path[n - 3], path[n - 2], path[n - 1])
    }
}

/// The format of a path, by its extension.
pub fn audio_format(path: &str) -> (r: Option<AudioFormat>)
    ensures
        r == format_of(path@),
{
    let n = path.unicode_len();
    if n < 5 {
        return None;
    }
    if path.get_char(n - 5) == '/' || path.get_char(n - 4) != '.' {
        return None;
    }
    let a = path.get_char(n - 3);
    let b = path.get_char(n - 2);
    let c = path.get_char(n - 1);
    if a == 'm' && b == 'p' && c == '3' {
        Some(AudioFormat::Mp3)
    } else if a == 'w' && b == 'a' && c == 'v' {
        Some(AudioFormat::Wav)
    } else if a == 'o' && b == 'g' && c == 'g' {
        Some(AudioFormat::Ogg)
    } else {
        None
    }
}


/// One discovered audio file: its path and its format.
#[derive(Debug)]
pub struct Track {
    pub path: String,
    pub format: AudioFormat,
}

impl View for Track {
    type V = (Seq<char>, AudioFormat);

    open spec fn view(&self) -> (Seq<char>, AudioFormat) {
        (self.path@, self.format)
    }
}

/// What the directory walk reports for one entry: an entry that could be
/// read, with its path and whether it is a regular file, or one that could not
/// (a permission error, a broken link, a link cycle), with the reason.
#[derive(Debug)]
pub enum ScanEntry {
    Found { path: String, is_file: bool },
    Unreadable { reason: String },
}

/// The Library built from a walk, in walk order, and the reasons of the
/// entries that were skipped.
#[derive(Debug)]
pub struct ScanReport {
    pub library: Vec<Track>,
    pub skipped: Vec<String>,
}

pub open spec fn tracks_view(tracks: Seq<Track>) -> Seq<(Seq<char>, AudioFormat)> {
    tracks.map_values(|t: Track| t@)
}

pub open spec fn strings_view(v: Seq<String>) -> Seq<Seq<char>> {
    v.map_values(|s: String| s@)
}

/// The Track that an entry contributes: a regular file with a supported
/// extension gives one, anything else none.
pub open spec fn track_of(e: ScanEntry) -> Option<(Seq<char>, AudioFormat)> {
    match e {
        ScanEntry::Found { path, is_file } => {
            if is_file && format_of(path@) is Some {
                Some((path@, format_of(path@)->0))
            } else {
                None
            }
        },
        ScanEntry::Unreadable { .. } => None,
    }
}

/// The Library of a walk: the Tracks of its entries, in walk order.
pub open spec fn library_of(entries: Seq<ScanEntry>) -> Seq<(Seq<char>, AudioFormat)>
    decreases entries.len(),
{
    if entries.len() == 0 {
        Seq::empty()
    } else {
        let rest = library_of(entries.drop_last());
        match track_of(entries.last()) {
            Some(t) => rest.push(t),
            None => rest,
        }
    }
}

/// The reasons of the unreadable entries of a walk, in walk order.
pub open spec fn skips_of(entries: Seq<ScanEntry>) -> Seq<Seq<char>>
    decreases entries.len(),
{
    if entries.len() == 0 {
        Seq::empty()
    } else {
        let rest = skips_of(entries.drop_last());
        match entries.last() {
            ScanEntry::Unreadable { reason } => rest.push(reason@),
            ScanEntry::Found { .. } => rest,
        }
    }
}

/// Builds the Library from the entries of a walk. An unreadable entry is
/// recorded and skipped; it never ends the scan.
pub fn build_library(entries: &Vec<ScanEntry>) -> (r: ScanReport)
    ensures
        tracks_view(r.library@) == library_of(entries@),
        strings_view(r.skipped@) == skips_of(entries@),
        forall|k: int|
            0 <= k < r.library@.len() ==> format_of((#[trigger] r.library@[k]).path@) == Some(
                r.library@[k].format,
            ),
{
    let mut library: Vec<Track> = Vec::new();
    let mut skipped: Vec<String> = Vec::new();
    let mut i: usize = 0;
    while i < entries.len()
        invariant
            i <= entries.len(),
            tracks_view(library@) == library_of(entries@.subrange(0, i as int)),
            strings_view(skipped@) == skips_of(entries@.subrange(0, i as int)),
        decreases entries.len() - i,
    {
        let ghost before = entries@.subrange(0, i as int);
        let ghost upto = entries@.subrange(0, i as int + 1);
        assert(upto.drop_last() =~= before);
        assert(upto.last() == entries@[i as int]);
        match &entries[i] {
            ScanEntry::Found { path, is_file } => {
                if *is_file {
                    match audio_format(path.as_str()) {
                        Some(format) => {
                            library.push(Track { path: path.clone(), format });
                            assert(tracks_view(library@) =~= tracks_view(library@).drop_last().push(
                                (path@, format),
                            ));
                            assert(tracks_view(library@).drop_last() =~= library_of(before));
                        },
                        None => {},
                    }
                }
            },
            ScanEntry::Unreadable { reason } => {
                skipped.push(reason.clone());
                assert(strings_view(skipped@).drop_last() =~= skips_of(before));
                assert(strings_view(skipped@) =~= skips_of(before).push(reason@));
            },
        }
        i = i + 1;
    }
    assert(entries@.subrange(0, i as int) =~= entries@);
    proof {
        lemma_library_sources(entries@);
        assert forall|k: int| 0 <= k < library@.len() implies format_of(
            (#[trigger] library@[k]).path@,
        ) == Some(library@[k].format) by {
            assert(tracks_view(library@)[k] == library@[k]@);
            let j = choose|j: int|
                0 <= j < entries@.len() && #[trigger] track_of(entries@[j]) == Some(
                    library_of(entries@)[k],
                );
        }
    }
    ScanReport { library, skipped }
}


/// The walk reaches each entry once: no two readable entries share a path.
pub open spec fn walk_paths_distinct(entries: Seq<ScanEntry>) -> bool {
    forall|i: int, j: int|
        0 <= i < j < entries.len() && entries[i] is Found && entries[j] is Found ==> (
        #[trigger] entries[i])->Found_path@ != (#[trigger] entries[j])->Found_path@
}

/// Some entry of the walk is a regular file at `path` with a supported extension.
pub open spec fn reached_track(entries: Seq<ScanEntry>, path: Seq<char>) -> bool {
    exists|j: int|
        0 <= j < entries.len() && (#[trigger] track_of(entries[j])) is Some
            && entries[j]->Found_path@ == path
}

/// Every file with a supported extension that the walk reaches stands in the
/// Library exactly once, with its format; nothing else stands there.
pub proof fn lemma_library_holds_each_track_once(entries: Seq<ScanEntry>)
    requires
        walk_paths_distinct(entries),
    ensures
        forall|path: Seq<char>|
            (exists|k: int|
                0 <= k < library_of(entries).len() && (#[trigger] library_of(entries)[k]).0
                    == path) <==> reached_track(entries, path),
        forall|k1: int, k2: int|
            0 <= k1 < k2 < library_of(entries).len() ==> (#[trigger] library_of(entries)[k1]).0
                != (#[trigger] library_of(entries)[k2]).0,
        forall|k: int|
            0 <= k < library_of(entries).len() ==> format_of((#[trigger] library_of(
                entries,
            )[k]).0) == Some(library_of(entries)[k].1),
{
    lemma_library_sources(entries);
    lemma_library_distinct(entries);
    let lib = library_of(entries);
    assert forall|path: Seq<char>|
        (exists|k: int| 0 <= k < lib.len() && (#[trigger] lib[k]).0 == path) <==> reached_track(
            entries,
            path,
        ) by {
        if exists|k: int| 0 <= k < lib.len() && (#[trigger] lib[k]).0 == path {
            let k = choose|k: int| 0 <= k < lib.len() && (#[trigger] lib[k]).0 == path;
            let j = choose|j: int|
                0 <= j < entries.len() && #[trigger] track_of(entries[j]) == Some(lib[k]);
            assert(track_of(entries[j]) is Some);
        }
        if reached_track(entries, path) {
            let j = choose|j: int|
                0 <= j < entries.len() && (#[trigger] track_of(entries[j])) is Some
                    && entries[j]->Found_path@ == path;
            let k = choose|k: int|
                0 <= k < lib.len() && #[trigger] lib[k] == track_of(entries[j])->0;
            assert(lib[k].0 == path);
        }
    }
    assert forall|k: int| 0 <= k < lib.len() implies format_of((#[trigger] lib[k]).0) == Some(
        lib[k].1,
    ) by {
        let j = choose|j: int|
            0 <= j < entries.len() && #[trigger] track_of(entries[j]) == Some(lib[k]);
    }
}

/// Each Track of the Library comes from an entry of the walk, and each entry
/// that gives a Track is in the Library.
proof fn lemma_library_sources(entries: Seq<ScanEntry>)
    ensures
        forall|k: int|
            0 <= k < library_of(entries).len() ==> exists|j: int|
                0 <= j < entries.len() && #[trigger] track_of(entries[j]) == Some(
                    #[trigger] library_of(entries)[k],
                ),
        forall|j: int|
            0 <= j < entries.len() && (#[trigger] track_of(entries[j])) is Some ==> exists|k: int|
                0 <= k < library_of(entries).len() && #[trigger] library_of(entries)[k]
                    == track_of(entries[j])->0,
    decreases entries.len(),
{
    if entries.len() > 0 {
        let rest = entries.drop_last();
        let n = entries.len() - 1;
        lemma_library_sources(rest);
        assert forall|j: int| 0 <= j < rest.len() implies #[trigger] rest[j] == entries[j] by {}
        let prev = library_of(rest);
        let lib = library_of(entries);
        assert forall|k: int| 0 <= k < lib.len() implies exists|j: int|
            0 <= j < entries.len() && #[trigger] track_of(entries[j]) == Some(
                #[trigger] lib[k],
            ) by {
            if k < prev.len() {
                assert(lib[k] == prev[k]);
                let j = choose|j: int|
                    0 <= j < rest.len() && #[trigger] track_of(rest[j]) == Some(prev[k]);
                assert(track_of(entries[j]) == Some(lib[k]));
            } else {
                assert(track_of(entries[n]) == Some(lib[k]));
            }
        }
        assert forall|j: int|
            0 <= j < entries.len() && (#[trigger] track_of(entries[j])) is Some implies exists|k: int|
                0 <= k < lib.len() && #[trigger] lib[k] == track_of(entries[j])->0 by {
            if j < n {
                assert(track_of(rest[j]) is Some);
                let k = choose|k: int|
                    0 <= k < prev.len() && #[trigger] prev[k] == track_of(rest[j])->0;
                assert(lib[k] == prev[k]);
            } else {
                assert(lib[prev.len() as int] == track_of(entries[j])->0);
            }
        }
    }
}

/// No two Tracks of the Library share a path when the walk reaches each entry once.
proof fn lemma_library_distinct(entries: Seq<ScanEntry>)
    requires
        walk_paths_distinct(entries),
    ensures
        forall|k1: int, k2: int|
            0 <= k1 < k2 < library_of(entries).len() ==> (#[trigger] library_of(entries)[k1]).0
                != (#[trigger] library_of(entries)[k2]).0,
    decreases entries.len(),
{
    if entries.len() > 0 {
        let rest = entries.drop_last();
        let n = entries.len() - 1;
        assert forall|j: int| 0 <= j < rest.len() implies #[trigger] rest[j] == entries[j] by {}
        lemma_library_distinct(rest);
        lemma_library_sources(rest);
        let prev = library_of(rest);
        let lib = library_of(entries);
        if track_of(entries.last()) is Some {
            assert forall|k: int| 0 <= k < prev.len() implies (#[trigger] prev[k]).0 != lib[n
                - (n - prev.len())].0 by {
                let j = choose|j: int|
                    0 <= j < rest.len() && #[trigger] track_of(rest[j]) == Some(prev[k]);
                assert(entries[j] is Found && entries[n] is Found);
                assert(entries[j]->Found_path@ != entries[n]->Found_path@);
            }
        }
    }
}

} // verus!
