use vstd::prelude::*;
use vstd::string::StringExecFns;

use crate::engine::DecodeOpenError;
use crate::library::{ScanReport, Track};

verus! {

/// The UI Controller's phases. A playback error is an annotation on
/// `Browsing`, not a phase of its own.
#[derive(Clone, Copy, Debug, PartialEq, Eq, Structural)]
pub enum Phase {
    Loading,
    Browsing,
    Exiting,
}

/// The keys the browser understands; any other key is `Other`.
#[derive(Clone, Copy, Debug, PartialEq, Eq, Structural)]
pub enum Key {
    Up,
    Down,
    Confirm,
    Quit,
    Other,
}

/// What reaches the controller: the scan's result, a key, or how a play
/// command went.
#[derive(Debug)]
pub enum Event {
    Scanned(ScanReport),
    Pressed(Key),
    PlaybackFailed(DecodeOpenError),
    PlaybackStarted,
}

/// What the program is to do after an event: redraw, play the track at a
/// path, or tear down (restore the terminal, release the output device).
#[derive(Debug)]
pub struct Reaction {
    pub redraw: bool,
    pub play: Option<String>,
    pub shutdown: bool,
}

/// Everything the list view shows, and nothing else.
#[derive(Debug)]
pub struct ListView {
    pub title: String,
    pub rows: Vec<String>,
    pub highlighted: Option<usize>,
    pub status: Option<DecodeOpenError>,
    pub skipped: usize,
}

/// The Selection after moving down: one further, kept at the last index.
pub open spec fn moved_down(sel: int, len: int) -> int {
    if sel + 1 < len {
        sel + 1
    } else {
        len - 1
    }
}

/// The Selection after moving up: one back, kept at index 0.
pub open spec fn moved_up(sel: int) -> int {
    if sel > 0 {
        sel - 1
    } else {
        0
    }
}

/// The phase after an event: the scan's result opens `Browsing`, quit ends
/// it, nothing leaves `Exiting`.
pub open spec fn next_phase(p: Phase, e: Event) -> Phase {
    match (p, e) {
        (Phase::Loading, Event::Scanned(_)) => Phase::Browsing,
        (Phase::Browsing, Event::Pressed(Key::Quit)) => Phase::Exiting,
        _ => p,
    }
}

/// Whether an event in a phase orders the teardown.
pub open spec fn shuts_down(p: Phase, e: Event) -> bool {
    p == Phase::Browsing && e == Event::Pressed(Key::Quit)
}

pub open spec fn strings_of(v: Seq<String>) -> Seq<Seq<char>> {
    v.map_values(|s: String| s@)
}

pub open spec fn track_paths(v: Seq<Track>) -> Seq<Seq<char>> {
    v.map_values(|t: Track| t.path@)
}

pub open spec fn error_view(o: Option<DecodeOpenError>) -> Option<(Seq<char>, Seq<char>)> {
    match o {
        Some(e) => Some(e@),
        None => None,
    }
}

/// The Selection after a move down, in a Library of `len` Tracks.
pub open spec fn selection_down(sel: Option<usize>, len: nat) -> Option<usize> {
    match sel {
        Some(i) => Some(moved_down(i as int, len as int) as usize),
        None => None,
    }
}

/// The Selection after a move up.
pub open spec fn selection_up(sel: Option<usize>) -> Option<usize> {
    match sel {
        Some(i) => Some(moved_up(i as int) as usize),
        None => None,
    }
}

/// Whether an event in a phase does more than what the phase change says.
pub open spec fn acts_on(p: Phase, e: Event) -> bool {
    ||| p == Phase::Loading && e is Scanned
    ||| p == Phase::Browsing && (e == Event::Pressed(Key::Up) || e == Event::Pressed(Key::Down)
        || e == Event::Pressed(Key::Confirm) || e is PlaybackFailed || e is PlaybackStarted)
}

/// The UI Controller: the Library, the Selection, the playback error
/// annotation and the count of skipped scan entries.
#[derive(Debug)]
pub struct Controller {
    phase: Phase,
    library: Vec<Track>,
    selection: Option<usize>,
    error: Option<DecodeOpenError>,
    skipped: usize,
}

impl Controller {
    pub closed spec fn spec_phase(&self) -> Phase {
        self.phase
    }

    pub closed spec fn spec_library(&self) -> Seq<Track> {
        self.library@
    }

    pub closed spec fn spec_selection(&self) -> Option<usize> {
        self.selection
    }

    pub closed spec fn spec_error(&self) -> Option<(Seq<char>, Seq<char>)> {
        error_view(self.error)
    }

    pub closed spec fn spec_skipped(&self) -> usize {
        self.skipped
    }

    /// The Selection is an index into a non-empty Library, and absent when
    /// the Library is empty.
    pub open spec fn wf(&self) -> bool {
        &&& self.spec_library().len() == 0 ==> self.spec_selection() is None
        &&& self.spec_library().len() > 0 ==> self.spec_selection() is Some
            && self.spec_selection()->0 < self.spec_library().len()
    }

    /// The path of the selected Track, if a Track is selected.
    pub open spec fn selected_path(&self) -> Option<Seq<char>> {
        match self.spec_selection() {
            Some(i) => Some(self.spec_library()[i as int].path@),
            None => None,
        }
    }

    /// Library, Selection, annotation and skip count are the same in both.
    pub open spec fn same_view(&self, other: &Controller) -> bool {
        &&& self.spec_library() == other.spec_library()
        &&& self.spec_selection() == other.spec_selection()
        &&& self.spec_error() == other.spec_error()
        &&& self.spec_skipped() == other.spec_skipped()
    }

    /// A controller waiting for the scan.
    pub fn new() -> (r: Controller)
        ensures
            r.wf(),
            r.spec_phase() == Phase::Loading,
            r.spec_library().len() == 0,
            r.spec_error() is None,
            r.spec_skipped() == 0,
    {
        Controller {
            phase: Phase::Loading,
            library: Vec::new(),
            selection: None,
            error: None,
            skipped: 0,
        }
    }

    /// One step of the state machine.
    pub fn handle(&mut self, event: Event) -> (r: Reaction)
        requires
            old(self).wf(),
        ensures
            final(self).wf(),
            final(self).spec_phase() == next_phase(old(self).spec_phase(), event),
            r.shutdown == shuts_down(old(self).spec_phase(), event),
            old(self).spec_phase() == Phase::Loading && event is Scanned ==> ({
                let report = event->Scanned_0;
                &&& final(self).spec_library() == report.library@
                &&& final(self).spec_selection() == if report.library@.len() > 0 {
                    Some(0usize)
                } else {
                    None
                }
                &&& final(self).spec_error() is None
                &&& final(self).spec_skipped() == report.skipped@.len()
                &&& r.redraw && r.play is None
            }),
            old(self).spec_phase() == Phase::Browsing && event == Event::Pressed(Key::Down) ==> ({
                &&& final(self).spec_library() == old(self).spec_library()
                &&& final(self).spec_selection() == selection_down(
                    old(self).spec_selection(),
                    old(self).spec_library().len(),
                )
                &&& final(self).spec_error() is None
                &&& final(self).spec_skipped() == old(self).spec_skipped()
                &&& r.redraw && r.play is None
            }),
            old(self).spec_phase() == Phase::Browsing && event == Event::Pressed(Key::Up) ==> ({
                &&& final(self).spec_library() == old(self).spec_library()
                &&& final(self).spec_selection() == selection_up(old(self).spec_selection())
                &&& final(self).spec_error() is None
                &&& final(self).spec_skipped() == old(self).spec_skipped()
                &&& r.redraw && r.play is None
            }),
            old(self).spec_phase() == Phase::Browsing && event == Event::Pressed(Key::Confirm) ==> ({
                &&& final(self).same_view(old(self))
                &&& match r.play {
                    Some(p) => old(self).selected_path() == Some(p@),
                    None => old(self).selected_path() is None,
                }
                &&& !r.redraw
            }),
            old(self).spec_phase() == Phase::Browsing && event is PlaybackFailed ==> ({
                &&& final(self).spec_library() == old(self).spec_library()
                &&& final(self).spec_selection() == old(self).spec_selection()
                &&& final(self).spec_error() == Some(event->PlaybackFailed_0@)
                &&& final(self).spec_skipped() == old(self).spec_skipped()
                &&& r.redraw && r.play is None
            }),
            old(self).spec_phase() == Phase::Browsing && event is PlaybackStarted ==> ({
                &&& final(self).spec_library() == old(self).spec_library()
                &&& final(self).spec_selection() == old(self).spec_selection()
                &&& final(self).spec_error() is None
                &&& final(self).spec_skipped() == old(self).spec_skipped()
                &&& r.redraw && r.play is None
            }),
            !acts_on(old(self).spec_phase(), event) ==> ({
                &&& final(self).same_view(old(self))
                &&& !r.redraw && r.play is None
            }),
    {
        let quiet = Reaction { redraw: false, play: None, shutdown: false };
        match self.phase {
            Phase::Loading => match event {
                Event::Scanned(report) => {
                    self.selection = if report.library.len() > 0 {
                        Some(0)
                    } else {
                        None
                    };
                    self.skipped = report.skipped.len();
                    self.library = report.library;
                    self.error = None;
                    self.phase = Phase::Browsing;
                    Reaction { redraw: true, play: None, shutdown: false }
                },
                _ => quiet,
            },
            Phase::Browsing => match event {
                Event::Pressed(Key::Down) => {
                    let len = self.library.len();
                    self.selection = match self.selection {
                        Some(i) => {
                            assert(i < len);
                            if i + 1 < len {
                                Some(i + 1)
                            } else {
                                Some(i)
                            }
                        },
                        None => None,
                    };
                    self.error = None;
                    Reaction { redraw: true, play: None, shutdown: false }
                },
                Event::Pressed(Key::Up) => {
                    self.selection = match self.selection {
                        Some(i) => if i > 0 {
                            Some(i - 1)
                        } else {
                            Some(0)
                        },
                        None => None,
                    };
                    self.error = None;
                    Reaction { redraw: true, play: None, shutdown: false }
                },
                Event::Pressed(Key::Confirm) => {
                    let play = match self.selection {
                        Some(i) => Some(self.library[i].path.clone()),
                        None => None,
                    };
                    Reaction { redraw: false, play, shutdown: false }
                },
                Event::Pressed(Key::Quit) => {
                    self.phase = Phase::Exiting;
                    Reaction { redraw: false, play: None, shutdown: true }
                },
                Event::PlaybackFailed(reason) => {
                    self.error = Some(reason);
                    Reaction { redraw: true, play: None, shutdown: false }
                },
                Event::PlaybackStarted => {
                    self.error = None;
                    Reaction { redraw: true, play: None, shutdown: false }
                },
                _ => quiet,
            },
            Phase::Exiting => quiet,
        }
    }

    /// What the list view shows: every Track's path in Library order, the
    /// Selection highlighted, the error annotation and the skip count.
    pub fn list_view(&self) -> (v: ListView)
        ensures
            v.title@ == "Music Library"@,
            strings_of(v.rows@) == track_paths(self.spec_library()),
            v.highlighted == self.spec_selection(),
            error_view(v.status) == self.spec_error(),
            v.skipped == self.spec_skipped(),
    {
        let mut rows: Vec<String> = Vec::new();
        let mut i: usize = 0;
        while i < self.library.len()
            invariant
                i <= self.library@.len(),
                strings_of(rows@) == track_paths(self.library@.subrange(0, i as int)),
            decreases self.library.len() - i,
        {
            let ghost before = rows@;
            rows.push(self.library[i].path.clone());
            assert(rows@.drop_last() == before);
            assert(track_paths(self.library@.subrange(0, i as int + 1)) =~= track_paths(
                self.library@.subrange(0, i as int),
            ).push(self.library@[i as int].path@));
            assert(strings_of(rows@) =~= strings_of(rows@.drop_last()).push(rows@.last()@));
            i = i + 1;
        }
        assert(self.library@.subrange(0, i as int) =~= self.library@);
        ListView {
            title: String::from_str("Music Library"),
            rows,
            highlighted: self.selection,
            status: self.error(),
            skipped: self.skipped,
        }
    }

    pub fn phase(&self) -> (r: Phase)
        ensures
            r == self.spec_phase(),
    {
        self.phase
    }

    pub fn selection(&self) -> (r: Option<usize>)
        ensures
            r == self.spec_selection(),
    {
        self.selection
    }

    pub fn library(&self) -> (r: &Vec<Track>)
        ensures
            r@ == self.spec_library(),
    {
        &self.library
    }

    pub fn error(&self) -> (r: Option<DecodeOpenError>)
        ensures
            error_view(r) == self.spec_error(),
    {
        match &self.error {
            Some(e) => Some(e.copy()),
            None => None,
        }
    }

    pub fn skipped(&self) -> (r: usize)
        ensures
            r == self.spec_skipped(),
    {
        self.skipped
    }
}

/// In a non-empty Library the Selection stays within `[0, len-1]` under both
/// moves; moving up at index 0 keeps index 0, moving down at the last index
/// keeps the last index.
pub proof fn lemma_selection_in_range(sel: int, len: int)
    requires
        0 <= sel < len,
    ensures
        0 <= moved_down(sel, len) < len,
        0 <= moved_up(sel) < len,
        moved_up(0) == 0,
        moved_down(len - 1, len) == len - 1,
{
}

/// How many teardowns a run of events orders, starting in phase `p`.
pub open spec fn teardowns(p: Phase, events: Seq<Event>) -> nat
    decreases events.len(),
{
    if events.len() == 0 {
        0
    } else {
        (if shuts_down(p, events[0]) {
            1nat
        } else {
            0nat
        }) + teardowns(next_phase(p, events[0]), events.drop_first())
    }
}

/// From any `Browsing` state, a run of events orders the teardown (terminal
/// restored, output device released) exactly once if it holds a quit, and
/// never otherwise; nothing after the quit orders it again.
pub proof fn lemma_teardown_once(events: Seq<Event>)
    ensures
        teardowns(Phase::Browsing, events) <= 1,
        teardowns(Phase::Browsing, events) == 1 <==> exists|i: int|
            0 <= i < events.len() && #[trigger] events[i] == Event::Pressed(Key::Quit),
        teardowns(Phase::Exiting, events) == 0,
    decreases events.len(),
{
    lemma_no_teardown_after_exit(events);
    if events.len() > 0 {
        let rest = events.drop_first();
        lemma_teardown_once(rest);
        assert forall|i: int| 0 <= i < rest.len() implies #[trigger] rest[i] == events[i + 1] by {}
        if events[0] != Event::Pressed(Key::Quit) {
            if exists|i: int| 0 <= i < events.len() && #[trigger] events[i] == Event::Pressed(Key::Quit) {
                let i = choose|i: int|
                    0 <= i < events.len() && #[trigger] events[i] == Event::Pressed(Key::Quit);
                assert(rest[i - 1] == Event::Pressed(Key::Quit));
            }
        }
    }
}

/// Nothing orders a teardown once the controller is `Exiting`.
proof fn lemma_no_teardown_after_exit(events: Seq<Event>)
    ensures
        teardowns(Phase::Exiting, events) == 0,
    decreases events.len(),
{
    if events.len() > 0 {
        lemma_no_teardown_after_exit(events.drop_first());
    }
}

} // verus!
