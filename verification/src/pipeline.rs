//! The control logic of one conversion run, as a state machine. The caller
//! performs each action that the machine asks for and reports what came of
//! it; the machine decides what happens next.

use crate::args::texts;
use crate::naming::{
    split_name, split_track_name, AlbumFiles, AlbumFilesModel, MAX_TRACKS,
};
use vstd::prelude::*;
use vstd::string::*;

verus! {

/// The stage in which a run was given up.
#[derive(Clone, Copy, Debug, PartialEq, Eq, Structural)]
pub enum Stage {
    Validating,
    Splitting,
}

/// Where a run stands.
#[derive(Clone, Copy, Debug, PartialEq, Eq, Structural)]
pub enum State {
    /// Nothing has been asked yet.
    Idle,
    /// Waiting to learn whether the audio image and the artwork exist.
    Validating,
    /// Waiting for the split tool to finish.
    Splitting,
    /// Working on track `track`: waiting to learn whether its split file
    /// exists, or, once `found`, waiting for the transcoder to finish.
    TranscodingTracks { track: u32, found: bool },
    /// Waiting for the removal of the sources and intermediates.
    CleaningUp,
    /// The run is complete.
    Done,
    /// The run was given up in the named stage.
    Failed(Stage),
}

/// What the caller reports.
#[derive(Clone, Copy, Debug, PartialEq, Eq, Structural)]
pub enum Event {
    /// A sheet was chosen.
    Start,
    /// The inputs were looked at: whether the audio image and the primary
    /// artwork exist, and whether the sheet could be read.
    InputsChecked { audio_present: bool, artwork_present: bool, sheet_readable: bool },
    /// The split tool ended, the working directory being restored.
    SplitFinished { success: bool },
    /// The split file of the current track was looked for.
    TrackProbed { present: bool },
    /// The transcoder ended for the current track.
    TranscodeFinished { success: bool },
    /// Every removal was attempted.
    CleanupFinished,
}

/// What the caller is to do next.
#[derive(Clone, Copy, Debug, PartialEq, Eq, Structural)]
pub enum Action {
    /// Check that the audio image and the primary artwork exist, and read
    /// the sheet.
    CheckInputs,
    /// Run the split tool in the album's directory.
    Split,
    /// Look whether the split file of this track exists.
    ProbeTrack(u32),
    /// Transcode the split file of this track.
    Transcode(u32),
    /// Remove the sources and the split files, each on its own.
    Cleanup,
    /// Nothing: the run has not begun, or it has ended.
    Stop,
}

/// A track number, where the state holds one, lies between 1 and the
/// largest that a run looks for.
pub open spec fn state_valid(s: State) -> bool {
    match s {
        State::TranscodingTracks { track, found } => 1 <= track <= MAX_TRACKS,
        _ => true,
    }
}

/// The action that a state waits on.
pub open spec fn pending(s: State) -> Action {
    match s {
        State::Idle => Action::Stop,
        State::Validating => Action::CheckInputs,
        State::Splitting => Action::Split,
        State::TranscodingTracks { track, found } => if found {
            Action::Transcode(track)
        } else {
            Action::ProbeTrack(track)
        },
        State::CleaningUp => Action::Cleanup,
        State::Done => Action::Stop,
        State::Failed(_) => Action::Stop,
    }
}

/// The state that follows `s` on event `e`. An event that `s` does not
/// wait for changes nothing.
pub open spec fn next_state(s: State, e: Event) -> State {
    match (s, e) {
        (State::Idle, Event::Start) => State::Validating,
        (
            State::Validating,
            Event::InputsChecked { audio_present, artwork_present, sheet_readable },
        ) => if audio_present && artwork_present && sheet_readable {
            State::Splitting
        } else {
            State::Failed(Stage::Validating)
        },
        (State::Splitting, Event::SplitFinished { success }) => if success {
            State::TranscodingTracks { track: 1, found: false }
        } else {
            State::Failed(Stage::Splitting)
        },
        (
            State::TranscodingTracks { track, found: false },
            Event::TrackProbed { present },
        ) => if present {
            State::TranscodingTracks { track, found: true }
        } else {
            State::CleaningUp
        },
        (
            State::TranscodingTracks { track, found: true },
            Event::TranscodeFinished { success: _ },
        ) => if track < MAX_TRACKS {
            State::TranscodingTracks { track: (track + 1) as u32, found: false }
        } else {
            State::CleaningUp
        },
        (State::CleaningUp, Event::CleanupFinished) => State::Done,
        _ => s,
    }
}

/// The state after a sequence of events, first to last.
pub open spec fn run(s: State, events: Seq<Event>) -> State
    decreases events.len(),
{
    if events.len() == 0 {
        s
    } else {
        next_state(run(s, events.drop_last()), events.last())
    }
}

/// How far a run has come: a number that no event makes smaller.
pub open spec fn progress(s: State) -> nat {
    match s {
        State::Idle => 0,
        State::Validating => 1,
        State::Splitting => 2,
        State::TranscodingTracks { track, found } => if found {
            (4 + 2 * track) as nat
        } else {
            (3 + 2 * track) as nat
        },
        State::CleaningUp => 3 + 2 * (MAX_TRACKS as nat) + 2,
        State::Done => 3 + 2 * (MAX_TRACKS as nat) + 3,
        State::Failed(_) => 3 + 2 * (MAX_TRACKS as nat) + 4,
    }
}

/// Whether an action touches a file of the album: runs a tool on it or
/// removes it.
pub open spec fn touches_files(a: Action) -> bool {
    a is Split || a is Transcode || a is Cleanup
}

/// One run of the conversion.
#[derive(Debug)]
pub struct Pipeline {
    pub state: State,
}

impl Pipeline {
    /// A run that has not begun.
    pub fn new() -> (p: Pipeline)
        ensures
            p.state == State::Idle,
    {
        Pipeline { state: State::Idle }
    }

    /// The action that the run waits on.
    pub fn action(&self) -> (a: Action)
        ensures
            a == pending(self.state),
    {
        match self.state {
            State::Idle => Action::Stop,
            State::Validating => Action::CheckInputs,
            State::Splitting => Action::Split,
            State::TranscodingTracks { track, found } => if found {
                Action::Transcode(track)
            } else {
                Action::ProbeTrack(track)
            },
            State::CleaningUp => Action::Cleanup,
            State::Done => Action::Stop,
            State::Failed(_) => Action::Stop,
        }
    }

    /// Whether the run has ended, complete or given up.
    pub fn is_terminal(&self) -> (b: bool)
        ensures
            b == (self.state is Done || self.state is Failed),
    {
        match self.state {
            State::Done => true,
            State::Failed(_) => true,
            _ => false,
        }
    }

    /// Takes in what the caller reports and says what to do next.
    pub fn step(&mut self, event: Event) -> (a: Action)
        ensures
            final(self).state == next_state(old(self).state, event),
            a == pending(final(self).state),
            state_valid(old(self).state) ==> state_valid(final(self).state),
    {
        let next = match (self.state, event) {
            (State::Idle, Event::Start) => State::Validating,
            (
                State::Validating,
                Event::InputsChecked { audio_present, artwork_present, sheet_readable },
            ) => {
                if audio_present && artwork_present && sheet_readable {
                    State::Splitting
                } else {
                    State::Failed(Stage::Validating)
                }
            },
            (State::Splitting, Event::SplitFinished { success }) => {
                if success {
                    State::TranscodingTracks { track: 1, found: false }
                } else {
                    State::Failed(Stage::Splitting)
                }
            },
            (
                State::TranscodingTracks { track, found: false },
                Event::TrackProbed { present },
            ) => {
                if present {
                    State::TranscodingTracks { track, found: true }
                } else {
                    State::CleaningUp
                }
            },
            (
                State::TranscodingTracks { track, found: true },
                Event::TranscodeFinished { success: _ },
            ) => {
                if track < MAX_TRACKS {
                    State::TranscodingTracks { track: track + 1, found: false }
                } else {
                    State::CleaningUp
                }
            },
            (State::CleaningUp, Event::CleanupFinished) => State::Done,
            (s, _) => s,
        };
        self.state = next;
        self.action()
    }
}

/// The names that the cleanup removes, in order: the audio image, the
/// sheet, the two artwork files, then the split file of every track number
/// from 1 to the largest, whether or not a track was found under it.
pub open spec fn cleanup_list(files: AlbumFilesModel) -> Seq<Seq<char>> {
    seq![files.audio, files.cue, files.artwork, files.secondary_artwork] + Seq::new(
        MAX_TRACKS as nat,
        |k: int| split_name((k + 1) as nat),
    )
}

/// The names of the files that the cleanup removes where they exist.
pub fn cleanup_names(files: &AlbumFiles) -> (names: Vec<String>)
    ensures
        texts(names@) == cleanup_list(files@),
{
    let mut names: Vec<String> = Vec::new();
    names.push(files.audio.clone());
    names.push(files.cue.clone());
    names.push(files.artwork.clone());
    names.push(files.secondary_artwork.clone());
    let mut k: u32 = 1;
    while k <= MAX_TRACKS
        invariant
            1 <= k <= MAX_TRACKS + 1,
            names@.len() == 3 + k,
            names@[0]@ == files.audio@,
            names@[1]@ == files.cue@,
            names@[2]@ == files.artwork@,
            names@[3]@ == files.secondary_artwork@,
            forall|j: int|
                0 <= j < k - 1 ==> (#[trigger] names@[4 + j])@ == split_name((j + 1) as nat),
        decreases MAX_TRACKS + 1 - k,
    {
        names.push(split_track_name(k));
        k += 1;
    }
    proof {
        let want = cleanup_list(files@);
        assert(want.len() == names@.len());
        assert forall|i: int| 0 <= i < names@.len() implies texts(names@)[i] == want[i] by {
            if i >= 4 {
                let j = i - 4;
                assert(names@[4 + j]@ == split_name((j + 1) as nat));
            }
        }
        assert(texts(names@) =~= want);
    }
    names
}

/// A run that was given up stays given up, and asks for nothing more.
pub proof fn lemma_failed_is_final(stage: Stage, e: Event)
    ensures
        next_state(State::Failed(stage), e) == State::Failed(stage),
        pending(next_state(State::Failed(stage), e)) == Action::Stop,
{
}

/// No event takes a run backwards.
pub proof fn lemma_progress_monotonic(s: State, e: Event)
    requires
        state_valid(s),
    ensures
        state_valid(next_state(s, e)),
        progress(s) <= progress(next_state(s, e)),
{
}

/// Over any sequence of events a run stays valid and never goes backwards.
pub proof fn lemma_run_monotonic(s: State, events: Seq<Event>)
    requires
        state_valid(s),
    ensures
        state_valid(run(s, events)),
        progress(s) <= progress(run(s, events)),
    decreases events.len(),
{
    if events.len() > 0 {
        lemma_run_monotonic(s, events.drop_last());
        lemma_progress_monotonic(run(s, events.drop_last()), events.last());
    }
}

/// Looking for tracks ends at the first split file that is missing, and
/// after the largest track number at the latest: once a file was reported
/// missing, whatever is reported afterwards, no track is looked for or
/// transcoded again; and a track that is looked for or transcoded always
/// has a number from 1 to the largest.
pub proof fn lemma_probing_stops(track: u32, later: Seq<Event>)
    requires
        1 <= track <= MAX_TRACKS,
    ensures
        ({
            let s = run(
                next_state(
                    State::TranscodingTracks { track, found: false },
                    Event::TrackProbed { present: false },
                ),
                later,
            );
            !(pending(s) is ProbeTrack) && !(pending(s) is Transcode)
        }),
{
    let gap = next_state(
        State::TranscodingTracks { track, found: false },
        Event::TrackProbed { present: false },
    );
    lemma_run_monotonic(gap, later);
}

/// Whatever has been reported since the start, a track that the run asks
/// to look for or to transcode has a number from 1 to the largest.
pub proof fn lemma_track_numbers_bounded(events: Seq<Event>)
    ensures
        match pending(run(State::Idle, events)) {
            Action::ProbeTrack(n) => 1 <= n <= MAX_TRACKS,
            Action::Transcode(n) => 1 <= n <= MAX_TRACKS,
            _ => true,
        },
{
    lemma_run_monotonic(State::Idle, events);
}

/// An incomplete input gives the run up in the validating stage.
pub proof fn lemma_incomplete_inputs_fail(
    audio_present: bool,
    artwork_present: bool,
    sheet_readable: bool,
)
    requires
        !audio_present || !artwork_present || !sheet_readable,
    ensures
        next_state(
            State::Validating,
            Event::InputsChecked { audio_present, artwork_present, sheet_readable },
        ) == State::Failed(Stage::Validating),
{
}

/// Where the inputs are incomplete or the split tool fails, the run asks
/// for no tool and no removal from then on.
pub proof fn lemma_failure_touches_nothing(stage: Stage, later: Seq<Event>)
    ensures
        run(State::Failed(stage), later) == State::Failed(stage),
        !touches_files(pending(run(State::Failed(stage), later))),
    decreases later.len(),
{
    if later.len() > 0 {
        lemma_failure_touches_nothing(stage, later.drop_last());
    }
}

/// Once the split tool has succeeded, the cleanup is reached whatever the
/// transcoder reports: no outcome of a transcode leads to a given-up run.
pub proof fn lemma_transcode_never_fails_run(track: u32, success: bool)
    requires
        1 <= track <= MAX_TRACKS,
    ensures
        ({
            let s = next_state(
                State::TranscodingTracks { track, found: true },
                Event::TranscodeFinished { success },
            );
            s == if track < MAX_TRACKS {
                State::TranscodingTracks { track: (track + 1) as u32, found: false }
            } else {
                State::CleaningUp
            }
        }),
{
}

/// Whether the split tool has succeeded in this run.
pub open spec fn past_split(s: State) -> bool {
    s is TranscodingTracks || s is CleaningUp || s is Done
}

/// Once the split tool has succeeded the run is never given up: whatever
/// is reported, of transcodes or removals, it stays on its way to the end.
pub proof fn lemma_no_failure_after_split(s: State, events: Seq<Event>)
    requires
        past_split(s),
    ensures
        past_split(run(s, events)),
        !(run(s, events) is Failed),
    decreases events.len(),
{
    if events.len() > 0 {
        lemma_no_failure_after_split(s, events.drop_last());
    }
}

/// The cleanup is asked for only after the split tool has succeeded, and
/// a transcode only for a track whose split file was found.
pub proof fn lemma_actions_in_order(s: State, e: Event)
    ensures
        pending(next_state(s, e)) is Cleanup ==> past_split(s),
        pending(next_state(s, e)) is Transcode ==> s is TranscodingTracks,
        pending(next_state(s, e)) is Split ==> s is Validating || s is Splitting,
{
}

} // verus!
