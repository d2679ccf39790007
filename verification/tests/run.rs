use cue_album::naming::album_files;
use cue_album::pipeline::{cleanup_names, Action, Event, Pipeline, Stage, State};

fn started() -> Pipeline {
    let mut p = Pipeline::new();
    assert_eq!(p.state, State::Idle);
    assert_eq!(p.action(), Action::Stop);
    assert_eq!(p.step(Event::Start), Action::CheckInputs);
    assert_eq!(p.state, State::Validating);
    p
}

fn split_done() -> Pipeline {
    let mut p = started();
    let a = p.step(Event::InputsChecked { audio_present: true, artwork_present: true, sheet_readable: true });
    assert_eq!(a, Action::Split);
    assert_eq!(p.state, State::Splitting);
    assert_eq!(p.step(Event::SplitFinished { success: true }), Action::ProbeTrack(1));
    p
}

#[test]
fn missing_artwork_aborts_in_validating() {
    let mut p = started();
    let a = p.step(Event::InputsChecked { audio_present: true, artwork_present: false, sheet_readable: true });
    assert_eq!(a, Action::Stop);
    assert_eq!(p.state, State::Failed(Stage::Validating));
    assert!(p.is_terminal());
}

#[test]
fn missing_audio_aborts_in_validating() {
    let mut p = started();
    let a = p.step(Event::InputsChecked { audio_present: false, artwork_present: true, sheet_readable: true });
    assert_eq!(a, Action::Stop);
    assert_eq!(p.state, State::Failed(Stage::Validating));
}

#[test]
fn failed_split_stops_the_run() {
    let mut p = started();
    p.step(Event::InputsChecked { audio_present: true, artwork_present: true, sheet_readable: true });
    assert_eq!(p.step(Event::SplitFinished { success: false }), Action::Stop);
    assert_eq!(p.state, State::Failed(Stage::Splitting));
    assert!(p.is_terminal());
    for e in [
        Event::Start,
        Event::TrackProbed { present: true },
        Event::TranscodeFinished { success: true },
        Event::CleanupFinished,
        Event::SplitFinished { success: true },
    ] {
        assert_eq!(p.step(e), Action::Stop);
        assert_eq!(p.state, State::Failed(Stage::Splitting));
    }
}

#[test]
fn failed_transcode_does_not_stop_the_run() {
    let mut p = split_done();
    let mut asked: Vec<Action> = Vec::new();
    for (n, ok) in [(1u32, true), (2, false), (3, true)] {
        assert_eq!(p.action(), Action::ProbeTrack(n));
        let a = p.step(Event::TrackProbed { present: true });
        assert_eq!(a, Action::Transcode(n));
        asked.push(a);
        p.step(Event::TranscodeFinished { success: ok });
    }
    assert_eq!(asked, vec![Action::Transcode(1), Action::Transcode(2), Action::Transcode(3)]);
    assert_eq!(p.action(), Action::ProbeTrack(4));
    assert_eq!(p.step(Event::TrackProbed { present: false }), Action::Cleanup);
    assert_eq!(p.state, State::CleaningUp);
    assert_eq!(p.step(Event::CleanupFinished), Action::Stop);
    assert_eq!(p.state, State::Done);
    assert!(p.is_terminal());
}

#[test]
fn cleanup_runs_when_every_transcode_failed() {
    let mut p = split_done();
    p.step(Event::TrackProbed { present: true });
    assert_eq!(p.step(Event::TranscodeFinished { success: false }), Action::ProbeTrack(2));
    assert_eq!(p.step(Event::TrackProbed { present: false }), Action::Cleanup);
}

#[test]
fn no_split_file_goes_straight_to_cleanup() {
    let mut p = split_done();
    assert_eq!(p.step(Event::TrackProbed { present: false }), Action::Cleanup);
    assert_eq!(p.step(Event::TrackProbed { present: true }), Action::Cleanup);
    assert_eq!(p.state, State::CleaningUp);
}

#[test]
fn probing_never_goes_past_ninety_nine() {
    let mut p = split_done();
    for n in 1u32..=99 {
        assert_eq!(p.action(), Action::ProbeTrack(n));
        assert_eq!(p.step(Event::TrackProbed { present: true }), Action::Transcode(n));
        let a = p.step(Event::TranscodeFinished { success: true });
        if n < 99 {
            assert_eq!(a, Action::ProbeTrack(n + 1));
        } else {
            assert_eq!(a, Action::Cleanup);
        }
    }
    assert_eq!(p.state, State::CleaningUp);
}

#[test]
fn unexpected_events_change_nothing() {
    let mut p = Pipeline::new();
    assert_eq!(p.step(Event::CleanupFinished), Action::Stop);
    assert_eq!(p.state, State::Idle);
    let mut p = started();
    assert_eq!(p.step(Event::SplitFinished { success: true }), Action::CheckInputs);
    assert_eq!(p.state, State::Validating);
    let mut p = split_done();
    assert_eq!(p.step(Event::TranscodeFinished { success: true }), Action::ProbeTrack(1));
    assert_eq!(p.state, State::TranscodingTracks { track: 1, found: false });
    p.step(Event::TrackProbed { present: true });
    assert_eq!(p.step(Event::TrackProbed { present: false }), Action::Transcode(1));
}

#[test]
fn done_is_final() {
    let mut p = split_done();
    p.step(Event::TrackProbed { present: false });
    p.step(Event::CleanupFinished);
    assert_eq!(p.step(Event::Start), Action::Stop);
    assert_eq!(p.state, State::Done);
}

#[test]
fn cleanup_names_in_order() {
    let files = album_files("a", "a.cue");
    let names = cleanup_names(&files);
    assert_eq!(names.len(), 103);
    assert_eq!(&names[..4], &["a.flac", "a.cue", "a.jpg", "a.png"]);
    assert_eq!(names[4], "split-track01.flac");
    assert_eq!(names[13], "split-track10.flac");
    assert_eq!(names[102], "split-track99.flac");
}

#[test]
fn unreadable_sheet_aborts_in_validating() {
    let mut p = started();
    let a = p.step(Event::InputsChecked { audio_present: true, artwork_present: true, sheet_readable: false });
    assert_eq!(a, Action::Stop);
    assert_eq!(p.state, State::Failed(Stage::Validating));
}

#[test]
fn album_file_names() {
    let files = album_files("My Album", "My Album.CUE");
    assert_eq!(files.audio, "My Album.flac");
    assert_eq!(files.cue, "My Album.CUE");
    assert_eq!(files.artwork, "My Album.jpg");
    assert_eq!(files.secondary_artwork, "My Album.png");
}
