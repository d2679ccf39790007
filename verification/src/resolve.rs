//! The tags of one track: what the sheet gives for it, with the album's
//! values and fixed texts standing in for what the sheet leaves out.

use crate::cue::{opt_text, CueDocument, SheetModel};
use vstd::prelude::*;
use vstd::string::*;

verus! {

/// The tags of one track, as plain text.
pub struct ResolvedModel {
    pub track_number: u32,
    pub title: Seq<char>,
    pub performer: Seq<char>,
    pub album: Seq<char>,
    pub date: Seq<char>,
}

/// `o`, or `fallback` where `o` is absent.
pub open spec fn text_or(o: Option<Seq<char>>, fallback: Seq<char>) -> Seq<char> {
    match o {
        Some(s) => s,
        None => fallback,
    }
}

/// The title that the sheet gives for track `n`, if any.
pub open spec fn track_title(doc: SheetModel, n: u32) -> Option<Seq<char>> {
    if doc.tracks.contains_key(n) {
        doc.tracks[n].title
    } else {
        None
    }
}

/// The performer of track `n`: the track's own, else the album's.
pub open spec fn track_performer(doc: SheetModel, n: u32) -> Option<Seq<char>> {
    if doc.tracks.contains_key(n) && doc.tracks[n].performer is Some {
        doc.tracks[n].performer
    } else {
        doc.album_performer
    }
}

/// The tags of track `n` of `doc`.
pub open spec fn resolved(n: u32, doc: SheetModel) -> ResolvedModel {
    ResolvedModel {
        track_number: n,
        title: text_or(track_title(doc, n), "unknown"@),
        performer: text_or(track_performer(doc, n), "unknown"@),
        album: text_or(doc.album_title, "unknown album"@),
        date: text_or(doc.album_date, "unknown"@),
    }
}

/// The tags that are written into one track's file.
#[derive(Debug)]
pub struct ResolvedTrackMetadata {
    pub track_number: u32,
    pub title: String,
    pub performer: String,
    pub album: String,
    pub date: String,
}

impl View for ResolvedTrackMetadata {
    type V = ResolvedModel;

    open spec fn view(&self) -> ResolvedModel {
        ResolvedModel {
            track_number: self.track_number,
            title: self.title@,
            performer: self.performer@,
            album: self.album@,
            date: self.date@,
        }
    }
}

/// A copy of `o`, or `fallback` where `o` is absent.
pub fn value_or(o: &Option<String>, fallback: &str) -> (r: String)
    ensures
        r@ == text_or(opt_text(*o), fallback@),
{
    match o {
        Some(s) => s.clone(),
        None => String::from_str(fallback),
    }
}

/// The tags of track `n`. Every field has a value: what the sheet lacks is
/// filled from the album's fields or with a fixed text.
pub fn resolve(n: u32, doc: &CueDocument) -> (r: ResolvedTrackMetadata)
    ensures
        r@ == resolved(n, doc@),
{
    let entry = doc.track(n);
    let title = match entry {
        Some(e) => value_or(&e.title, "unknown"),
        None => String::from_str("unknown"),
    };
    let performer = match entry {
        Some(e) => match &e.performer {
            Some(p) => p.clone(),
            None => value_or(&doc.album_performer, "unknown"),
        },
        None => value_or(&doc.album_performer, "unknown"),
    };
    ResolvedTrackMetadata {
        track_number: n,
        title,
        performer,
        album: value_or(&doc.album_title, "unknown album"),
        date: value_or(&doc.album_date, "unknown"),
    }
}

/// A track that the sheet does not list gets the fixed title, and the
/// album's performer where the album has one, else the fixed performer.
pub proof fn lemma_unlisted_track(n: u32, doc: SheetModel)
    requires
        !doc.tracks.contains_key(n),
    ensures
        resolved(n, doc).title == "unknown"@,
        resolved(n, doc).performer == text_or(doc.album_performer, "unknown"@),
{
}

/// No tag is empty for want of data: a field that the sheet leaves out
/// resolves to its fixed text, which has characters.
pub proof fn lemma_absent_fields_are_filled(n: u32, doc: SheetModel)
    ensures
        track_title(doc, n) is None ==> resolved(n, doc).title.len() > 0,
        track_performer(doc, n) is None ==> resolved(n, doc).performer.len() > 0,
        doc.album_title is None ==> resolved(n, doc).album.len() > 0,
        doc.album_date is None ==> resolved(n, doc).date.len() > 0,
{
    reveal_strlit("unknown");
    reveal_strlit("unknown album");
}

/// What the sheet gives is taken as it is: the track's own title and
/// performer, the album's title and date.
pub proof fn lemma_given_fields_are_kept(n: u32, doc: SheetModel)
    ensures
        track_title(doc, n) is Some ==> resolved(n, doc).title == track_title(doc, n)->0,
        doc.tracks.contains_key(n) && doc.tracks[n].performer is Some ==> resolved(
            n,
            doc,
        ).performer == doc.tracks[n].performer->0,
        doc.album_title is Some ==> resolved(n, doc).album == doc.album_title->0,
        doc.album_date is Some ==> resolved(n, doc).date == doc.album_date->0,
{
}

} // verus!
