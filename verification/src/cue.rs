//! The metadata of a CUE sheet: album-level fields and a table of track
//! entries, filled by a line-by-line scan of the sheet's text.

use crate::decode::{decode_shift_jis, shift_jis_text, MAX_SHEET_BYTES};
use crate::text::{
    find_line_end, lemma_lines_shift, lines_from, parse_unsigned, second_token, second_word,
    skip_chars, starts_with, strip_quotes, trim, trimmed, unquoted, unsigned_of,
};
use std::collections::HashMap;
use vstd::prelude::*;
use vstd::string::*;

verus! {

/// What a track entry holds, as plain text.
pub struct EntryModel {
    pub title: Option<Seq<char>>,
    pub performer: Option<Seq<char>>,
}

/// What a sheet holds, as plain text and a mathematical map.
pub struct SheetModel {
    pub album_title: Option<Seq<char>>,
    pub album_performer: Option<Seq<char>>,
    pub album_date: Option<Seq<char>>,
    pub tracks: Map<u32, EntryModel>,
}

/// Where a TITLE or PERFORMER line is written to.
#[derive(Clone, Copy, Debug, PartialEq, Eq, Structural)]
pub enum Target {
    /// No track has been announced yet: the album-level fields.
    Album,
    /// The entry of the track announced last.
    Track(u32),
}

/// The state of a scan: what has been gathered and where fields go next.
pub struct ScanModel {
    pub doc: SheetModel,
    pub target: Target,
}

/// The text that an optional string holds.
pub open spec fn opt_text(o: Option<String>) -> Option<Seq<char>> {
    match o {
        Some(s) => Some(s@),
        None => None,
    }
}

/// An entry with no field set.
pub open spec fn empty_entry() -> EntryModel {
    EntryModel { title: None, performer: None }
}

/// A sheet with no field set and no track.
pub open spec fn empty_sheet() -> SheetModel {
    SheetModel { album_title: None, album_performer: None, album_date: None, tracks: Map::empty() }
}

/// A scan that has read nothing: an empty sheet, fields going to the album.
pub open spec fn initial_scan() -> ScanModel {
    ScanModel { doc: empty_sheet(), target: Target::Album }
}

/// The value that follows keyword `kw` on `line`: trimmed, verbatim.
pub open spec fn plain_value(line: Seq<char>, kw: Seq<char>) -> Seq<char> {
    trimmed(line.subrange(kw.len() as int, line.len() as int))
}

/// The value that follows keyword `kw` on `line`: trimmed, then without
/// one pair of surrounding quotes.
pub open spec fn quoted_value(line: Seq<char>, kw: Seq<char>) -> Seq<char> {
    unquoted(plain_value(line, kw))
}

/// The track number that a TRACK line announces, if it is well formed.
pub open spec fn announced_track(line: Seq<char>) -> Option<u32> {
    match second_token(line) {
        Some(t) => unsigned_of(t),
        None => None,
    }
}

/// `doc` with an entry for track `n`: the one it has, or an empty one.
pub open spec fn with_track(doc: SheetModel, n: u32) -> SheetModel {
    if doc.tracks.contains_key(n) {
        doc
    } else {
        SheetModel { tracks: doc.tracks.insert(n, empty_entry()), ..doc }
    }
}

/// `st` after a title was read.
pub open spec fn with_title(st: ScanModel, v: Seq<char>) -> ScanModel {
    match st.target {
        Target::Album => ScanModel { doc: SheetModel { album_title: Some(v), ..st.doc }, ..st },
        Target::Track(n) => if st.doc.tracks.contains_key(n) {
            let e = EntryModel { title: Some(v), ..st.doc.tracks[n] };
            ScanModel { doc: SheetModel { tracks: st.doc.tracks.insert(n, e), ..st.doc }, ..st }
        } else {
            st
        },
    }
}

/// `st` after a performer was read.
pub open spec fn with_performer(st: ScanModel, v: Seq<char>) -> ScanModel {
    match st.target {
        Target::Album => ScanModel {
            doc: SheetModel { album_performer: Some(v), ..st.doc },
            ..st
        },
        Target::Track(n) => if st.doc.tracks.contains_key(n) {
            let e = EntryModel { performer: Some(v), ..st.doc.tracks[n] };
            ScanModel { doc: SheetModel { tracks: st.doc.tracks.insert(n, e), ..st.doc }, ..st }
        } else {
            st
        },
    }
}

/// `st` after one line of the sheet. The line is trimmed first; what it
/// begins with decides: TRACK announces a track, TITLE and PERFORMER write
/// to the current target, REM DATE sets the album's date. Any other line,
/// and a TRACK line without a readable number, changes nothing.
pub open spec fn apply_line(st: ScanModel, raw: Seq<char>) -> ScanModel {
    let line = trimmed(raw);
    if "TRACK"@.is_prefix_of(line) {
        match announced_track(line) {
            Some(n) => ScanModel { doc: with_track(st.doc, n), target: Target::Track(n) },
            None => st,
        }
    } else if "TITLE"@.is_prefix_of(line) {
        with_title(st, quoted_value(line, "TITLE"@))
    } else if "PERFORMER"@.is_prefix_of(line) {
        with_performer(st, quoted_value(line, "PERFORMER"@))
    } else if "REM DATE"@.is_prefix_of(line) {
        ScanModel {
            doc: SheetModel { album_date: Some(plain_value(line, "REM DATE"@)), ..st.doc },
            ..st
        }
    } else {
        st
    }
}

/// `st` after the given lines, first to last.
pub open spec fn scan_lines(st: ScanModel, lines: Seq<Seq<char>>) -> ScanModel
    decreases lines.len(),
{
    if lines.len() == 0 {
        st
    } else {
        scan_lines(apply_line(st, lines[0]), lines.drop_first())
    }
}

/// The sheet that `text` describes.
pub open spec fn sheet_of(text: Seq<char>) -> SheetModel {
    scan_lines(initial_scan(), lines_from(text, 0)).doc
}

/// The title and performer given for one track.
#[derive(Debug)]
pub struct TrackEntry {
    pub title: Option<String>,
    pub performer: Option<String>,
}

impl View for TrackEntry {
    type V = EntryModel;

    open spec fn view(&self) -> EntryModel {
        EntryModel { title: opt_text(self.title), performer: opt_text(self.performer) }
    }
}

/// The metadata read from one sheet.
#[derive(Debug)]
pub struct CueDocument {
    pub album_title: Option<String>,
    pub album_performer: Option<String>,
    pub album_date: Option<String>,
    pub tracks: HashMap<u32, TrackEntry>,
}

impl View for CueDocument {
    type V = SheetModel;

    open spec fn view(&self) -> SheetModel {
        SheetModel {
            album_title: opt_text(self.album_title),
            album_performer: opt_text(self.album_performer),
            album_date: opt_text(self.album_date),
            tracks: Map::new(
                |n: u32| self.tracks@.contains_key(n),
                |n: u32| self.tracks@[n]@,
            ),
        }
    }
}

/// A copy of an optional text.
pub fn copy_text(o: &Option<String>) -> (r: Option<String>)
    ensures
        opt_text(r) == opt_text(*o),
{
    match o {
        Some(s) => Some(s.clone()),
        None => None,
    }
}

impl CueDocument {
    /// A sheet with no field set and no track.
    pub fn new() -> (doc: CueDocument)
        ensures
            doc@ == empty_sheet(),
    {
        let doc = CueDocument {
            album_title: None,
            album_performer: None,
            album_date: None,
            tracks: HashMap::new(),
        };
        proof {
            assert(doc@.tracks =~= Map::empty());
        }
        doc
    }

    /// The entry of track `n`, if the sheet announced that track.
    pub fn track(&self, n: u32) -> (r: Option<&TrackEntry>)
        ensures
            match r {
                Some(e) => self@.tracks.contains_key(n) && self@.tracks[n] == e@,
                None => !self@.tracks.contains_key(n),
            },
    {
        broadcast use vstd::std_specs::hash::group_hash_axioms;

        self.tracks.get(&n)
    }

    /// Makes sure that track `n` has an entry, an empty one if it had none.
    pub fn ensure_track(&mut self, n: u32)
        ensures
            final(self)@ == with_track(old(self)@, n),
    {
        broadcast use vstd::std_specs::hash::group_hash_axioms;

        if !self.tracks.contains_key(&n) {
            self.tracks.insert(n, TrackEntry { title: None, performer: None });
            proof {
                assert(final(self)@.tracks =~= old(self)@.tracks.insert(n, empty_entry()));
            }
        }
    }

    /// Sets the title of track `n`, if the track has an entry.
    pub fn set_track_title(&mut self, n: u32, v: String)
        ensures
            final(self)@ == with_title(
                ScanModel { doc: old(self)@, target: Target::Track(n) },
                v@,
            ).doc,
    {
        broadcast use vstd::std_specs::hash::group_hash_axioms;

        let performer = match self.tracks.get(&n) {
            Some(e) => copy_text(&e.performer),
            None => { return ; },
        };
        let ghost before = old(self)@.tracks[n];
        self.tracks.insert(n, TrackEntry { title: Some(v), performer });
        proof {
            assert(final(self)@.tracks =~= old(self)@.tracks.insert(
                n,
                EntryModel { title: Some(v@), ..before },
            ));
        }
    }

    /// Sets the performer of track `n`, if the track has an entry.
    pub fn set_track_performer(&mut self, n: u32, v: String)
        ensures
            final(self)@ == with_performer(
                ScanModel { doc: old(self)@, target: Target::Track(n) },
                v@,
            ).doc,
    {
        broadcast use vstd::std_specs::hash::group_hash_axioms;

        let title = match self.tracks.get(&n) {
            Some(e) => copy_text(&e.title),
            None => { return ; },
        };
        let ghost before = old(self)@.tracks[n];
        self.tracks.insert(n, TrackEntry { title, performer: Some(v) });
        proof {
            assert(final(self)@.tracks =~= old(self)@.tracks.insert(
                n,
                EntryModel { performer: Some(v@), ..before },
            ));
        }
    }
}

/// A scan in progress: the sheet gathered so far and the current target.
pub struct Scanner {
    pub doc: CueDocument,
    pub target: Target,
}

impl View for Scanner {
    type V = ScanModel;

    open spec fn view(&self) -> ScanModel {
        ScanModel { doc: self.doc@, target: self.target }
    }
}

impl Scanner {
    /// A scan that has read nothing.
    pub fn new() -> (s: Scanner)
        ensures
            s@ == initial_scan(),
    {
        Scanner { doc: CueDocument::new(), target: Target::Album }
    }

    /// Reads one line of the sheet.
    pub fn feed_line(&mut self, raw: &str)
        ensures
            final(self)@ == apply_line(old(self)@, raw@),
    {
        let line = trim(raw);
        if starts_with(line, "TRACK") {
            match second_word(line) {
                Some(token) => match parse_unsigned(token) {
                    Some(n) => {
                        self.doc.ensure_track(n);
                        self.target = Target::Track(n);
                    },
                    None => {},
                },
                None => {},
            }
        } else if starts_with(line, "TITLE") {
            let v = String::from_str(strip_quotes(trim(skip_chars(line, "TITLE".unicode_len()))));
            match self.target {
                Target::Album => {
                    self.doc.album_title = Some(v);
                },
                Target::Track(n) => {
                    self.doc.set_track_title(n, v);
                },
            }
        } else if starts_with(line, "PERFORMER") {
            let v = String::from_str(
                strip_quotes(trim(skip_chars(line, "PERFORMER".unicode_len()))),
            );
            match self.target {
                Target::Album => {
                    self.doc.album_performer = Some(v);
                },
                Target::Track(n) => {
                    self.doc.set_track_performer(n, v);
                },
            }
        } else if starts_with(line, "REM DATE") {
            let v = String::from_str(trim(skip_chars(line, "REM DATE".unicode_len())));
            self.doc.album_date = Some(v);
        }
    }
}

/// Reads the sheet that `text` holds. Every text is accepted: a line that
/// fits no rule is passed over.
pub fn parse_text(text: &str) -> (doc: CueDocument)
    ensures
        doc@ == sheet_of(text@),
{
    let mut scanner = Scanner::new();
    let mut rest: &str = text;
    let mut len: usize = rest.unicode_len();
    while len > 0
        invariant
            len == rest@.len(),
            scan_lines(scanner@, lines_from(rest@, 0)) == scan_lines(
                initial_scan(),
                lines_from(text@, 0),
            ),
        decreases len,
    {
        let e: usize = find_line_end(rest, 0, len);
        let next: usize = if e < len {
            e + 1
        } else {
            len
        };
        let ghost lines = lines_from(rest@, 0);
        scanner.feed_line(rest.substring_char(0, e));
        proof {
            assert(lines[0] == rest@.subrange(0, e as int));
            lemma_lines_shift(rest@, next as int, 0);
            assert(lines.drop_first() =~= lines_from(rest@, next as int));
        }
        rest = rest.substring_char(next, len);
        len = len - next;
    }
    scanner.doc
}

/// Reads a sheet from its raw bytes, which are taken as Shift_JIS. Bytes
/// that spell no character are replaced, never refused.
pub fn parse(bytes: &[u8]) -> (doc: CueDocument)
    requires
        bytes@.len() <= MAX_SHEET_BYTES,
    ensures
        doc@ == sheet_of(shift_jis_text(bytes@)),
{
    let text = decode_shift_jis(bytes);
    parse_text(text.as_str())
}

/// What a scan keeps true: before any track was announced the table is
/// empty, and afterwards the track announced last has an entry.
pub open spec fn scan_consistent(st: ScanModel) -> bool {
    match st.target {
        Target::Album => st.doc.tracks == Map::<u32, EntryModel>::empty(),
        Target::Track(n) => st.doc.tracks.contains_key(n),
    }
}

/// A TITLE line read before any TRACK line sets the album's title and
/// nothing else: no entry is made or changed, and the target stays the
/// album.
pub proof fn lemma_title_before_tracks(st: ScanModel, raw: Seq<char>)
    requires
        st.target is Album,
        "TITLE"@.is_prefix_of(trimmed(raw)),
    ensures
        apply_line(st, raw) == (ScanModel {
            doc: SheetModel {
                album_title: Some(quoted_value(trimmed(raw), "TITLE"@)),
                ..st.doc
            },
            target: Target::Album,
        }),
        apply_line(st, raw).doc.tracks == st.doc.tracks,
{
    reveal_strlit("TITLE");
    reveal_strlit("TRACK");
    let line = trimmed(raw);
    if "TRACK"@.is_prefix_of(line) {
        assert(line.subrange(0, 5)[1] == 'R');
        assert(line.subrange(0, 5)[1] == 'I');
    }
}

/// A PERFORMER line read before any TRACK line sets the album's performer
/// and nothing else: no entry is made or changed, and the target stays the
/// album.
pub proof fn lemma_performer_before_tracks(st: ScanModel, raw: Seq<char>)
    requires
        st.target is Album,
        "PERFORMER"@.is_prefix_of(trimmed(raw)),
    ensures
        apply_line(st, raw) == (ScanModel {
            doc: SheetModel {
                album_performer: Some(quoted_value(trimmed(raw), "PERFORMER"@)),
                ..st.doc
            },
            target: Target::Album,
        }),
        apply_line(st, raw).doc.tracks == st.doc.tracks,
{
    reveal_strlit("TITLE");
    reveal_strlit("TRACK");
    reveal_strlit("PERFORMER");
    let line = trimmed(raw);
    if "TRACK"@.is_prefix_of(line) {
        assert(line.subrange(0, 5)[0] == 'T');
        assert(line.subrange(0, 9)[0] == 'P');
    }
    if "TITLE"@.is_prefix_of(line) {
        assert(line.subrange(0, 5)[0] == 'T');
        assert(line.subrange(0, 9)[0] == 'P');
    }
}

/// A TRACK line whose second token is missing or spells no unsigned number
/// changes nothing: the target stays and no entry is made.
pub proof fn lemma_malformed_track_line(st: ScanModel, raw: Seq<char>)
    requires
        "TRACK"@.is_prefix_of(trimmed(raw)),
        second_token(trimmed(raw)) is None || unsigned_of(second_token(trimmed(raw))->0) is None,
    ensures
        apply_line(st, raw) == st,
{
}

/// A well-formed TRACK line makes its track the target and leaves it with
/// an entry: the one it had, or an empty one.
pub proof fn lemma_track_line(st: ScanModel, raw: Seq<char>, n: u32)
    requires
        "TRACK"@.is_prefix_of(trimmed(raw)),
        announced_track(trimmed(raw)) == Some(n),
    ensures
        apply_line(st, raw).target == Target::Track(n),
        apply_line(st, raw).doc.tracks.contains_key(n),
        st.doc.tracks.contains_key(n) ==> apply_line(st, raw).doc == st.doc,
        !st.doc.tracks.contains_key(n) ==> apply_line(st, raw).doc.tracks[n] == empty_entry(),
{
}

/// No line removes an entry, and every line keeps the scan consistent.
pub proof fn lemma_line_keeps_entries(st: ScanModel, raw: Seq<char>)
    requires
        scan_consistent(st),
    ensures
        scan_consistent(apply_line(st, raw)),
        forall|n: u32|
            st.doc.tracks.contains_key(n) ==> apply_line(st, raw).doc.tracks.contains_key(n),
{
    let after = apply_line(st, raw);
    if st.target is Album {
        assert(after.target is Album ==> after.doc.tracks =~= st.doc.tracks);
    }
}

/// Over any lines a scan stays consistent and loses no entry.
pub proof fn lemma_lines_keep_entries(st: ScanModel, lines: Seq<Seq<char>>)
    requires
        scan_consistent(st),
    ensures
        scan_consistent(scan_lines(st, lines)),
        forall|n: u32|
            st.doc.tracks.contains_key(n) ==> scan_lines(st, lines).doc.tracks.contains_key(n),
    decreases lines.len(),
{
    if lines.len() > 0 {
        lemma_line_keeps_entries(st, lines[0]);
        lemma_lines_keep_entries(apply_line(st, lines[0]), lines.drop_first());
    }
}

/// Once a track was announced, a TITLE line writes to that track's entry
/// wherever it stands in the sheet: the album's title stays as it is, and
/// so does every other entry.
pub proof fn lemma_title_after_track(st: ScanModel, raw: Seq<char>, n: u32)
    requires
        st.target == Target::Track(n),
        st.doc.tracks.contains_key(n),
        "TITLE"@.is_prefix_of(trimmed(raw)),
    ensures
        apply_line(st, raw).target == st.target,
        apply_line(st, raw).doc.album_title == st.doc.album_title,
        apply_line(st, raw).doc.tracks[n] == (EntryModel {
            title: Some(quoted_value(trimmed(raw), "TITLE"@)),
            performer: st.doc.tracks[n].performer,
        }),
        forall|m: u32|
            m != n ==> (apply_line(st, raw).doc.tracks.contains_key(m)
                <==> st.doc.tracks.contains_key(m)) && apply_line(st, raw).doc.tracks[m]
                == st.doc.tracks[m],
{
    reveal_strlit("TITLE");
    reveal_strlit("TRACK");
    let line = trimmed(raw);
    if "TRACK"@.is_prefix_of(line) {
        assert(line.subrange(0, 5)[1] == 'R');
        assert(line.subrange(0, 5)[1] == 'I');
    }
}

/// A REM DATE line sets the album's date to what follows the keyword,
/// trimmed and otherwise as written, and changes nothing else.
pub proof fn lemma_date_line(st: ScanModel, raw: Seq<char>)
    requires
        "REM DATE"@.is_prefix_of(trimmed(raw)),
    ensures
        apply_line(st, raw) == (ScanModel {
            doc: SheetModel {
                album_date: Some(plain_value(trimmed(raw), "REM DATE"@)),
                ..st.doc
            },
            ..st
        }),
{
    reveal_strlit("TITLE");
    reveal_strlit("TRACK");
    reveal_strlit("PERFORMER");
    reveal_strlit("REM DATE");
    let line = trimmed(raw);
    assert(line.subrange(0, 8)[0] == 'R');
    if "TRACK"@.is_prefix_of(line) {
        assert(line.subrange(0, 5)[0] == 'T');
    }
    if "TITLE"@.is_prefix_of(line) {
        assert(line.subrange(0, 5)[0] == 'T');
    }
    if "PERFORMER"@.is_prefix_of(line) {
        assert(line.subrange(0, 9)[0] == 'P');
    }
}

/// Every sheet read from a text is consistent: it has an entry for the
/// track announced last, if any track was announced.
pub proof fn lemma_sheet_consistent(text: Seq<char>)
    ensures
        scan_consistent(scan_lines(initial_scan(), lines_from(text, 0))),
{
    lemma_lines_keep_entries(initial_scan(), lines_from(text, 0));
}

/// Whether `raw` is a well-formed TRACK line for track `n`.
pub open spec fn announces(raw: Seq<char>, n: u32) -> bool {
    "TRACK"@.is_prefix_of(trimmed(raw)) && announced_track(trimmed(raw)) == Some(n)
}

/// Every track that some line announces has an entry at the end of the
/// scan, whether or not a title or performer followed.
pub proof fn lemma_announced_track_has_entry(
    st: ScanModel,
    lines: Seq<Seq<char>>,
    k: int,
    n: u32,
)
    requires
        scan_consistent(st),
        0 <= k < lines.len(),
        announces(lines[k], n),
    ensures
        scan_lines(st, lines).doc.tracks.contains_key(n),
    decreases lines.len(),
{
    let after = apply_line(st, lines[0]);
    let rest = lines.drop_first();
    lemma_line_keeps_entries(st, lines[0]);
    if k == 0 {
        lemma_lines_keep_entries(after, rest);
    } else {
        assert(rest[k - 1] == lines[k]);
        lemma_announced_track_has_entry(after, rest, k - 1, n);
    }
}

/// An entry is made by a TRACK line and by nothing else: a track that
/// has an entry after the scan and had none before was announced by one of
/// the lines.
pub proof fn lemma_entry_was_announced(st: ScanModel, lines: Seq<Seq<char>>, n: u32)
    requires
        !st.doc.tracks.contains_key(n),
        scan_lines(st, lines).doc.tracks.contains_key(n),
    ensures
        exists|k: int| 0 <= k < lines.len() && announces(#[trigger] lines[k], n),
    decreases lines.len(),
{
    if lines.len() > 0 {
        let after = apply_line(st, lines[0]);
        let rest = lines.drop_first();
        if after.doc.tracks.contains_key(n) {
            assert(announces(lines[0], n));
        } else {
            lemma_entry_was_announced(after, rest, n);
            let k = choose|k: int| 0 <= k < rest.len() && announces(#[trigger] rest[k], n);
            assert(rest[k] == lines[k + 1]);
            assert(announces(lines[k + 1], n));
        }
    }
}

} // verus!
