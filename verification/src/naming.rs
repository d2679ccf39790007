//! File names: the characters that a name may not hold, numbers in
//! decimal, and the names of the files that a run reads, writes and removes.

use crate::text::{digits_value, is_digit, unsigned_of};
use vstd::prelude::*;
use vstd::string::*;

verus! {

/// The largest track number that a run looks for.
pub const MAX_TRACKS: u32 = 99;

/// Whether `c` is one of the characters `/ \ : * ? " < > |`, which a file
/// name may not hold.
pub open spec fn is_reserved(c: char) -> bool {
    c == '/' || c == '\\' || c == ':' || c == '*' || c == '?' || c == '"' || c == '<' || c == '>'
        || c == '|'
}

/// `s` with every reserved character replaced by an underscore.
pub open spec fn sanitized(s: Seq<char>) -> Seq<char> {
    Seq::new(
        s.len(),
        |i: int|
            if is_reserved(s[i]) {
                '_'
            } else {
                s[i]
            },
    )
}

/// The character of the decimal digit `d`.
pub open spec fn digit_char(d: nat) -> char {
    if d == 0 {
        '0'
    } else if d == 1 {
        '1'
    } else if d == 2 {
        '2'
    } else if d == 3 {
        '3'
    } else if d == 4 {
        '4'
    } else if d == 5 {
        '5'
    } else if d == 6 {
        '6'
    } else if d == 7 {
        '7'
    } else if d == 8 {
        '8'
    } else {
        '9'
    }
}

/// `n` in decimal, without leading zeros.
pub open spec fn decimal(n: nat) -> Seq<char>
    decreases n,
{
    if n < 10 {
        seq![digit_char(n)]
    } else {
        decimal(n / 10).push(digit_char(n % 10))
    }
}

/// `n` in decimal with at least two digits: a zero before a single digit.
pub open spec fn two_digits(n: nat) -> Seq<char> {
    if n < 10 {
        seq!['0'] + decimal(n)
    } else {
        decimal(n)
    }
}

/// The name of the file that the split tool writes for track `n`.
pub open spec fn split_name(n: nat) -> Seq<char> {
    "split-track"@ + two_digits(n) + ".flac"@
}

/// The name of the file that track `n` with the given title is
/// transcoded to.
pub open spec fn output_file_name(n: nat, title: Seq<char>) -> Seq<char> {
    two_digits(n) + "_"@ + sanitized(title) + ".m4a"@
}

pub fn is_reserved_char(c: char) -> (b: bool)
    ensures
        b == is_reserved(c),
{
    c == '/' || c == '\\' || c == ':' || c == '*' || c == '?' || c == '"' || c == '<' || c == '>'
        || c == '|'
}

/// `name` with every character that a file name may not hold replaced by
/// an underscore. All other characters stay as they are.
pub fn sanitize_filename(name: &str) -> (r: String)
    ensures
        r@ == sanitized(name@),
        r@.len() == name@.len(),
        forall|i: int|
            0 <= i < name@.len() ==> r@[i] == if is_reserved(#[trigger] name@[i]) {
                '_'
            } else {
                name@[i]
            },
{
    let n: usize = name.unicode_len();
    let mut r = String::new();
    let mut i: usize = 0;
    proof {
        reveal_strlit("_");
    }
    while i < n
        invariant
            i <= n,
            n == name@.len(),
            "_"@ == seq!['_'],
            r@ == sanitized(name@).subrange(0, i as int),
        decreases n - i,
    {
        if is_reserved_char(name.get_char(i)) {
            r.append("_");
        } else {
            r.append(name.substring_char(i, i + 1));
        }
        proof {
            assert(r@ =~= sanitized(name@).subrange(0, i + 1));
        }
        i += 1;
    }
    proof {
        assert(sanitized(name@).subrange(0, n as int) =~= sanitized(name@));
    }
    r
}

/// The one-character text of the decimal digit `d`.
pub fn digit_text(d: u32) -> (r: &'static str)
    requires
        d < 10,
    ensures
        r@ == seq![digit_char(d as nat)],
{
    proof {
        reveal_strlit("0");
        reveal_strlit("1");
        reveal_strlit("2");
        reveal_strlit("3");
        reveal_strlit("4");
        reveal_strlit("5");
        reveal_strlit("6");
        reveal_strlit("7");
        reveal_strlit("8");
        reveal_strlit("9");
    }
    if d == 0 {
        "0"
    } else if d == 1 {
        "1"
    } else if d == 2 {
        "2"
    } else if d == 3 {
        "3"
    } else if d == 4 {
        "4"
    } else if d == 5 {
        "5"
    } else if d == 6 {
        "6"
    } else if d == 7 {
        "7"
    } else if d == 8 {
        "8"
    } else {
        "9"
    }
}

/// `n` in decimal, without leading zeros.
pub fn decimal_text(n: u32) -> (r: String)
    ensures
        r@ == decimal(n as nat),
    decreases n,
{
    if n < 10 {
        String::from_str(digit_text(n))
    } else {
        let mut r = decimal_text(n / 10);
        r.append(digit_text(n % 10));
        proof {
            assert(r@ =~= decimal(n as nat));
        }
        r
    }
}

/// `n` in decimal with at least two digits.
pub fn two_digit_text(n: u32) -> (r: String)
    ensures
        r@ == two_digits(n as nat),
{
    if n < 10 {
        proof {
            reveal_strlit("0");
        }
        let mut r = String::from_str("0");
        r.append(digit_text(n));
        r
    } else {
        decimal_text(n)
    }
}

/// The name of the file that the split tool writes for track `n`.
pub fn split_track_name(n: u32) -> (r: String)
    ensures
        r@ == split_name(n as nat),
{
    let mut r = String::from_str("split-track");
    r.append(two_digit_text(n).as_str());
    r.append(".flac");
    r
}

/// The name of the file that track `n` with the given title is
/// transcoded to: the number, an underscore, the title made fit for a file
/// name, and the extension.
pub fn output_name(n: u32, title: &str) -> (r: String)
    ensures
        r@ == output_file_name(n as nat, title@),
{
    let mut r = two_digit_text(n);
    r.append("_");
    r.append(sanitize_filename(title).as_str());
    r.append(".m4a");
    r
}

/// `stem` followed by `extension`.
pub fn sibling_name(stem: &str, extension: &str) -> (r: String)
    ensures
        r@ == stem@ + extension@,
{
    let mut r = String::from_str(stem);
    r.append(extension);
    r
}

/// The names of the files of one album, as plain text.
pub struct AlbumFilesModel {
    pub audio: Seq<char>,
    pub cue: Seq<char>,
    pub artwork: Seq<char>,
    pub secondary_artwork: Seq<char>,
}

/// The names of the files of one album: the audio image, the sheet, the
/// primary artwork and the artwork under its second extension.
#[derive(Debug)]
pub struct AlbumFiles {
    pub audio: String,
    pub cue: String,
    pub artwork: String,
    pub secondary_artwork: String,
}

impl View for AlbumFiles {
    type V = AlbumFilesModel;

    open spec fn view(&self) -> AlbumFilesModel {
        AlbumFilesModel {
            audio: self.audio@,
            cue: self.cue@,
            artwork: self.artwork@,
            secondary_artwork: self.secondary_artwork@,
        }
    }
}

/// The files that belong to the sheet named `cue_name` whose name without
/// extension is `stem`: they share the stem and lie beside the sheet.
pub open spec fn files_of(stem: Seq<char>, cue_name: Seq<char>) -> AlbumFilesModel {
    AlbumFilesModel {
        audio: stem + ".flac"@,
        cue: cue_name,
        artwork: stem + ".jpg"@,
        secondary_artwork: stem + ".png"@,
    }
}

/// The names of the files that belong to a sheet.
pub fn album_files(stem: &str, cue_name: &str) -> (files: AlbumFiles)
    ensures
        files@ == files_of(stem@, cue_name@),
{
    AlbumFiles {
        audio: sibling_name(stem, ".flac"),
        cue: String::from_str(cue_name),
        artwork: sibling_name(stem, ".jpg"),
        secondary_artwork: sibling_name(stem, ".png"),
    }
}

/// What comes out of the sanitization holds no reserved character, and
/// sanitizing it again changes nothing.
pub proof fn lemma_sanitized_is_clean(s: Seq<char>)
    ensures
        forall|i: int| 0 <= i < s.len() ==> !is_reserved(#[trigger] sanitized(s)[i]),
        sanitized(sanitized(s)) == sanitized(s),
{
    assert(sanitized(sanitized(s)) =~= sanitized(s));
}

/// A text without reserved characters is its own sanitization.
pub proof fn lemma_sanitized_keeps_clean_text(s: Seq<char>)
    requires
        forall|i: int| 0 <= i < s.len() ==> !is_reserved(#[trigger] s[i]),
    ensures
        sanitized(s) == s,
{
    assert(sanitized(s) =~= s);
}

/// Every track number that a run looks for is written with exactly two
/// digits, so the names of the split files all have one length.
pub proof fn lemma_two_digits_len(n: nat)
    requires
        n <= MAX_TRACKS,
    ensures
        two_digits(n).len() == 2,
{
    if n >= 10 {
        assert(decimal(n / 10).len() == 1);
    }
}

/// A number in decimal is made of digits that spell that number.
pub proof fn lemma_decimal_digits(n: nat)
    ensures
        decimal(n).len() > 0,
        is_digit(decimal(n)[0]),
        digits_value(decimal(n)) == Some(n),
    decreases n,
{
    if n < 10 {
        let s = decimal(n);
        assert(s.drop_last() =~= Seq::<char>::empty());
        assert(digits_value(s.drop_last()) == Some(0nat));
    } else {
        lemma_decimal_digits(n / 10);
        let s = decimal(n);
        assert(s.drop_last() =~= decimal(n / 10));
        assert(s.last() == digit_char(n % 10));
    }
}

/// A number written in decimal reads back as the same number.
pub proof fn lemma_decimal_round_trip(n: u32)
    ensures
        unsigned_of(decimal(n as nat)) == Some(n),
{
    lemma_decimal_digits(n as nat);
}

} // verus!
