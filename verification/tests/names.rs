use cue_album::args::{split_args, transcode_args, SPLIT_TOOL, TRANSCODER};
use cue_album::naming::{
    decimal_text, output_name, sanitize_filename, sibling_name, split_track_name, two_digit_text,
};
use cue_album::resolve::ResolvedTrackMetadata;
use cue_album::text::{
    find_line_end, is_whitespace, parse_unsigned, second_word, skip_chars, starts_with,
    strip_quotes, trim,
};

#[test]
fn every_reserved_character_becomes_underscore() {
    assert_eq!(sanitize_filename("/\\:*?\"<>|"), "_________");
    assert_eq!(sanitize_filename("a/b\\c:d*e?f\"g<h>i|j"), "a_b_c_d_e_f_g_h_i_j");
}

#[test]
fn other_characters_are_unchanged() {
    assert_eq!(sanitize_filename("Song A (live) [1].x"), "Song A (live) [1].x");
    assert_eq!(sanitize_filename("\u{66F2}\u{3000}\u{00E9}_-"), "\u{66F2}\u{3000}\u{00E9}_-");
    assert_eq!(sanitize_filename(""), "");
    assert_eq!(sanitize_filename("\u{FF1A}\u{2044}"), "\u{FF1A}\u{2044}");
}

#[test]
fn sanitize_keeps_length() {
    let name = "AC/DC: Who?";
    let clean = sanitize_filename(name);
    assert_eq!(clean, "AC_DC_ Who_");
    assert_eq!(clean.chars().count(), name.chars().count());
}

#[test]
fn numbers_in_decimal() {
    assert_eq!(decimal_text(0), "0");
    assert_eq!(decimal_text(7), "7");
    assert_eq!(decimal_text(10), "10");
    assert_eq!(decimal_text(99), "99");
    assert_eq!(decimal_text(4294967295), "4294967295");
    assert_eq!(two_digit_text(0), "00");
    assert_eq!(two_digit_text(5), "05");
    assert_eq!(two_digit_text(42), "42");
    assert_eq!(two_digit_text(123), "123");
}

#[test]
fn split_file_names() {
    assert_eq!(split_track_name(1), "split-track01.flac");
    assert_eq!(split_track_name(9), "split-track09.flac");
    assert_eq!(split_track_name(10), "split-track10.flac");
    assert_eq!(split_track_name(99), "split-track99.flac");
}

#[test]
fn output_file_names() {
    assert_eq!(output_name(1, "Song A"), "01_Song A.m4a");
    assert_eq!(output_name(12, "What? / Why:"), "12_What_ _ Why_.m4a");
    assert_eq!(output_name(3, "unknown"), "03_unknown.m4a");
}

#[test]
fn sibling_names() {
    assert_eq!(sibling_name("album", ".flac"), "album.flac");
    assert_eq!(sibling_name("my album", ".jpg"), "my album.jpg");
}

#[test]
fn split_arguments() {
    assert_eq!(SPLIT_TOOL, "shntool");
    let args = split_args("/music/a/album.cue", "/music/a/album.flac");
    assert_eq!(
        args,
        vec!["split", "-f", "/music/a/album.cue", "-o", "flac", "/music/a/album.flac"]
    );
}

#[test]
fn transcode_arguments() {
    assert_eq!(TRANSCODER, "qaac64");
    let meta = ResolvedTrackMetadata {
        track_number: 4,
        title: String::from("T"),
        performer: String::from("P"),
        album: String::from("A"),
        date: String::from("2001"),
    };
    let args = transcode_args("/m/a.jpg", &meta, "/m/split-track04.flac", "/m/04_T.m4a");
    assert_eq!(
        args,
        vec![
            "--no-optimize",
            "--tvbr",
            "91",
            "--verbose",
            "--artwork",
            "/m/a.jpg",
            "--title",
            "T",
            "--artist",
            "P",
            "--album",
            "A",
            "--date",
            "2001",
            "--track",
            "4",
            "/m/split-track04.flac",
            "-o",
            "/m/04_T.m4a",
        ]
    );
}

#[test]
fn whitespace_characters() {
    for c in [' ', '\t', '\n', '\r', '\u{0B}', '\u{0C}', '\u{85}', '\u{A0}', '\u{1680}', '\u{2000}', '\u{200A}', '\u{2028}', '\u{2029}', '\u{202F}', '\u{205F}', '\u{3000}'] {
        assert!(is_whitespace(c));
        assert!(c.is_whitespace());
    }
    for c in ['a', '0', '_', '\u{200B}', '\u{FEFF}', '\u{1C}', '\u{180E}'] {
        assert!(!is_whitespace(c));
        assert!(!c.is_whitespace());
    }
}

#[test]
fn trimming() {
    assert_eq!(trim("  a b \t\r\n"), "a b");
    assert_eq!(trim(""), "");
    assert_eq!(trim(" \u{3000} "), "");
    assert_eq!(trim("x"), "x");
    assert_eq!(trim("\u{3000}\u{66F2} \u{00E9}\u{A0}"), "\u{66F2} \u{00E9}");
}

#[test]
fn prefixes() {
    assert!(starts_with("TRACK 01", "TRACK"));
    assert!(starts_with("TRACKS", "TRACK"));
    assert!(starts_with("abc", ""));
    assert!(!starts_with("TRAC", "TRACK"));
    assert!(!starts_with("TITLE", "TRACK"));
    assert_eq!(skip_chars("TITLE x", 5), " x");
    assert_eq!(skip_chars("\u{66F2}\u{66F2}a", 2), "a");
    assert_eq!(skip_chars("ab", 2), "");
}

#[test]
fn quotes() {
    assert_eq!(strip_quotes("\"a\""), "a");
    assert_eq!(strip_quotes("\"\""), "");
    assert_eq!(strip_quotes("\""), "\"");
    assert_eq!(strip_quotes("\"a"), "\"a");
    assert_eq!(strip_quotes("a\""), "a\"");
    assert_eq!(strip_quotes("\"\"a\"\""), "\"a\"");
    assert_eq!(strip_quotes(""), "");
}

#[test]
fn second_words() {
    assert_eq!(second_word("TRACK 01 AUDIO"), Some("01"));
    assert_eq!(second_word("TRACK"), None);
    assert_eq!(second_word("TRACK   "), None);
    assert_eq!(second_word("  a\t\tb"), Some("b"));
    assert_eq!(second_word(""), None);
}

#[test]
fn unsigned_numbers() {
    assert_eq!(parse_unsigned("0"), Some(0));
    assert_eq!(parse_unsigned("01"), Some(1));
    assert_eq!(parse_unsigned("+5"), Some(5));
    assert_eq!(parse_unsigned("4294967295"), Some(4294967295));
    assert_eq!(parse_unsigned("4294967296"), None);
    assert_eq!(parse_unsigned("99999999999999999999999"), None);
    assert_eq!(parse_unsigned(""), None);
    assert_eq!(parse_unsigned("+"), None);
    assert_eq!(parse_unsigned("-1"), None);
    assert_eq!(parse_unsigned("1a"), None);
    assert_eq!(parse_unsigned("++1"), None);
    assert_eq!(parse_unsigned("\u{FF11}"), None);
    for s in ["0", "01", "+5", "4294967295", "4294967296", "", "+", "-1", "1a", "++1", "000000000000042"] {
        assert_eq!(parse_unsigned(s), s.parse::<u32>().ok());
    }
}

#[test]
fn line_ends() {
    assert_eq!(find_line_end("ab\ncd", 0, 5), 2);
    assert_eq!(find_line_end("ab\ncd", 2, 5), 2);
    assert_eq!(find_line_end("ab\ncd", 3, 5), 5);
    assert_eq!(find_line_end("", 0, 0), 0);
    assert_eq!(find_line_end("\u{66F2}\u{66F2}\n", 0, 3), 2);
}

#[test]
fn decimal_reads_back() {
    for n in [0u32, 1, 9, 10, 99, 100, 65535, 4294967295] {
        assert_eq!(parse_unsigned(&decimal_text(n)), Some(n));
    }
}

#[test]
fn whitespace_agrees_on_every_character() {
    let mut c = '\0';
    loop {
        assert_eq!(is_whitespace(c), c.is_whitespace());
        if c == char::MAX {
            break;
        }
        let mut next = c as u32 + 1;
        while char::from_u32(next).is_none() {
            next += 1;
        }
        c = char::from_u32(next).unwrap_or(char::MAX);
    }
}

#[test]
fn two_digit_numbers_read_back() {
    for n in 1u32..=99 {
        let text = two_digit_text(n);
        assert_eq!(text.len(), 2);
        assert_eq!(text.parse::<u32>().ok(), Some(n));
        assert_eq!(text, format!("{:02}", n));
        assert_eq!(decimal_text(n), n.to_string());
    }
}
