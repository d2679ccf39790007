//! The argument lists that the split tool and the transcoder are run with.

use crate::naming::{decimal, decimal_text};
use crate::resolve::{ResolvedModel, ResolvedTrackMetadata};
use vstd::prelude::*;
use vstd::string::*;

verus! {

/// The program that splits the audio image.
pub const SPLIT_TOOL: &'static str = "shntool";

/// The program that transcodes one track.
pub const TRANSCODER: &'static str = "qaac64";

/// The texts that a list of strings holds.
pub open spec fn texts(v: Seq<String>) -> Seq<Seq<char>> {
    Seq::new(v.len(), |i: int| v[i]@)
}

/// The arguments of the split tool: split by the sheet at `cue_path`,
/// write FLAC, read the image at `audio_path`.
pub open spec fn split_command(cue_path: Seq<char>, audio_path: Seq<char>) -> Seq<Seq<char>> {
    seq!["split"@, "-f"@, cue_path, "-o"@, "flac"@, audio_path]
}

/// The arguments of the transcoder for one track: the fixed quality
/// settings, the artwork, the four tags and the track number, then the
/// file to read and the file to write.
pub open spec fn transcode_command(
    artwork_path: Seq<char>,
    meta: ResolvedModel,
    input_path: Seq<char>,
    output_path: Seq<char>,
) -> Seq<Seq<char>> {
    seq![
        "--no-optimize"@,
        "--tvbr"@,
        "91"@,
        "--verbose"@,
        "--artwork"@,
        artwork_path,
        "--title"@,
        meta.title,
        "--artist"@,
        meta.performer,
        "--album"@,
        meta.album,
        "--date"@,
        meta.date,
        "--track"@,
        decimal(meta.track_number as nat),
        input_path,
        "-o"@,
        output_path,
    ]
}

/// The arguments that the split tool is run with.
pub fn split_args(cue_path: &str, audio_path: &str) -> (args: Vec<String>)
    ensures
        texts(args@) == split_command(cue_path@, audio_path@),
{
    let mut args: Vec<String> = Vec::new();
    args.push(String::from_str("split"));
    args.push(String::from_str("-f"));
    args.push(String::from_str(cue_path));
    args.push(String::from_str("-o"));
    args.push(String::from_str("flac"));
    args.push(String::from_str(audio_path));
    proof {
        assert(texts(args@) =~= split_command(cue_path@, audio_path@));
    }
    args
}

/// The arguments that the transcoder is run with for one track.
pub fn transcode_args(
    artwork_path: &str,
    meta: &ResolvedTrackMetadata,
    input_path: &str,
    output_path: &str,
) -> (args: Vec<String>)
    ensures
        texts(args@) == transcode_command(artwork_path@, meta@, input_path@, output_path@),
{
    let mut args: Vec<String> = Vec::new();
    args.push(String::from_str("--no-optimize"));
    args.push(String::from_str("--tvbr"));
    args.push(String::from_str("91"));
    args.push(String::from_str("--verbose"));
    args.push(String::from_str("--artwork"));
    args.push(String::from_str(artwork_path));
    args.push(String::from_str("--title"));
    args.push(meta.title.clone());
    args.push(String::from_str("--artist"));
    args.push(meta.performer.clone());
    args.push(String::from_str("--album"));
    args.push(meta.album.clone());
    args.push(String::from_str("--date"));
    args.push(meta.date.clone());
    args.push(String::from_str("--track"));
    args.push(decimal_text(meta.track_number));
    args.push(String::from_str(input_path));
    args.push(String::from_str("-o"));
    args.push(String::from_str(output_path));
    proof {
        assert(texts(args@) =~= transcode_command(
            artwork_path@,
            meta@,
            input_path@,
            output_path@,
        ));
    }
    args
}

} // verus!
