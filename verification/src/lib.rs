//! Metadata extraction from CUE sheets and the control logic of an album
//! conversion run: split one audio image into tracks, transcode each track
//! with its tags, then remove the intermediate files.

pub mod args;
pub mod cue;
pub mod decode;
pub mod naming;
pub mod pipeline;
pub mod resolve;
pub mod text;
