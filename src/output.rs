//! Checking command-line choices and rendering transcripts as plain text and
//! subtitles.

use vstd::prelude::*;
use vstd::string::*;
use crate::audio_format::{extension_of, is_text, path_extension};
use crate::segment::{clock_text, decimal, push_clock, push_decimal, Segment, TranscriptionResult};
use crate::text::{lower_of, lowercase};

verus! {

/// The model names accepted on the command line.
pub open spec fn is_listed_model(m: Seq<char>) -> bool {
    m == "tiny"@ || m == "base"@ || m == "small"@ || m == "medium"@ || m == "large"@
}

/// The output formats accepted on the command line.
pub open spec fn is_listed_format(f: Seq<char>) -> bool {
    f == "json"@ || f == "txt"@ || f == "srt"@ || f == "vtt"@ || f == "tsv"@
}

/// The input extensions accepted on the command line (lowercase).
pub open spec fn is_listed_input(e: Seq<char>) -> bool {
    e == "mp3"@ || e == "wav"@ || e == "m4a"@ || e == "flac"@ || e == "ogg"@ || e == "wma"@
}

/// Accepts one of the model names `tiny`, `base`, `small`, `medium`, `large`.
pub fn validate_model(model: &str) -> (r: Result<(), String>)
    ensures
        r is Ok <==> is_listed_model(model@),
{
    let m = String::from_str(model);
    if is_text(&m, "tiny") || is_text(&m, "base") || is_text(&m, "small") || is_text(&m, "medium")
        || is_text(&m, "large") {
        return Ok(());
    }
    let mut msg = String::from_str("Invalid model: '");
    msg.append(model);
    msg.append("'. Valid models: tiny, base, small, medium, large");
    Err(msg)
}

/// Accepts one of the output formats `json`, `txt`, `srt`, `vtt`, `tsv`.
pub fn validate_format(format: &str) -> (r: Result<(), String>)
    ensures
        r is Ok <==> is_listed_format(format@),
{
    let f = String::from_str(format);
    if is_text(&f, "json") || is_text(&f, "txt") || is_text(&f, "srt") || is_text(&f, "vtt")
        || is_text(&f, "tsv") {
        return Ok(());
    }
    let mut msg = String::from_str("Invalid format: '");
    msg.append(format);
    msg.append("'. Valid formats: json, txt, srt, vtt, tsv");
    Err(msg)
}

/// Accepts an input path that exists, is a regular file, and has one of the
/// extensions `mp3`, `wav`, `m4a`, `flac`, `ogg`, `wma` in any case; the
/// checks are made in that order.
pub fn validate_input_file(path: &str, exists: bool, is_file: bool) -> (r: Result<(), String>)
    ensures
        r is Ok <==> exists && is_file && (extension_of(path@) matches Some(e) && is_listed_input(lower_of(e))),
{
    if !exists {
        let mut msg = String::from_str("Input file does not exist: ");
        msg.append(path);
        return Err(msg);
    }
    if !is_file {
        let mut msg = String::from_str("Path is not a file: ");
        msg.append(path);
        return Err(msg);
    }
    let ext = match path_extension(path) {
        Some(e) => e,
        None => {
            return Err(String::from_str("Input file has no extension"));
        },
    };
    let e = lowercase(ext.as_str());
    if is_text(&e, "mp3") || is_text(&e, "wav") || is_text(&e, "m4a") || is_text(&e, "flac")
        || is_text(&e, "ogg") || is_text(&e, "wma") {
        return Ok(());
    }
    let mut msg = String::from_str("Unsupported audio format: .");
    msg.append(e.as_str());
    msg.append(". Supported formats: mp3, wav, m4a, flac, ogg, wma");
    Err(msg)
}

/// Renders a time in milliseconds as `HH:MM:SS,mmm`, the subtitle clock.
pub fn format_srt_time(ms: i64) -> (r: String)
    requires
        ms >= 0,
    ensures
        r@ == clock_text(ms as nat, ","@),
{
    let mut out = String::new();
    push_clock(&mut out, ms, ",");
    assert(out@ =~= clock_text(ms as nat, ","@));
    out
}

/// `parts` joined by `sep`.
pub open spec fn join_with(parts: Seq<Seq<char>>, sep: Seq<char>) -> Seq<char>
    decreases parts.len(),
{
    if parts.len() == 0 {
        Seq::empty()
    } else if parts.len() == 1 {
        parts[0]
    } else {
        join_with(parts.drop_last(), sep) + sep + parts.last()
    }
}

/// Whether every segment has a non-negative id and non-negative times.
pub open spec fn renderable(segs: Seq<Segment>) -> bool {
    forall|i: int| 0 <= i < segs.len() ==> {
        &&& (#[trigger] segs[i]).start_ms >= 0
        &&& segs[i].end_ms >= 0
        &&& segs[i].id >= 0
    }
}

/// A plain-text line: `[HH:MM:SS.mmm] text`.
pub open spec fn txt_line(seg: Segment) -> Seq<char> {
    "["@ + clock_text(seg.start_ms as nat, "."@) + "] "@ + seg.text@
}

/// A subtitle cue: the one-based number, the time range, the text.
pub open spec fn srt_block(seg: Segment) -> Seq<char> {
    decimal((seg.id + 1) as nat) + "\n"@ + clock_text(seg.start_ms as nat, ","@) + " --> "@
        + clock_text(seg.end_ms as nat, ","@) + "\n"@ + seg.text@ + "\n"@
}

/// A WebVTT cue: the time range and the text.
pub open spec fn vtt_block(seg: Segment) -> Seq<char> {
    clock_text(seg.start_ms as nat, ","@) + " --> "@ + clock_text(seg.end_ms as nat, ","@) + "\n"@
        + seg.text@ + "\n"@
}

/// The kinds of rendering, one line or cue per segment.
pub enum Layout {
    Txt,
    Srt,
    Vtt,
}

pub open spec fn render_one(layout: Layout, seg: Segment) -> Seq<char> {
    match layout {
        Layout::Txt => txt_line(seg),
        Layout::Srt => srt_block(seg),
        Layout::Vtt => vtt_block(seg),
    }
}

pub open spec fn rendered(layout: Layout, segs: Seq<Segment>) -> Seq<Seq<char>> {
    segs.map_values(|seg: Segment| render_one(layout, seg))
}

fn push_one(out: &mut String, layout: &Layout, seg: &Segment)
    requires
        seg.start_ms >= 0,
        seg.end_ms >= 0,
        seg.id >= 0,
    ensures
        final(out)@ == old(out)@ + render_one(*layout, *seg),
{
    let ghost start = out@;
    match layout {
        Layout::Txt => {
            out.append("[");
            push_clock(out, seg.start_ms, ".");
            out.append("] ");
            out.append(seg.text.as_str());
        },
        Layout::Srt => {
            push_decimal(out, (seg.id as i64 + 1) as u64);
            out.append("\n");
            push_clock(out, seg.start_ms, ",");
            out.append(" --> ");
            push_clock(out, seg.end_ms, ",");
            out.append("\n");
            out.append(seg.text.as_str());
            out.append("\n");
        },
        Layout::Vtt => {
            push_clock(out, seg.start_ms, ",");
            out.append(" --> ");
            push_clock(out, seg.end_ms, ",");
            out.append("\n");
            out.append(seg.text.as_str());
            out.append("\n");
        },
    }
    assert(out@ =~= start + render_one(*layout, *seg));
}

fn push_all(out: &mut String, layout: Layout, segs: &Vec<Segment>, sep: &str)
    requires
        renderable(segs@),
    ensures
        final(out)@ == old(out)@ + join_with(rendered(layout, segs@), sep@),
{
    let ghost start = out@;
    let mut i: usize = 0;
    while i < segs.len()
        invariant
            renderable(segs@),
            0 <= i <= segs@.len(),
            out@ == start + join_with(rendered(layout, segs@.take(i as int)), sep@),
        decreases segs@.len() - i,
    {
        let ghost before = rendered(layout, segs@.take(i as int));
        assert(rendered(layout, segs@.take(i as int + 1)).drop_last() =~= before);
        if i > 0 {
            out.append(sep);
        }
        push_one(out, &layout, &segs[i]);
        i = i + 1;
        assert(rendered(layout, segs@.take(i as int)).last() == render_one(layout, segs@[i - 1]));
        assert(out@ =~= start + join_with(rendered(layout, segs@.take(i as int)), sep@));
    }
    assert(segs@.take(i as int) =~= segs@);
}

/// One `[HH:MM:SS.mmm] text` line per segment.
pub fn format_txt(result: &TranscriptionResult) -> (r: String)
    requires
        renderable(result.segments@),
    ensures
        r@ == join_with(rendered(Layout::Txt, result.segments@), "\n"@),
{
    let mut out = String::new();
    push_all(&mut out, Layout::Txt, &result.segments, "\n");
    assert(out@ =~= join_with(rendered(Layout::Txt, result.segments@), "\n"@));
    out
}

/// SubRip subtitles: one numbered cue per segment, cues separated by a blank
/// line.
pub fn format_srt(result: &TranscriptionResult) -> (r: String)
    requires
        renderable(result.segments@),
    ensures
        r@ == join_with(rendered(Layout::Srt, result.segments@), "\n"@),
{
    let mut out = String::new();
    push_all(&mut out, Layout::Srt, &result.segments, "\n");
    assert(out@ =~= join_with(rendered(Layout::Srt, result.segments@), "\n"@));
    out
}

/// WebVTT subtitles: the `WEBVTT` header, then one cue per segment.
pub fn format_vtt(result: &TranscriptionResult) -> (r: String)
    requires
        renderable(result.segments@),
    ensures
        r@ == "WEBVTT\n\n"@ + join_with(rendered(Layout::Vtt, result.segments@), "\n"@),
{
    let mut out = String::from_str("WEBVTT\n\n");
    push_all(&mut out, Layout::Vtt, &result.segments, "\n");
    out
}

} // verus!
