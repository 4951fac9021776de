//! Subtitle conversion: merging two SRT or WebVTT files line by line,
//! flattening one into a transcript, and reading and writing cues in SRT,
//! WebVTT and ASS.

pub mod blocks;
pub mod transcript;
pub mod timestamps;
pub mod cues;
pub mod ass;
pub mod round_trip;
pub mod cue_round_trip;
pub mod ass_round_trip;
pub mod vtt_round_trip;
pub mod merge_laws;

use vstd::prelude::*;
use crate::text::{chars_of, string_of};
use crate::text::split::{join_seq, trim_start, views, join_chars, trim_start_chars};
use crate::text::scan::{starts_with, starts_with_chars};
use crate::subtitle_merge::blocks::{parse_blocks_spec, parse_blocks, merge_spec, merge};
use crate::subtitle_merge::transcript::{
    dedupe, raw_lines, transcript_lines, lemma_dedupe_lines,
};
use crate::subtitle_merge::cues::{
    CueSpec, cues_view, parse_srt_vtt_spec, srt_body, vtt_body, ass_body, parse_srt_vtt,
    write_srt_body, write_vtt_body, write_ass_body,
};
use crate::subtitle_merge::ass::{parse_ass_spec, parse_ass};
use crate::text::seq_contains;
use crate::text::str_contains;
use crate::subtitle_merge::merge_laws::{carried, longer, lemma_merge_keeps_every_block};
use crate::subtitle_merge::blocks::crlf;

verus! {

/// One subtitle cue: when it starts and ends, in milliseconds, and its text.
#[derive(Debug, Clone)]
pub struct Cue {
    pub start_ms: u64,
    pub end_ms: u64,
    pub text: String,
}

impl View for Cue {
    type V = (u64, u64, Seq<char>);

    open spec fn view(&self) -> (u64, u64, Seq<char>) {
        (self.start_ms, self.end_ms, self.text@)
    }
}

/// The two inputs merged as SRT: for each index, a number line, the primary's
/// timing and text, the secondary's text under it, and an empty line; past the
/// primary's end the secondary's own timing is used. Lines end in CRLF.
pub fn merge_bilingual_srt(primary: &str, secondary: &str) -> (r: String)
    ensures
        r@ == merge_spec(
            parse_blocks_spec(primary@, false),
            parse_blocks_spec(secondary@, false),
            Seq::empty(),
            true,
        ),
        forall|i: int|
            0 <= i < longer(parse_blocks_spec(primary@, false).len(), parse_blocks_spec(secondary@, false).len())
                ==> seq_contains(
                r@,
                join_seq(
                    #[trigger] carried(parse_blocks_spec(primary@, false), parse_blocks_spec(secondary@, false), i),
                    crlf(),
                ),
            ),
{
    let p = parse_blocks(chars_of(primary).as_slice(), false);
    let s = parse_blocks(chars_of(secondary).as_slice(), false);
    let header: Vec<Vec<char>> = Vec::new();
    assert(views(header@) =~= Seq::<Seq<char>>::empty());
    let out = merge(p.as_slice(), s.as_slice(), header, true);
    proof {
        let ps = parse_blocks_spec(primary@, false);
        let ss = parse_blocks_spec(secondary@, false);
        assert forall|i: int| 0 <= i < longer(ps.len(), ss.len()) implies seq_contains(
            merge_spec(ps, ss, Seq::<Seq<char>>::empty(), true),
            join_seq(#[trigger] carried(ps, ss, i), crlf()),
        ) by {
            lemma_merge_keeps_every_block(ps, ss, Seq::<Seq<char>>::empty(), true, i);
        }
    }
    string_of(out.as_slice())
}

/// The header of a merged WebVTT file: the `WEBVTT` line and an empty line.
pub open spec fn vtt_header() -> Seq<Seq<char>> {
    seq!["WEBVTT"@, Seq::empty()]
}

/// The two inputs merged as WebVTT: the header, then the entries as for SRT
/// but without number lines.
pub fn merge_bilingual_vtt(primary: &str, secondary: &str) -> (r: String)
    ensures
        r@ == merge_spec(
            parse_blocks_spec(primary@, true),
            parse_blocks_spec(secondary@, true),
            vtt_header(),
            false,
        ),
        forall|i: int|
            0 <= i < longer(parse_blocks_spec(primary@, true).len(), parse_blocks_spec(secondary@, true).len())
                ==> seq_contains(
                r@,
                join_seq(
                    #[trigger] carried(parse_blocks_spec(primary@, true), parse_blocks_spec(secondary@, true), i),
                    crlf(),
                ),
            ),
{
    let p = parse_blocks(chars_of(primary).as_slice(), true);
    let s = parse_blocks(chars_of(secondary).as_slice(), true);
    let mut header: Vec<Vec<char>> = Vec::new();
    header.push(chars_of("WEBVTT"));
    header.push(Vec::new());
    assert(views(header@) =~= vtt_header());
    let out = merge(p.as_slice(), s.as_slice(), header, false);
    proof {
        let ps = parse_blocks_spec(primary@, true);
        let ss = parse_blocks_spec(secondary@, true);
        assert forall|i: int| 0 <= i < longer(ps.len(), ss.len()) implies seq_contains(
            merge_spec(ps, ss, vtt_header(), false),
            join_seq(#[trigger] carried(ps, ss, i), crlf()),
        ) by {
            lemma_merge_keeps_every_block(ps, ss, vtt_header(), false, i);
        }
    }
    string_of(out.as_slice())
}

/// Whether a subtitle text is WebVTT: it begins, after whitespace, with `WEBVTT`.
pub open spec fn is_vtt(content: Seq<char>) -> bool {
    starts_with(trim_start(content), "WEBVTT"@)
}

/// The transcript of a subtitle text: the cleaned lines of its blocks, read
/// as WebVTT or SRT, joined with single spaces.
pub open spec fn transcript_spec(content: Seq<char>) -> Seq<char> {
    join_seq(dedupe(raw_lines(parse_blocks_spec(content, is_vtt(content)))), seq![' '])
}

/// The plain transcript of an SRT or WebVTT text: every text line without
/// markup tags and surrounding whitespace, empty lines skipped, a line equal
/// to the one kept before it skipped, the rest joined with spaces.
pub fn extract_transcript(content: &str) -> (r: String)
    ensures
        r@ == transcript_spec(content@),
{
    let cs = chars_of(content);
    let head = trim_start_chars(cs.as_slice());
    let tag = chars_of("WEBVTT");
    let vtt = starts_with_chars(head.as_slice(), tag.as_slice());
    let blocks = parse_blocks(cs.as_slice(), vtt);
    let lines = transcript_lines(blocks.as_slice());
    let sp = vec![' '];
    assert(sp@ =~= seq![' ']);
    let out = join_chars(lines.as_slice(), sp.as_slice());
    string_of(out.as_slice())
}

/// The lines that make up a transcript are never empty, and none repeats the
/// line before it.
pub proof fn lemma_transcript_lines_distinct_neighbours(content: Seq<char>)
    ensures
        ({
            let l = dedupe(raw_lines(parse_blocks_spec(content, is_vtt(content))));
            &&& forall|i: int| 0 <= i < l.len() ==> (#[trigger] l[i]).len() > 0
            &&& forall|i: int| 0 <= i < l.len() - 1 ==> #[trigger] l[i] != l[i + 1]
        }),
{
    lemma_dedupe_lines(raw_lines(parse_blocks_spec(content, is_vtt(content))));
}

/// The script header that `cues_to_ass` writes: script info, one `Default`
/// style, and the `[Events]` format line.
pub const ASS_HEADER: &'static str = "[Script Info]\nScriptType: v4.00+\nWrapStyle: 0\nScaledBorderAndShadow: yes\n\n\
[V4+ Styles]\n\
Format: Name, Fontname, Fontsize, PrimaryColour, SecondaryColour, OutlineColour, BackColour, Bold, Italic, Underline, StrikeOut, ScaleX, ScaleY, Spacing, Angle, BorderStyle, Outline, Shadow, Alignment, MarginL, MarginR, MarginV, Encoding\n\
Style: Default,Arial,48,&H00FFFFFF,&H000000FF,&H00000000,&H00000000,0,0,0,0,100,100,0,0,1,2,0,2,10,10,10,1\n\n\
[Events]\n\
Format: Layer, Start, End, Style, Name, MarginL, MarginR, MarginV, Effect, Text\n";

/// The cues of an ASS script: the `Dialogue:` lines of its `[Events]`
/// section, read by the columns its `Format:` line names (start 1, end 2,
/// text 9 until one does), with override blocks dropped and `\N` read as a
/// line break; lines whose timestamps do not read or whose text is empty are
/// skipped.
pub fn parse_cues_ass(content: &str) -> (r: Vec<Cue>)
    ensures
        cues_view(r@) == parse_ass_spec(content@),
{
    let cs = chars_of(content);
    parse_ass(cs.as_slice())
}

/// An ASS script holding `cues`: the fixed header, then one `Dialogue:` line
/// per cue with its line breaks written as `\N`.
pub fn cues_to_ass(cues: &[Cue]) -> (r: String)
    ensures
        r@ == ASS_HEADER@ + ass_body(cues_view(cues@)),
{
    let mut out = chars_of(ASS_HEADER);
    write_ass_body(&mut out, cues);
    string_of(out.as_slice())
}

/// Whether a text is read as ASS: it names `[Events]` or holds a `Dialogue:`.
pub open spec fn looks_like_ass(content: Seq<char>) -> bool {
    seq_contains(content, "[Events]"@) || seq_contains(content, "Dialogue:"@)
}

/// The cues of a subtitle text, read as ASS where it looks like one and as
/// SRT or WebVTT otherwise.
pub open spec fn parse_cues_spec(content: Seq<char>) -> Seq<CueSpec> {
    if looks_like_ass(content) {
        parse_ass_spec(content)
    } else {
        parse_srt_vtt_spec(content)
    }
}

/// The cues of an SRT, WebVTT or ASS text. SRT and WebVTT blocks give a cue
/// when their first `-->` line reads as two timestamps and text follows it.
pub fn parse_cues(content: &str) -> (r: Vec<Cue>)
    ensures
        cues_view(r@) == parse_cues_spec(content@),
{
    if str_contains(content, "[Events]") || str_contains(content, "Dialogue:") {
        return parse_cues_ass(content);
    }
    let cs = chars_of(content);
    parse_srt_vtt(cs.as_slice())
}

/// An SRT text holding `cues`: numbered from 1, each with its
/// `HH:MM:SS,mmm --> HH:MM:SS,mmm` line, its text and a blank line.
pub fn cues_to_srt(cues: &[Cue]) -> (r: String)
    ensures
        r@ == srt_body(cues_view(cues@)),
{
    let mut out: Vec<char> = Vec::new();
    write_srt_body(&mut out, cues);
    assert(out@ =~= srt_body(cues_view(cues@)));
    string_of(out.as_slice())
}

/// A WebVTT text holding `cues`: the `WEBVTT` line and a blank line, then each
/// cue with its `HH:MM:SS.mmm --> HH:MM:SS.mmm` line, its text and a blank
/// line.
pub fn cues_to_vtt(cues: &[Cue]) -> (r: String)
    ensures
        r@ == "WEBVTT\n\n"@ + vtt_body(cues_view(cues@)),
{
    let mut out = chars_of("WEBVTT\n\n");
    write_vtt_body(&mut out, cues);
    string_of(out.as_slice())
}

} // verus!
