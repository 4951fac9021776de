use omnidisc::subtitle_merge::{
    cues_to_ass, cues_to_srt, cues_to_vtt, extract_transcript, merge_bilingual_srt,
    merge_bilingual_vtt, parse_cues, parse_cues_ass, Cue,
};

#[test]
fn srt_blocks_parsed_index_aligned() {
    let p =
        "1\n00:00:01,000 --> 00:00:02,000\nHello\n\n2\n00:00:03,000 --> 00:00:04,000\nWorld";
    let s = "1\n00:00:01,000 --> 00:00:02,000\nOlá\n\n2\n00:00:03,000 --> 00:00:04,000\nMundo";
    let merged = merge_bilingual_srt(p, s);
    assert!(merged.contains("Hello\r\nOlá"));
    assert!(merged.contains("World\r\nMundo"));
    assert!(merged.starts_with("1\r\n"));
}

#[test]
fn vtt_has_header_and_no_index() {
    let p = "WEBVTT\n\n00:00:01.000 --> 00:00:02.000\nHi";
    let s = "WEBVTT\n\n00:00:01.000 --> 00:00:02.000\nOi";
    let merged = merge_bilingual_vtt(p, s);
    assert!(merged.starts_with("WEBVTT\r\n"));
    assert!(merged.contains("Hi\r\nOi"));
    assert!(!merged.contains("\r\n1\r\n"));
}

#[test]
fn uneven_lengths_fall_back_to_secondary_timing() {
    let p = "1\n00:00:01,000 --> 00:00:02,000\nOne";
    let s = "1\n00:00:01,000 --> 00:00:02,000\nUm\n\n2\n00:00:05,000 --> 00:00:06,000\nDois";
    let merged = merge_bilingual_srt(p, s);
    assert!(merged.contains("One\r\nUm"));
    assert!(merged.contains("00:00:05,000 --> 00:00:06,000\r\nDois"));
}

#[test]
fn empty_inputs_are_safe() {
    assert_eq!(merge_bilingual_srt("", ""), "");
    assert_eq!(merge_bilingual_vtt("", ""), "WEBVTT\r\n");
}

#[test]
fn transcript_strips_tags_and_dedupes() {
    let vtt = "WEBVTT\n\n00:00:01.000 --> 00:00:02.000\n<c>Hello</c> world\n\n00:00:02.000 --> 00:00:03.000\nHello world\n\n00:00:03.000 --> 00:00:04.000\nNext line";
    let t = extract_transcript(vtt);
    assert_eq!(t, "Hello world Next line");
}

#[test]
fn transcript_srt_plain() {
    let srt =
        "1\n00:00:01,000 --> 00:00:02,000\nFirst\n\n2\n00:00:03,000 --> 00:00:04,000\nSecond";
    assert_eq!(extract_transcript(srt), "First Second");
}

#[test]
fn parse_cues_srt_roundtrip() {
    let srt =
        "1\n00:00:01,500 --> 00:00:02,250\nHello\n\n2\n00:01:00,000 --> 00:01:02,000\nWorld";
    let cues = parse_cues(srt);
    assert_eq!(cues.len(), 2);
    assert_eq!(cues[0].start_ms, 1500);
    assert_eq!(cues[0].end_ms, 2250);
    assert_eq!(cues[1].start_ms, 60000);
    assert_eq!(cues[0].text, "Hello");
    let back = cues_to_srt(&cues);
    let again = parse_cues(&back);
    assert_eq!(again[1].start_ms, 60000);
    assert_eq!(again[1].text, "World");
}

#[test]
fn parse_cues_vtt() {
    let vtt = "WEBVTT\n\n00:00:01.000 --> 00:00:02.000\nHi there";
    let cues = parse_cues(vtt);
    assert_eq!(cues.len(), 1);
    assert_eq!(cues[0].start_ms, 1000);
    assert_eq!(cues[0].text, "Hi there");
    assert!(cues_to_vtt(&cues).starts_with("WEBVTT"));
}

#[test]
fn ass_roundtrip_and_autodetect() {
    let cues = vec![
        Cue {
            start_ms: 1500,
            end_ms: 2250,
            text: "Hello".to_string(),
        },
        Cue {
            start_ms: 60000,
            end_ms: 62000,
            text: "two\nlines".to_string(),
        },
    ];
    let ass = cues_to_ass(&cues);
    assert!(ass.contains("[Events]"));
    assert!(ass.contains("Dialogue: 0,0:00:01.50,0:00:02.25,Default,,0,0,0,,Hello"));
    // parse_cues must auto-detect ASS and restore \N as newline.
    let back = parse_cues(&ass);
    assert_eq!(back.len(), 2);
    assert_eq!(back[0].start_ms, 1500);
    assert_eq!(back[0].end_ms, 2250);
    assert_eq!(back[1].start_ms, 60000);
    assert_eq!(back[1].text, "two\nlines");
}

#[test]
fn ass_strips_override_tags_and_respects_format_columns() {
    let ass = "[Events]\n\
Format: Layer, Start, End, Style, Name, MarginL, MarginR, MarginV, Effect, Text\n\
Dialogue: 0,0:00:03.00,0:00:04.50,Default,,0,0,0,,{\\b1}Bold{\\b0} text";
    let cues = parse_cues_ass(ass);
    assert_eq!(cues.len(), 1);
    assert_eq!(cues[0].start_ms, 3000);
    assert_eq!(cues[0].end_ms, 4500);
    assert_eq!(cues[0].text, "Bold text");
}

#[test]
fn timestamps_read_back_what_was_written() {
    let times = [0u64, 1, 999, 1_000, 59_999, 3_599_999, 3_600_000, 360_000_000_007, u64::MAX];
    let cues: Vec<Cue> = times
        .iter()
        .map(|&t| Cue {
            start_ms: t,
            end_ms: t,
            text: "x".to_string(),
        })
        .collect();
    let srt = parse_cues(&cues_to_srt(&cues));
    let vtt = parse_cues(&cues_to_vtt(&cues));
    let ass = parse_cues(&cues_to_ass(&cues));
    assert_eq!(srt.len(), times.len());
    assert_eq!(vtt.len(), times.len());
    assert_eq!(ass.len(), times.len());
    for (i, &t) in times.iter().enumerate() {
        assert_eq!(srt[i].start_ms, t);
        assert_eq!(vtt[i].end_ms, t);
        assert_eq!(ass[i].start_ms, t - t % 10);
    }
}

#[test]
fn srt_writes_numbered_blocks() {
    let cues = vec![Cue {
        start_ms: 3_723_004,
        end_ms: 3_724_500,
        text: "Hi".to_string(),
    }];
    assert_eq!(cues_to_srt(&cues), "1\n01:02:03,004 --> 01:02:04,500\nHi\n\n");
    assert_eq!(
        cues_to_vtt(&cues),
        "WEBVTT\n\n01:02:03.004 --> 01:02:04.500\nHi\n\n"
    );
    assert!(cues_to_ass(&cues).ends_with("Dialogue: 0,1:02:03.00,1:02:04.50,Default,,0,0,0,,Hi\n"));
}

#[test]
fn malformed_timestamps_and_empty_text_are_skipped() {
    let srt = "1\n00:00:01,000 --> soon\nA\n\n2\n00:00:02,000 --> 00:00:03,000\n   \n\n3\n00:00:04,000 --> 00:00:05,000 align:start\nB";
    let cues = parse_cues(srt);
    assert_eq!(cues.len(), 1);
    assert_eq!(cues[0].start_ms, 4_000);
    assert_eq!(cues[0].end_ms, 5_000);
    assert_eq!(cues[0].text, "B");
    let short = parse_cues("00:01.5 --> 00:02.25\nshort form");
    assert_eq!(short[0].start_ms, 1_500);
    assert_eq!(short[0].end_ms, 2_250);
}

#[test]
fn transcript_never_repeats_a_line_or_keeps_a_blank_one() {
    let srt = "1\n00:00:01,000 --> 00:00:02,000\nA\n<i></i>\nA\n\n2\n00:00:02,000 --> 00:00:03,000\nB\nA";
    assert_eq!(extract_transcript(srt), "A B A");
}

#[test]
fn vtt_and_srt_read_back_their_own_cues() {
    let cues = vec![
        Cue { start_ms: 0, end_ms: 999, text: "first line\nsecond line".to_string() },
        Cue { start_ms: 3_599_999, end_ms: 3_600_000, text: "a, b -- c".to_string() },
        Cue { start_ms: 100_000_000, end_ms: 100_000_001, text: "x".to_string() },
    ];
    for written in [cues_to_vtt(&cues), cues_to_srt(&cues)] {
        let back = parse_cues(&written);
        assert_eq!(back.len(), cues.len());
        for (a, b) in back.iter().zip(cues.iter()) {
            assert_eq!(a.start_ms, b.start_ms);
            assert_eq!(a.end_ms, b.end_ms);
            assert_eq!(a.text, b.text);
        }
    }
}

#[test]
fn ass_reads_back_times_to_the_centisecond() {
    let cues = vec![
        Cue { start_ms: 1_234, end_ms: 5_678, text: "one\ntwo, three".to_string() },
        Cue { start_ms: 36_000_009, end_ms: 36_000_010, text: "last".to_string() },
    ];
    let back = parse_cues(&cues_to_ass(&cues));
    assert_eq!(back.len(), 2);
    assert_eq!((back[0].start_ms, back[0].end_ms), (1_230, 5_670));
    assert_eq!(back[0].text, "one\ntwo, three");
    assert_eq!((back[1].start_ms, back[1].end_ms), (36_000_000, 36_000_010));
    assert_eq!(back[1].text, "last");
}

#[test]
fn ass_keeps_backslashes_that_are_not_line_breaks() {
    let cues = vec![
        Cue { start_ms: 10, end_ms: 2_000, text: "C:\\temp\\x\nnext \\ line".to_string() },
        Cue { start_ms: 3_000, end_ms: 4_000, text: "ends with \\\nbreak".to_string() },
    ];
    let back = parse_cues(&cues_to_ass(&cues));
    assert_eq!(back.len(), 2);
    for (a, b) in back.iter().zip(cues.iter()) {
        assert_eq!(a.start_ms, b.start_ms);
        assert_eq!(a.end_ms, b.end_ms);
        assert_eq!(a.text, b.text);
    }
}
