use remux_server::subtitles::{
    normalize_webvtt_timestamps, read_srt, srt_timestamp_to_ticks, srt_to_jellyfin_json,
    srt_to_vtt, track_events, Cue,
};

#[test]
fn srt_to_vtt_normalizes_hybrid_webvtt_timestamps() {
    let input = "WEBVTT\n\n1\n00:00:47,791 --> 00:00:49,791\nHello\n\n2\n00:00:50,000 --> 00:00:52,000 line:90%,start\nWorld\n";

    let output = srt_to_vtt(input);

    assert!(output.contains("00:00:47.791 --> 00:00:49.791"));
    assert!(output.contains("00:00:50.000 --> 00:00:52.000 line:90%,start"));
    assert!(!output.contains("00:00:47,791"));
}

#[test]
fn srt_to_vtt_keeps_valid_webvtt_timestamps() {
    let input = "WEBVTT\n\n00:00:01.000 --> 00:00:02.000 align:start\nHello\n";

    let output = srt_to_vtt(input);

    assert!(output.contains("00:00:01.000 --> 00:00:02.000 align:start"));
}

#[test]
fn srt_to_vtt_converts_crlf_separated_cues() {
    let input = "1\r\n00:00:47,791 --> 00:00:49,791\r\nHello\r\n\r\n2\r\n00:00:50,000 --> 00:00:52,000\r\nWorld\r\n";

    let output = srt_to_vtt(input);

    assert!(output.contains("00:00:47.791 --> 00:00:49.791"));
    assert!(output.contains("00:00:50.000 --> 00:00:52.000"));
    assert!(!output.contains("00:00:47,791"));
}

#[test]
fn srt_to_jellyfin_json_converts_crlf_separated_cues() {
    let input = "1\r\n00:00:01,000 --> 00:00:02,000\r\nHello\r\n\r\n2\r\n00:00:03,000 --> 00:00:04,000\r\nWorld\r\n";

    let output: serde_json::Value =
        serde_json::from_str(&srt_to_jellyfin_json(input)).unwrap();

    assert_eq!(output["TrackEvents"].as_array().unwrap().len(), 2);
    assert_eq!(output["TrackEvents"][1]["Text"], "World");
}

#[test]
fn srt_to_vtt_gives_the_whole_text() {
    let input = "1\r\n00:00:47,791 --> 00:00:49,791\r\nHello, you\r\n\r\n2\r\n00:00:50,000 --> 00:00:52,000\r\nWorld\r\n";
    assert_eq!(
        srt_to_vtt(input),
        "WEBVTT\n\n00:00:47.791 --> 00:00:49.791\nHello, you\n\n00:00:50.000 --> 00:00:52.000\nWorld\n\n"
    );
}

#[test]
fn srt_blocks_need_no_number() {
    assert_eq!(
        srt_to_vtt("00:00:01,000 --> 00:00:02,000\nA\nB\n\nalone\n\n"),
        "WEBVTT\n\n00:00:01.000 --> 00:00:02.000\nA\nB\n\n"
    );
}

#[test]
fn text_without_blocks_is_an_empty_vtt() {
    assert_eq!(srt_to_vtt(""), "WEBVTT\n\n");
    assert_eq!(srt_to_vtt("no cue"), "WEBVTT\n\n");
}

#[test]
fn vtt_starts_at_its_second_header() {
    assert_eq!(
        srt_to_vtt("WEBVTT\n\nmetadata\n\nWEBVTT\n\n00:00:01,000 --> 00:00:02,000\nHi, you\n"),
        "WEBVTT\n\n00:00:01.000 --> 00:00:02.000\nHi, you"
    );
}

#[test]
fn vtt_drops_byte_order_marks() {
    let plain = srt_to_vtt("WEBVTT\n\n00:00:01,000 --> 00:00:02,000\nHi");
    assert_eq!(
        srt_to_vtt("\u{FEFF}\u{FEFF}WEBVTT\n\n00:00:01,000 --> 00:00:02,000\nHi"),
        plain
    );
}

#[test]
fn every_result_has_the_header() {
    for input in ["", "x", "\u{FEFF}", "WEBVTT", " \n WEBVTT x", "1\n2\n3", "--> WEBVTT"] {
        assert!(srt_to_vtt(input).trim_start().starts_with("WEBVTT"));
    }
}

#[test]
fn line_ends_make_no_difference() {
    let text = "1\n00:00:01,000 --> 00:00:02,000\nA\n\n2\n00:00:03,000 --> 00:00:04,000\nB\n";
    for end in ["\r\n", "\r"] {
        let other = text.replace('\n', end);
        assert_eq!(srt_to_vtt(&other), srt_to_vtt(text));
        assert_eq!(srt_to_jellyfin_json(&other), srt_to_jellyfin_json(text));
    }
}

#[test]
fn normalizing_touches_timestamps_alone() {
    assert_eq!(
        normalize_webvtt_timestamps("a, b\n  1,5  -->  2,5   line:1,x y \nc, d"),
        "a, b\n1.5 --> 2.5 line:1,x y\nc, d"
    );
    assert_eq!(normalize_webvtt_timestamps("-->"), " --> ");
}

#[test]
fn normalizing_a_line_twice_is_once() {
    for line in ["1,0-->2,0", "x", "a --> b --> c,d", "\u{2003}1,0 -->\t2,0\u{a0}s,t "] {
        let once = normalize_webvtt_timestamps(line);
        assert_eq!(normalize_webvtt_timestamps(&once), once);
    }
}

#[test]
fn normalizing_keeps_every_line() {
    let text = "WEBVTT\n\n1\n00:00:01,000-->00:00:02,000 a,b\nHi, you\n\nlast";
    let once = normalize_webvtt_timestamps(text);
    assert_eq!(once, "WEBVTT\n\n1\n00:00:01.000 --> 00:00:02.000 a,b\nHi, you\n\nlast");
    assert_eq!(normalize_webvtt_timestamps(&once), once);
    assert_eq!(srt_to_vtt(text), once);
    assert_eq!(normalize_webvtt_timestamps("a\n\n"), "a\n");
}

#[test]
fn timestamps_are_read_as_ticks() {
    assert_eq!(srt_timestamp_to_ticks("01:02:03,004"), Some(37_230_040_000));
    assert_eq!(srt_timestamp_to_ticks("01:02:03.004"), Some(37_230_040_000));
    assert_eq!(srt_timestamp_to_ticks("00:00:01"), Some(10_000_000));
    assert_eq!(srt_timestamp_to_ticks("00:00:01,5"), Some(15_000_000));
    assert_eq!(srt_timestamp_to_ticks("00:00:01,1239"), Some(11_230_000));
    assert_eq!(srt_timestamp_to_ticks("+1:00:00"), Some(36_000_000_000));
    assert_eq!(srt_timestamp_to_ticks("-1:00:00"), Some(-36_000_000_000));
}

#[test]
fn other_texts_are_no_timestamps() {
    for text in ["", "1:2", "1:2:3:4", "a:00:00", "00:00:", "00:00:01,x", "00:00:01,é", " 1:0:0"] {
        assert_eq!(srt_timestamp_to_ticks(text), None);
    }
}

#[test]
fn cues_are_read() {
    let cues = read_srt("1\n00:00:01,000 --> 00:00:02,500\nA\nB\n\nbad\nx\n\n3\n00:00:03,000 --> x\nC")
        .unwrap();
    assert_eq!(cues.len(), 1);
    assert_eq!(cues[0].text, "A\nB");
    assert_eq!(cues[0].start, 10_000_000);
    assert_eq!(cues[0].end, 25_000_000);
}

#[test]
fn times_that_do_not_fit_are_not_read() {
    assert!(read_srt("1\n9223372036854775807:00:00,000 --> 00:00:01,000\nA").is_none());
    assert!(read_srt("1\n00:00:01,12é --> 00:00:02,000\nA").is_none());
}

#[test]
fn track_events_are_json() {
    let cues: Vec<Cue> = read_srt("1\n00:00:01,000 --> 00:00:02,000\n\"Hello\"").unwrap();
    assert_eq!(
        track_events(cues),
        "{\"TrackEvents\":[{\"EndPositionTicks\":20000000,\"Id\":\"0\",\"StartPositionTicks\":10000000,\"Text\":\"\\\"Hello\\\"\"}]}"
    );
    assert_eq!(srt_to_jellyfin_json(""), "{\"TrackEvents\":[]}");
}

#[test]
fn track_events_are_numbered() {
    let mut input = String::new();
    for n in 0..12 {
        input.push_str(&format!("{}\n00:00:{:02},000 --> 00:00:{:02},500\nT{}\n\n", n + 1, n, n, n));
    }
    let output: serde_json::Value =
        serde_json::from_str(&srt_to_jellyfin_json(&input)).unwrap();
    for n in 0..12usize {
        assert_eq!(output["TrackEvents"][n]["Id"], n.to_string());
        assert_eq!(output["TrackEvents"][n]["Text"], format!("T{}", n));
    }
}
