use orangenote::{
    format_srt, format_srt_time, format_timestamp, format_txt, format_vtt, AudioProcessor,
    validate_format, validate_input_file, validate_model, ChunkedRun, MergeConfig,
    RunStep, Segment, TranscriptionResult,
};

fn seg(id: i32, start_ms: i64, end_ms: i64, text: &str) -> Segment {
    Segment { id, start_ms, end_ms, text: text.to_string(), confidence: 9000, tokens: vec![] }
}

#[test]
fn test_format_timestamp() {
    assert_eq!(format_timestamp(0), "00:00:00.000");
    assert_eq!(format_timestamp(1000), "00:00:01.000");
    assert_eq!(format_timestamp(61000), "00:01:01.000");
    assert_eq!(format_timestamp(3661000), "01:01:01.000");
    assert_eq!(format_timestamp(3661500), "01:01:01.500");
}

#[test]
fn long_timestamps_keep_all_hour_digits() {
    assert_eq!(format_timestamp(360_000_007), "100:00:00.007");
    assert_eq!(format_srt_time(3_599_999), "00:59:59,999");
}

#[test]
fn segment_clock_texts() {
    let s = seg(0, 1500, 62_250, "x");
    assert_eq!(s.start_time_formatted(), "00:00:01.500");
    assert_eq!(s.end_time_formatted(), "00:01:02.250");
}

#[test]
fn transcript_text_and_confidence() {
    let mut r = TranscriptionResult {
        language: "en".to_string(),
        segments: vec![seg(0, 0, 1000, "Hello"), seg(1, 1000, 2000, "world")],
    };
    r.segments[1].confidence = 8001;
    assert_eq!(r.full_text(), "Hello world");
    assert_eq!(r.average_confidence(), 8500);
    let empty = TranscriptionResult { language: "en".to_string(), segments: vec![] };
    assert_eq!(empty.full_text(), "");
    assert_eq!(empty.average_confidence(), 0);
}

#[test]
fn renders_txt_srt_and_vtt() {
    let r = TranscriptionResult {
        language: "en".to_string(),
        segments: vec![seg(0, 0, 1200, "Hi there"), seg(1, 61_000, 62_500, "Bye")],
    };
    assert_eq!(format_txt(&r), "[00:00:00.000] Hi there\n[00:01:01.000] Bye");
    assert_eq!(
        format_srt(&r),
        "1\n00:00:00,000 --> 00:00:01,200\nHi there\n\n2\n00:01:01,000 --> 00:01:02,500\nBye\n"
    );
    assert_eq!(
        format_vtt(&r),
        "WEBVTT\n\n00:00:00,000 --> 00:00:01,200\nHi there\n\n00:01:01,000 --> 00:01:02,500\nBye\n"
    );
}

#[test]
fn validates_names() {
    assert!(validate_model("small").is_ok());
    assert!(validate_model("tiny.en").is_err());
    assert!(validate_format("vtt").is_ok());
    assert!(validate_format("VTT").is_err());
    assert!(validate_input_file("a.FLAC", true, true).is_ok());
    assert!(validate_input_file("a.flac", false, true).is_err());
    assert!(validate_input_file("a.flac", true, false).is_err());
    assert!(validate_input_file("a.mp4", true, true).is_err());
    assert!(validate_input_file("noext", true, true).is_err());
}

#[test]
fn resampling_positions() {
    assert_eq!(AudioProcessor::resampled_len(44100, 44100, 16000), 16000);
    assert_eq!(AudioProcessor::resampled_len(3, 48000, 16000), 1);
    assert_eq!(AudioProcessor::resampled_len(5, 16000, 16000), 5);
    assert_eq!(AudioProcessor::resampled_len(10, 3, 2), 7);
    let p = AudioProcessor::interpolation_point(5, 10, 3, 2);
    assert_eq!((p.lower, p.upper, p.frac_num, p.frac_den), (7, 8, 1, 2));
    let p = AudioProcessor::interpolation_point(6, 10, 3, 2);
    assert_eq!((p.lower, p.upper, p.frac_num, p.frac_den), (9, 9, 0, 2));
}

#[test]
fn test_empty_samples() {
    assert!(ChunkedRun::start(vec![], 5).is_err());
}

#[test]
fn chunked_run_walks_windows_then_merges() {
    let mut run = ChunkedRun::start(vec![0, 4000], 1).unwrap();
    match run.next_step() {
        RunStep::Transcribe { index, offset_ms } => assert_eq!((index, offset_ms), (0, 0)),
        RunStep::Merge => panic!("expected a window"),
    }
    let first = TranscriptionResult { language: "en".to_string(), segments: vec![seg(0, 0, 4500, "one two")] };
    assert!(run.record(Ok(first)).is_ok());
    match run.next_step() {
        RunStep::Transcribe { index, offset_ms } => assert_eq!((index, offset_ms), (1, 4000)),
        RunStep::Merge => panic!("expected a window"),
    }
    let err = run.record(Err("engine failed".to_string())).unwrap_err();
    assert_eq!(err, "Failed to transcribe chunk 1: engine failed");
    let second = TranscriptionResult { language: "en".to_string(), segments: vec![seg(0, 0, 1000, "three four")] };
    assert!(run.record(Ok(second)).is_ok());
    assert!(matches!(run.next_step(), RunStep::Merge));
    let merged = run.finish().unwrap();
    assert_eq!(merged.result.segments.len(), 2);
    assert_eq!(merged.result.segments[1].start_ms, 4000);
    let _ = MergeConfig::default();
}
