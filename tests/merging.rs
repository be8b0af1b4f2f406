use orangenote::{
    is_duplicate_segment, merge_checked, merge_transcription_results, normalize_text_to_words,
    text_similarity, MergeConfig, Segment, TranscriptionResult, CONFIDENCE_SCALE,
};

fn scaled(confidence: f32) -> u32 {
    (confidence * CONFIDENCE_SCALE as f32).round() as u32
}

fn make_segment(id: i32, start_ms: i64, end_ms: i64, text: &str, confidence: f32) -> Segment {
    Segment {
        id,
        start_ms,
        end_ms,
        text: text.to_string(),
        confidence: scaled(confidence),
        tokens: vec![],
    }
}

fn make_result(language: &str, segments: Vec<Segment>) -> TranscriptionResult {
    TranscriptionResult { language: language.to_string(), segments }
}

fn similarity(a: &str, b: &str) -> f64 {
    let s = text_similarity(a, b);
    s.shared as f64 / s.total as f64
}

#[test]
fn test_merge_empty_results() {
    let results: Vec<(TranscriptionResult, i64)> = vec![];
    let config = MergeConfig::default();
    let merged = merge_transcription_results(results, config);

    assert_eq!(merged.result.segments.len(), 0);
    assert_eq!(merged.chunks_merged, 0);
    assert_eq!(merged.duplicates_removed, 0);
    assert_eq!(merged.result.language, "unknown");
}

#[test]
fn test_merge_single_chunk() {
    let segment = make_segment(0, 0, 5000, "Hello world", 0.9);
    let result = make_result("en", vec![segment]);

    let results = vec![(result, 0)];
    let config = MergeConfig::default();
    let merged = merge_transcription_results(results, config);

    assert_eq!(merged.result.segments.len(), 1);
    assert_eq!(merged.result.language, "en");
    assert_eq!(merged.chunks_merged, 1);
    assert_eq!(merged.duplicates_removed, 0);
}

#[test]
fn test_merge_two_chunks_no_overlap() {
    let seg1 = make_segment(0, 0, 5000, "First segment", 0.9);
    let seg2 = make_segment(0, 0, 5000, "Second segment", 0.8);

    let result1 = make_result("en", vec![seg1]);
    let result2 = make_result("en", vec![seg2]);

    let results = vec![(result1, 0), (result2, 10000)];
    let config = MergeConfig::from_overlap_secs(5);
    let merged = merge_transcription_results(results, config);

    assert_eq!(merged.result.segments.len(), 2);
    assert_eq!(merged.result.segments[0].start_ms, 0);
    assert_eq!(merged.result.segments[1].start_ms, 10000);
    assert_eq!(merged.duplicates_removed, 0);
}

#[test]
fn test_merge_two_chunks_with_duplicate() {
    let seg1 = make_segment(0, 0, 5000, "Hello world today", 0.9);
    let seg2_dup = make_segment(0, 0, 5000, "Hello world today", 0.85);
    let seg2_new = make_segment(1, 6000, 10000, "New content", 0.9);

    let result1 = make_result("en", vec![seg1]);
    let result2 = make_result("en", vec![seg2_dup, seg2_new]);

    let results = vec![(result1, 0), (result2, 0)];
    let config = MergeConfig::from_overlap_secs(5);
    let merged = merge_transcription_results(results, config);

    assert_eq!(merged.result.segments.len(), 2);
    assert_eq!(merged.duplicates_removed, 1);
}

#[test]
fn test_merge_timestamps_adjusted() {
    let seg1 = make_segment(0, 1000, 3000, "First", 0.9);
    let seg2 = make_segment(0, 1000, 3000, "Second", 0.9);

    let result1 = make_result("en", vec![seg1]);
    let result2 = make_result("en", vec![seg2]);

    let results = vec![(result1, 0), (result2, 300000)];
    let config = MergeConfig::from_overlap_secs(5);
    let merged = merge_transcription_results(results, config);

    assert_eq!(merged.result.segments.len(), 2);
    assert_eq!(merged.result.segments[0].start_ms, 1000);
    assert_eq!(merged.result.segments[0].end_ms, 3000);
    assert_eq!(merged.result.segments[1].start_ms, 301000);
    assert_eq!(merged.result.segments[1].end_ms, 303000);
}

#[test]
fn test_merge_language_detection() {
    let seg = || make_segment(0, 0, 1000, "Test", 0.9);

    let result_en = make_result("en", vec![seg()]);
    let result_ru1 = make_result("ru", vec![seg()]);
    let result_ru2 = make_result("ru", vec![seg()]);

    let results = vec![(result_en, 0), (result_ru1, 10000), (result_ru2, 20000)];
    let config = MergeConfig::default();
    let merged = merge_transcription_results(results, config);

    assert_eq!(merged.result.language, "ru");
}

#[test]
fn test_merge_sequential_ids() {
    let seg1 = make_segment(5, 0, 1000, "First", 0.9);
    let seg2 = make_segment(10, 2000, 3000, "Second", 0.9);
    let seg3 = make_segment(15, 0, 1000, "Third", 0.9);

    let result1 = make_result("en", vec![seg1, seg2]);
    let result2 = make_result("en", vec![seg3]);

    let results = vec![(result1, 0), (result2, 50000)];
    let config = MergeConfig::from_overlap_secs(5);
    let merged = merge_transcription_results(results, config);

    assert_eq!(merged.result.segments[0].id, 0);
    assert_eq!(merged.result.segments[1].id, 1);
    assert_eq!(merged.result.segments[2].id, 2);
}

#[test]
fn test_text_similarity_identical() {
    assert!((similarity("hello world", "hello world") - 1.0).abs() < 0.001);
}

#[test]
fn test_text_similarity_case_insensitive() {
    assert!((similarity("Hello World", "hello world") - 1.0).abs() < 0.001);
}

#[test]
fn test_text_similarity_with_punctuation() {
    assert!((similarity("Hello, world!", "hello world") - 1.0).abs() < 0.001);
}

#[test]
fn test_text_similarity_different() {
    let s = similarity("hello world", "goodbye moon");
    assert!(s < 0.3);
}

#[test]
fn test_text_similarity_partial() {
    let s = similarity("hello world today", "hello world tomorrow");
    assert!(s > 0.4 && s < 0.6);
}

#[test]
fn test_text_similarity_empty() {
    assert!((similarity("", "") - 1.0).abs() < 0.001);
    assert!(similarity("hello", "").abs() < 0.001);
    assert!(similarity("", "world").abs() < 0.001);
}

#[test]
fn test_normalize_text_to_words() {
    let words = normalize_text_to_words("Hello, World! This is a TEST.");
    assert_eq!(words, vec!["hello", "world", "this", "is", "test"]);
}

#[test]
fn test_is_duplicate_similar_time_similar_text() {
    let seg1 = make_segment(0, 1000, 3000, "Hello world", 0.9);
    let seg2 = make_segment(0, 1500, 3500, "Hello world", 0.85);
    let config = MergeConfig::default();

    assert!(is_duplicate_segment(&seg1, &seg2, &config));
}

#[test]
fn test_is_duplicate_far_apart() {
    let seg1 = make_segment(0, 1000, 3000, "Hello world", 0.9);
    let seg2 = make_segment(0, 50000, 52000, "Hello world", 0.85);
    let config = MergeConfig::default();

    assert!(!is_duplicate_segment(&seg1, &seg2, &config));
}

#[test]
fn test_is_duplicate_different_text() {
    let seg1 = make_segment(0, 1000, 3000, "Hello world", 0.9);
    let seg2 = make_segment(0, 1500, 3500, "Goodbye moon", 0.85);
    let config = MergeConfig::default();

    assert!(!is_duplicate_segment(&seg1, &seg2, &config));
}

#[test]
fn test_prefer_higher_confidence() {
    let seg1 = make_segment(0, 0, 5000, "Hello world test", 0.7);
    let seg2 = make_segment(0, 0, 5000, "Hello world test", 0.95);

    let result1 = make_result("en", vec![seg1]);
    let result2 = make_result("en", vec![seg2]);

    let results = vec![(result1, 0), (result2, 0)];
    let mut config = MergeConfig::from_overlap_secs(5);
    config.prefer_higher_confidence = true;

    let merged = merge_transcription_results(results, config);

    assert_eq!(merged.result.segments.len(), 1);
    assert!(merged.result.segments[0].confidence > scaled(0.9));
}

#[test]
fn similarity_is_symmetric_and_exact() {
    let a = text_similarity("hello world today", "hello world tomorrow");
    let b = text_similarity("hello world tomorrow", "hello world today");
    assert_eq!((a.shared, a.total), (2, 4));
    assert_eq!((b.shared, b.total), (2, 4));
}

#[test]
fn similarity_of_text_with_itself_is_one() {
    let s = text_similarity("The cat, the CAT and the dog", "The cat, the CAT and the dog");
    assert_eq!(s.shared, s.total);
    assert_eq!(s.total, 4);
}

#[test]
fn single_letters_and_punctuation_are_ignored() {
    assert_eq!(normalize_text_to_words("a b c !! ?"), Vec::<String>::new());
    assert_eq!(normalize_text_to_words("don't stop-me"), vec!["dont", "stopme"]);
    let s = text_similarity("a I !", "");
    assert_eq!((s.shared, s.total), (1, 1));
    let s = text_similarity("word", "a");
    assert_eq!(s.shared, 0);
    assert!(s.total > 0);
    assert!(s.is_above(0, 1) == false);
}

#[test]
fn lowercasing_is_applied_to_words() {
    let words = normalize_text_to_words("ÉCOLE Straße");
    assert_eq!(words, vec!["école", "straße"]);
}

#[test]
fn identical_segments_collapse_keeping_earlier_without_confidence_gain() {
    let r1 = make_result("en", vec![make_segment(0, 2000, 4000, "Same words here", 0.9)]);
    let r2 = make_result("en", vec![make_segment(0, 0, 2000, "Same words here", 0.92)]);
    let merged = merge_transcription_results(vec![(r1, 0), (r2, 2000)], MergeConfig::default());
    assert_eq!(merged.result.segments.len(), 1);
    assert_eq!(merged.duplicates_removed, 1);
    assert_eq!(merged.total_segments_before, 2);
    assert_eq!(merged.result.segments[0].confidence, scaled(0.9));
    assert_eq!(merged.result.segments[0].start_ms, 2000);
}

#[test]
fn identical_segments_collapse_to_more_confident_later_one() {
    let r1 = make_result("en", vec![make_segment(0, 2000, 4000, "Same words here", 0.6)]);
    let mut later = make_segment(7, 0, 2000, "Same words here", 0.9);
    later.tokens.push(orangenote::Token { text: "Same".to_string(), probability: 9000 });
    let r2 = make_result("en", vec![later]);
    let merged = merge_transcription_results(vec![(r1, 0), (r2, 2000)], MergeConfig::default());
    assert_eq!(merged.result.segments.len(), 1);
    assert_eq!(merged.duplicates_removed, 1);
    let kept = &merged.result.segments[0];
    assert_eq!(kept.confidence, scaled(0.9));
    assert_eq!(kept.tokens.len(), 1);
    assert_eq!(kept.id, 0);
    assert_eq!(kept.end_ms, 4000);
}

#[test]
fn replacement_disabled_keeps_first_rendition() {
    let r1 = make_result("en", vec![make_segment(0, 0, 2000, "Same words here", 0.6)]);
    let r2 = make_result("en", vec![make_segment(0, 0, 2000, "Same words here", 0.9)]);
    let mut config = MergeConfig::default();
    config.prefer_higher_confidence = false;
    let merged = merge_transcription_results(vec![(r1, 0), (r2, 0)], config);
    assert_eq!(merged.result.segments.len(), 1);
    assert_eq!(merged.result.segments[0].confidence, scaled(0.6));
}

#[test]
fn merged_ids_follow_start_order() {
    let r1 = make_result(
        "de",
        vec![make_segment(9, 4000, 5000, "vier", 0.9), make_segment(3, 1000, 2000, "eins", 0.9)],
    );
    let r2 = make_result("de", vec![make_segment(1, 0, 1000, "zwei zwei", 0.9)]);
    let merged = merge_transcription_results(vec![(r1, 0), (r2, 2500)], MergeConfig::default());
    let starts: Vec<i64> = merged.result.segments.iter().map(|s| s.start_ms).collect();
    let ids: Vec<i32> = merged.result.segments.iter().map(|s| s.id).collect();
    assert_eq!(starts, vec![1000, 2500, 4000]);
    assert_eq!(ids, vec![0, 1, 2]);
}

#[test]
fn language_tie_goes_to_first_reported() {
    let r = |lang: &str, off: i64| (make_result(lang, vec![make_segment(0, 0, 500, "xy", 0.5)]), off);
    let merged = merge_transcription_results(
        vec![r("fr", 0), r("en", 10000), r("en", 20000), r("fr", 30000)],
        MergeConfig::default(),
    );
    assert_eq!(merged.result.language, "fr");
}

#[test]
fn merge_checked_refuses_offsets_that_overflow() {
    let r = make_result("en", vec![make_segment(0, i64::MAX - 10, i64::MAX - 5, "late", 0.5)]);
    assert!(merge_checked(vec![(r, 100)], MergeConfig::default()).is_none());
    let r = make_result("en", vec![make_segment(0, 10, 20, "fine", 0.5)]);
    let merged = merge_checked(vec![(r, 100)], MergeConfig::default()).unwrap();
    assert_eq!(merged.result.segments[0].start_ms, 110);
}

#[test]
fn merge_config_from_overlap() {
    let c = MergeConfig::from_overlap_secs(7);
    assert_eq!(c.overlap_ms, 7000);
    assert_eq!(c.similarity_threshold, 6000);
    assert_eq!(c.max_time_diff_ms, 10000);
    assert!(c.prefer_higher_confidence);
}
