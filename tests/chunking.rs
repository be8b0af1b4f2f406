use orangenote::{AudioSamples, ChunkConfig};

fn mono(samples: Vec<f32>) -> AudioSamples<f32> {
    AudioSamples { samples, original_sample_rate: 16000, original_channels: 1 }
}

#[test]
fn test_chunk_config_default() {
    let config = ChunkConfig::default();
    assert_eq!(config.chunk_duration_secs, 300);
    assert_eq!(config.overlap_secs, 5);
}

#[test]
fn test_chunk_config_from_minutes() {
    let config = ChunkConfig::from_minutes(10, 10);
    assert_eq!(config.chunk_duration_secs, 600);
    assert_eq!(config.overlap_secs, 10);
}

#[test]
fn test_split_into_chunks_single_chunk() {
    let samples = mono(vec![0.0; 16000 * 60]);
    let config = ChunkConfig { chunk_duration_secs: 300, overlap_secs: 5 };
    let chunks = samples.split_into_chunks(&config);

    assert_eq!(chunks.len(), 1);
    assert_eq!(chunks[0].index, 0);
    assert_eq!(chunks[0].start_offset_ms, 0);
    assert!(chunks[0].is_last);
    assert_eq!(chunks[0].samples.len(), 16000 * 60);
}

#[test]
fn test_split_into_chunks_multiple() {
    let samples = mono(vec![0.0; 16000 * 60 * 12]);
    let config = ChunkConfig { chunk_duration_secs: 300, overlap_secs: 30 };
    let chunks = samples.split_into_chunks(&config);

    assert_eq!(chunks.len(), 3);

    assert_eq!(chunks[0].index, 0);
    assert_eq!(chunks[0].start_offset_ms, 0);
    assert!(!chunks[0].is_last);
    assert_eq!(chunks[0].samples.len(), 16000 * 300);

    assert_eq!(chunks[1].index, 1);
    assert_eq!(chunks[1].start_offset_ms, 270_000);
    assert!(!chunks[1].is_last);
    assert_eq!(chunks[1].samples.len(), 16000 * 300);

    assert_eq!(chunks[2].index, 2);
    assert_eq!(chunks[2].start_offset_ms, 540_000);
    assert!(chunks[2].is_last);
    assert_eq!(chunks[2].samples.len(), 16000 * 180);
}

#[test]
fn test_split_into_chunks_empty() {
    let samples = mono(vec![]);
    let config = ChunkConfig::default();
    let chunks = samples.split_into_chunks(&config);

    assert!(chunks.is_empty());
}

#[test]
fn test_split_into_chunks_exact_fit() {
    let samples = mono(vec![0.0; 16000 * 60 * 10]);
    let config = ChunkConfig { chunk_duration_secs: 300, overlap_secs: 0 };
    let chunks = samples.split_into_chunks(&config);

    assert_eq!(chunks.len(), 2);
    assert_eq!(chunks[0].start_offset_ms, 0);
    assert_eq!(chunks[1].start_offset_ms, 300_000);
    assert!(chunks[1].is_last);
}

#[test]
fn test_split_into_chunks_basic() {
    let ten_seconds_samples = 16000 * 10;
    let samples = mono(vec![0.1; ten_seconds_samples]);
    let config = ChunkConfig { chunk_duration_secs: 5, overlap_secs: 1 };
    let chunks = samples.split_into_chunks(&config);

    assert_eq!(chunks.len(), 3, "Expected 3 chunks");

    assert_eq!(chunks[0].index, 0);
    assert_eq!(chunks[0].start_offset_ms, 0);
    assert_eq!(chunks[0].samples.len(), 16000 * 5);
    assert!(!chunks[0].is_last);

    assert_eq!(chunks[1].index, 1);
    assert_eq!(chunks[1].start_offset_ms, 4000);
    assert_eq!(chunks[1].samples.len(), 16000 * 5);
    assert!(!chunks[1].is_last);

    assert_eq!(chunks[2].index, 2);
    assert_eq!(chunks[2].start_offset_ms, 8000);
    assert_eq!(chunks[2].samples.len(), 16000 * 2);
    assert!(chunks[2].is_last);
}

#[test]
fn test_split_short_audio() {
    let three_seconds_samples = 16000 * 3;
    let samples = mono(vec![0.5; three_seconds_samples]);
    let config = ChunkConfig { chunk_duration_secs: 5, overlap_secs: 1 };
    let chunks = samples.split_into_chunks(&config);

    assert_eq!(chunks.len(), 1, "Short audio should produce single chunk");
    assert_eq!(chunks[0].index, 0);
    assert_eq!(chunks[0].start_offset_ms, 0);
    assert_eq!(chunks[0].samples.len(), three_seconds_samples);
    assert!(chunks[0].is_last);
    assert_eq!(chunks[0].duration_ms, 3000);
}

#[test]
fn test_split_no_overlap() {
    let samples = mono(vec![1.0; 16000 * 10]);
    let config = ChunkConfig { chunk_duration_secs: 5, overlap_secs: 0 };
    let chunks = samples.split_into_chunks(&config);

    assert_eq!(chunks.len(), 2);
    assert_eq!(chunks[0].start_offset_ms, 0);
    assert_eq!(chunks[0].samples.len(), 16000 * 5);
    assert_eq!(chunks[1].start_offset_ms, 5000);
    assert_eq!(chunks[1].samples.len(), 16000 * 5);
    assert!(chunks[1].is_last);
}

#[test]
fn test_chunk_samples_content() {
    let mut data = vec![0.0; 16000 * 10];
    for i in 0..data.len() {
        data[i] = (i as f32) / 1000.0;
    }
    let samples = mono(data);
    let config = ChunkConfig { chunk_duration_secs: 5, overlap_secs: 0 };
    let chunks = samples.split_into_chunks(&config);

    for i in 0..chunks[0].samples.len() {
        assert_eq!(chunks[0].samples[i], samples.samples[i]);
    }

    let start = 16000 * 5;
    for (i, sample) in chunks[1].samples.iter().enumerate() {
        assert_eq!(*sample, samples.samples[start + i]);
    }
}

#[test]
fn misconfigured_overlap_falls_back_to_tiling() {
    let samples = mono(vec![0.0; 16000 * 10]);
    let config = ChunkConfig::new(5, 5);
    let chunks = samples.split_into_chunks(&config);
    assert_eq!(chunks.len(), 2);
    assert_eq!(chunks[1].start_offset_ms, 5000);

    let config = ChunkConfig::new(4, 9);
    let chunks = samples.split_into_chunks(&config);
    assert_eq!(chunks.len(), 3);
    assert_eq!(chunks[2].start_offset_ms, 8000);
    assert_eq!(chunks[2].samples.len(), 16000 * 2);
}

#[test]
fn no_overlap_windows_tile_the_buffer() {
    let samples = mono(vec![0.0; 16000 * 7 + 123]);
    let config = ChunkConfig::new(2, 0);
    let chunks = samples.split_into_chunks(&config);
    assert_eq!(chunks.len(), 4);
    let mut covered = 0;
    for c in &chunks {
        assert_eq!(c.start_offset_ms, (covered as i64) * 1000 / 16000);
        covered += c.samples.len();
    }
    assert_eq!(covered, samples.len());
    assert_eq!(chunks[3].samples.len(), 16000 + 123);
    assert_eq!(chunks[3].duration_ms, (16000 + 123) * 1000 / 16000);
}

#[test]
fn exactly_one_window_of_audio() {
    let samples = mono(vec![0.25; 16000 * 5]);
    let chunks = samples.split_into_chunks(&ChunkConfig::new(5, 1));
    assert_eq!(chunks.len(), 1);
    assert!(chunks[0].is_last);
    assert_eq!(chunks[0].duration_ms, 5000);
}

#[test]
fn buffer_duration_in_ms() {
    let samples = mono(vec![0.0; 16000 * 2 + 8]);
    assert_eq!(samples.duration_ms(), 2000);
    assert_eq!(samples.len(), 32008);
    assert!(!samples.is_empty());
}
