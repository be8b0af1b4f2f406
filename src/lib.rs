//! Signal preparation and transcript reconciliation for chunked speech
//! recognition: window planning over mono PCM, word-set similarity, and the
//! merge that turns per-window transcripts into one deduplicated timeline.

pub mod chunk;
pub mod text;
pub mod segment;
pub mod merge;
pub mod merge_laws;
pub mod models;
pub mod audio_format;
pub mod output;
pub mod resample;
pub mod run;
pub mod transcriber;

pub use chunk::{AudioChunk, AudioSamples, ChunkConfig, WHISPER_SAMPLE_RATE};
pub use text::{normalize_text_to_words, text_similarity, Similarity};
pub use segment::{format_timestamp, Segment, Token, TranscriptionResult, CONFIDENCE_SCALE};
pub use merge::{can_merge, is_duplicate_segment, merge_checked, merge_transcription_results, MergeConfig, MergeResult};
pub use models::{ModelSize, ModelSource, WhisperModelManager};
pub use audio_format::{AudioDecoder, AudioFormat};
pub use output::{format_srt, format_srt_time, format_txt, format_vtt, validate_format, validate_input_file, validate_model};
pub use resample::{AudioProcessor, InterpolationPoint};
pub use run::{ChunkedRun, RunStep};
pub use transcriber::WhisperTranscriber;
