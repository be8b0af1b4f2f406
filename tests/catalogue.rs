use std::path::PathBuf;

use orangenote::{AudioDecoder, AudioFormat, ModelSize, ModelSource, WhisperModelManager};

#[test]
fn test_format_detection() {
    assert_eq!(AudioFormat::from_path("test.mp3").unwrap(), AudioFormat::Mp3);
    assert_eq!(AudioFormat::from_path("test.wav").unwrap(), AudioFormat::Wav);
    assert_eq!(AudioFormat::from_path("test.flac").unwrap(), AudioFormat::Flac);
}

#[test]
fn test_format_string() {
    assert_eq!(AudioFormat::Mp3.as_str(), "MP3");
    assert_eq!(AudioFormat::Wav.as_str(), "WAV");
}

#[test]
fn format_detection_ignores_case_and_knows_aliases() {
    assert_eq!(AudioFormat::from_path("/music/Song.MP4").unwrap(), AudioFormat::M4a);
    assert_eq!(AudioFormat::from_path("a/b.c/voice.oga").unwrap(), AudioFormat::Ogg);
    assert_eq!(AudioFormat::Ogg.as_str(), "OGG Vorbis");
    assert!(AudioFormat::from_path("notes.txt").is_err());
    assert!(AudioFormat::from_path("README").is_err());
    assert!(AudioFormat::from_path("archive.tar.").is_err());
}

#[test]
fn decoder_checks_file_then_format() {
    assert!(AudioDecoder::new("talk.wav", false, false).is_err());
    assert!(AudioDecoder::new("talk.wav", true, false).is_err());
    assert!(AudioDecoder::new("talk.xyz", true, true).is_err());
    let d = AudioDecoder::new("talk.WMA", true, true).unwrap();
    assert_eq!(d.format(), AudioFormat::Wma);
    assert_eq!(d.path(), "talk.WMA");
}

#[test]
fn test_model_size_parsing() {
    assert_eq!(ModelSize::from_str("tiny").unwrap(), ModelSize::Tiny);
    assert_eq!(ModelSize::from_str("base").unwrap(), ModelSize::Base);
    assert_eq!(ModelSize::from_str("tiny.en").unwrap(), ModelSize::TinyEn);
    assert!(ModelSize::from_str("invalid").is_err());
}

#[test]
fn model_names_parse_in_any_case() {
    assert_eq!(ModelSize::from_str("MEDIUM.En").unwrap(), ModelSize::MediumEn);
    let err = ModelSize::from_str("huge").unwrap_err();
    assert!(err.starts_with("Unknown model: huge."));
}

#[test]
fn test_model_filenames() {
    assert_eq!(ModelSize::Tiny.filename(), "ggml-tiny.bin");
    assert_eq!(ModelSize::Base.filename(), "ggml-base.bin");
    assert_eq!(ModelSize::Large.filename(), "ggml-large.bin");
}

#[test]
fn test_model_display_names() {
    assert_eq!(ModelSize::Tiny.display_name(), "tiny");
    assert_eq!(ModelSize::TinyEn.display_name(), "tiny.en");
    assert_eq!(ModelSize::Large.display_name(), "large");
}

#[test]
fn test_available_models_count() {
    let models = WhisperModelManager::list_available_models();
    assert_eq!(models.len(), 9);
    assert_eq!(models[4], (ModelSize::Small, 466));
    assert_eq!(models[8], (ModelSize::Large, 3000));
}

#[test]
fn test_model_sizes() {
    assert_eq!(ModelSize::Tiny.size_mb(), 39);
    assert_eq!(ModelSize::Base.size_mb(), 140);
    assert_eq!(ModelSize::Large.size_mb(), 3000);
}

#[test]
fn test_huggingface_url() {
    let source = ModelSource::huggingface();
    let url = source.download_url(ModelSize::Tiny);
    assert!(url.contains("huggingface.co"));
    assert!(url.contains("ggml-tiny.bin"));
    assert_eq!(
        url,
        "https://huggingface.co/ggerganov/whisper.cpp/resolve/main/models/ggml-tiny.bin"
    );
}

#[test]
fn test_custom_cache_dir() {
    let cache_dir = PathBuf::from("/tmp/test_cache");
    let manager = WhisperModelManager::with_cache_dir(cache_dir.clone());
    assert_eq!(manager.cache_dir(), &cache_dir);
}

#[test]
fn model_path_and_size_text() {
    let manager = WhisperModelManager::with_cache_dir(PathBuf::from("/tmp/models"));
    assert_eq!(manager.get_model_path(ModelSize::SmallEn), PathBuf::from("/tmp/models/ggml-small.en.bin"));
    assert_eq!(manager.format_size(ModelSize::Medium), "~1500 MB");
    assert_eq!(manager.source().name, "HuggingFace");
}
