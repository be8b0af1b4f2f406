//! The catalogue of recognizer models, where they are downloaded from, and
//! where they are cached.

use vstd::prelude::*;
use vstd::string::*;
use crate::segment::{decimal, push_decimal};
use crate::text::{lower_of, lowercase};

verus! {

#[verifier::external_type_specification]
#[verifier::external_body]
pub struct ExPathBuf(std::path::PathBuf);

/// Relies on `Path::join`: the cache directory with a file name appended.
#[verifier::external_body]
fn join_path(dir: &std::path::PathBuf, name: &str) -> (r: std::path::PathBuf) {
    dir.join(name)
}

/// The published model sizes.
#[derive(Clone, Copy, PartialEq, Eq, Structural, Debug, Hash)]
pub enum ModelSize {
    Tiny,
    TinyEn,
    Base,
    BaseEn,
    Small,
    SmallEn,
    Medium,
    MediumEn,
    Large,
}

impl ModelSize {
    pub open spec fn filename_spec(self) -> Seq<char> {
        match self {
            ModelSize::Tiny => "ggml-tiny.bin"@,
            ModelSize::TinyEn => "ggml-tiny.en.bin"@,
            ModelSize::Base => "ggml-base.bin"@,
            ModelSize::BaseEn => "ggml-base.en.bin"@,
            ModelSize::Small => "ggml-small.bin"@,
            ModelSize::SmallEn => "ggml-small.en.bin"@,
            ModelSize::Medium => "ggml-medium.bin"@,
            ModelSize::MediumEn => "ggml-medium.en.bin"@,
            ModelSize::Large => "ggml-large.bin"@,
        }
    }

    pub open spec fn display_name_spec(self) -> Seq<char> {
        match self {
            ModelSize::Tiny => "tiny"@,
            ModelSize::TinyEn => "tiny.en"@,
            ModelSize::Base => "base"@,
            ModelSize::BaseEn => "base.en"@,
            ModelSize::Small => "small"@,
            ModelSize::SmallEn => "small.en"@,
            ModelSize::Medium => "medium"@,
            ModelSize::MediumEn => "medium.en"@,
            ModelSize::Large => "large"@,
        }
    }

    pub open spec fn size_mb_spec(self) -> u32 {
        match self {
            ModelSize::Tiny | ModelSize::TinyEn => 39,
            ModelSize::Base | ModelSize::BaseEn => 140,
            ModelSize::Small | ModelSize::SmallEn => 466,
            ModelSize::Medium | ModelSize::MediumEn => 1500,
            ModelSize::Large => 3000,
        }
    }

    /// The model file's name.
    pub fn filename(&self) -> (r: &'static str)
        ensures
            r@ == self.filename_spec(),
    {
        match self {
            ModelSize::Tiny => "ggml-tiny.bin",
            ModelSize::TinyEn => "ggml-tiny.en.bin",
            ModelSize::Base => "ggml-base.bin",
            ModelSize::BaseEn => "ggml-base.en.bin",
            ModelSize::Small => "ggml-small.bin",
            ModelSize::SmallEn => "ggml-small.en.bin",
            ModelSize::Medium => "ggml-medium.bin",
            ModelSize::MediumEn => "ggml-medium.en.bin",
            ModelSize::Large => "ggml-large.bin",
        }
    }

    /// The name users pick the model by.
    pub fn display_name(&self) -> (r: &'static str)
        ensures
            r@ == self.display_name_spec(),
    {
        match self {
            ModelSize::Tiny => "tiny",
            ModelSize::TinyEn => "tiny.en",
            ModelSize::Base => "base",
            ModelSize::BaseEn => "base.en",
            ModelSize::Small => "small",
            ModelSize::SmallEn => "small.en",
            ModelSize::Medium => "medium",
            ModelSize::MediumEn => "medium.en",
            ModelSize::Large => "large",
        }
    }

    /// Approximate download size in megabytes.
    pub fn size_mb(&self) -> (r: u32)
        ensures
            r == self.size_mb_spec(),
    {
        match self {
            ModelSize::Tiny | ModelSize::TinyEn => 39,
            ModelSize::Base | ModelSize::BaseEn => 140,
            ModelSize::Small | ModelSize::SmallEn => 466,
            ModelSize::Medium | ModelSize::MediumEn => 1500,
            ModelSize::Large => 3000,
        }
    }

    /// Parses a model name, ignoring case; an unknown name is an error that
    /// lists the known ones.
    pub fn from_str(s: &str) -> (r: Result<ModelSize, String>)
        ensures
            r matches Ok(m) ==> m.display_name_spec() == lower_of(s@),
            r is Err <==> forall|m: ModelSize| m.display_name_spec() != lower_of(s@),
    {
        let t = lowercase(s);
        let all = all_models();
        let mut i: usize = 0;
        while i < all.len()
            invariant
                all@ == all_models_spec(),
                t@ == lower_of(s@),
                0 <= i <= all@.len(),
                forall|j: int| 0 <= j < i ==> all@[j].display_name_spec() != t@,
            decreases all@.len() - i,
        {
            let m = all[i];
            if t == String::from_str(m.display_name()) {
                return Ok(m);
            }
            i = i + 1;
        }
        proof {
            assert forall|m: ModelSize| m.display_name_spec() != lower_of(s@) by {
                lemma_all_models_complete(m);
            }
        }
        let mut msg = String::from_str("Unknown model: ");
        msg.append(s);
        msg.append(". Available: tiny, tiny.en, base, base.en, small, small.en, medium, medium.en, large");
        Err(msg)
    }
}

/// Every model size, smallest first.
pub open spec fn all_models_spec() -> Seq<ModelSize> {
    seq![
        ModelSize::Tiny,
        ModelSize::TinyEn,
        ModelSize::Base,
        ModelSize::BaseEn,
        ModelSize::Small,
        ModelSize::SmallEn,
        ModelSize::Medium,
        ModelSize::MediumEn,
        ModelSize::Large,
    ]
}

proof fn lemma_all_models_complete(m: ModelSize)
    ensures
        exists|j: int| 0 <= j < all_models_spec().len() && all_models_spec()[j] == m,
{
    match m {
        ModelSize::Tiny => assert(all_models_spec()[0] == m),
        ModelSize::TinyEn => assert(all_models_spec()[1] == m),
        ModelSize::Base => assert(all_models_spec()[2] == m),
        ModelSize::BaseEn => assert(all_models_spec()[3] == m),
        ModelSize::Small => assert(all_models_spec()[4] == m),
        ModelSize::SmallEn => assert(all_models_spec()[5] == m),
        ModelSize::Medium => assert(all_models_spec()[6] == m),
        ModelSize::MediumEn => assert(all_models_spec()[7] == m),
        ModelSize::Large => assert(all_models_spec()[8] == m),
    }
}

fn all_models() -> (r: Vec<ModelSize>)
    ensures
        r@ == all_models_spec(),
{
    let r = vec![
        ModelSize::Tiny,
        ModelSize::TinyEn,
        ModelSize::Base,
        ModelSize::BaseEn,
        ModelSize::Small,
        ModelSize::SmallEn,
        ModelSize::Medium,
        ModelSize::MediumEn,
        ModelSize::Large,
    ];
    assert(r@ =~= all_models_spec());
    r
}

/// Where models are downloaded from.
#[derive(Clone, Debug)]
pub struct ModelSource {
    pub base_url: String,
    pub name: &'static str,
}

impl ModelSource {
    /// The Hugging Face mirror of the whisper.cpp models.
    pub fn huggingface() -> (r: ModelSource)
        ensures
            r.base_url@ == "https://huggingface.co/ggerganov/whisper.cpp/resolve/main"@,
            r.name@ == "HuggingFace"@,
    {
        ModelSource {
            base_url: String::from_str("https://huggingface.co/ggerganov/whisper.cpp/resolve/main"),
            name: "HuggingFace",
        }
    }

    /// `<base_url>/models/<file name>`.
    pub fn download_url(&self, model: ModelSize) -> (r: String)
        ensures
            r@ == self.base_url@ + "/models/"@ + model.filename_spec(),
    {
        let mut url = self.base_url.clone();
        url.append("/models/");
        url.append(model.filename());
        url
    }
}

/// The local model cache and the source that fills it.
pub struct WhisperModelManager {
    cache_dir: std::path::PathBuf,
    source: ModelSource,
}

impl WhisperModelManager {
    /// The cache directory.
    pub closed spec fn dir(self) -> std::path::PathBuf {
        self.cache_dir
    }

    /// The download source.
    pub closed spec fn origin(self) -> ModelSource {
        self.source
    }

    /// A manager over `cache_dir` that downloads from Hugging Face.
    pub fn with_cache_dir(cache_dir: std::path::PathBuf) -> (r: WhisperModelManager)
        ensures
            r.dir() == cache_dir,
            r.origin().base_url@ == "https://huggingface.co/ggerganov/whisper.cpp/resolve/main"@,
    {
        WhisperModelManager { cache_dir, source: ModelSource::huggingface() }
    }

    /// A manager over `cache_dir` that downloads from `source`.
    pub fn with_cache_and_source(cache_dir: std::path::PathBuf, source: ModelSource) -> (r: WhisperModelManager)
        ensures
            r.dir() == cache_dir,
            r.origin() == source,
    {
        WhisperModelManager { cache_dir, source }
    }

    pub fn cache_dir(&self) -> (r: &std::path::PathBuf)
        ensures
            *r == self.dir(),
    {
        &self.cache_dir
    }

    pub fn source(&self) -> (r: &ModelSource)
        ensures
            *r == self.origin(),
    {
        &self.source
    }

    /// The path the model is cached at: its file name inside the cache
    /// directory.
    pub fn get_model_path(&self, model: ModelSize) -> std::path::PathBuf {
        join_path(&self.cache_dir, model.filename())
    }

    /// Every model with its approximate size in megabytes, smallest first.
    pub fn list_available_models() -> (r: Vec<(ModelSize, u32)>)
        ensures
            r@.len() == all_models_spec().len(),
            forall|i: int| 0 <= i < r@.len() ==> #[trigger] r@[i] == (all_models_spec()[i], all_models_spec()[i].size_mb_spec()),
    {
        let all = all_models();
        let mut r: Vec<(ModelSize, u32)> = Vec::new();
        let mut i: usize = 0;
        while i < all.len()
            invariant
                all@ == all_models_spec(),
                0 <= i <= all@.len(),
                r@.len() == i,
                forall|j: int| 0 <= j < i ==> #[trigger] r@[j] == (all_models_spec()[j], all_models_spec()[j].size_mb_spec()),
            decreases all@.len() - i,
        {
            let m = all[i];
            r.push((m, m.size_mb()));
            i = i + 1;
        }
        r
    }

    /// The approximate size of a model as `~<megabytes> MB`.
    pub fn format_size(&self, model: ModelSize) -> (r: String)
        ensures
            r@ == "~"@ + decimal(model.size_mb_spec() as nat) + " MB"@,
    {
        let mut out = String::from_str("~");
        push_decimal(&mut out, model.size_mb() as u64);
        out.append(" MB");
        out
    }
}

} // verus!
