//! The transcriber's own state: which model it runs, with how many threads,
//! and the engine handle made from that model.

use vstd::prelude::*;
use vstd::string::*;

verus! {

/// A recognizer loaded from a model file. `C` is the engine handle, owned
/// exclusively by the transcriber and released with it.
pub struct WhisperTranscriber<C> {
    model_path: String,
    context: C,
    threads: usize,
}

impl<C> WhisperTranscriber<C> {
    pub closed spec fn model_path_spec(self) -> Seq<char> {
        self.model_path@
    }

    pub closed spec fn threads_spec(self) -> usize {
        self.threads
    }

    pub closed spec fn context_spec(self) -> C {
        self.context
    }

    /// A transcriber for the model at `model_path`, running the engine handle
    /// made from that model with `threads` threads.
    pub fn new(model_path: &str, threads: usize, context: C) -> (r: WhisperTranscriber<C>)
        ensures
            r.model_path_spec() == model_path@,
            r.threads_spec() == threads,
            r.context_spec() == context,
    {
        WhisperTranscriber { model_path: String::from_str(model_path), context, threads }
    }

    /// The model file in use.
    pub fn model_path(&self) -> (r: &str)
        ensures
            r@ == self.model_path_spec(),
    {
        self.model_path.as_str()
    }

    /// The number of threads the engine runs with.
    pub fn threads(&self) -> (r: usize)
        ensures
            r == self.threads_spec(),
    {
        self.threads
    }

    /// The engine handle.
    pub fn context(&self) -> (r: &C)
        ensures
            *r == self.context_spec(),
    {
        &self.context
    }
}

} // verus!
