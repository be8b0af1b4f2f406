//! The decisions of a chunked transcription: which window to hand to the
//! recognizer next, what a failed window does to the run, and the merge once
//! every window is done. Running the recognizer is left to the caller.

use vstd::prelude::*;
use vstd::string::*;
use crate::merge::{
    absolute_segments, is_first_most_frequent, languages, merge_checked, mergeable, merged_segments,
    renumbered, MergeConfig, MergeResult,
};
use crate::segment::{decimal, push_decimal, TranscriptionResult};

verus! {

/// The merge settings used for windows that overlap by `overlap_secs`.
pub open spec fn merge_config_for(overlap_secs: u32) -> MergeConfig {
    MergeConfig {
        overlap_ms: (overlap_secs * 1000) as i64,
        similarity_threshold: 6000,
        max_time_diff_ms: 10000,
        prefer_higher_confidence: true,
    }
}

/// What the caller does next.
#[derive(Clone, Copy, Debug, PartialEq, Eq)]
pub enum RunStep {
    /// Transcribe window `index`, which starts `offset_ms` into the audio.
    Transcribe { index: usize, offset_ms: i64 },
    /// Every window is transcribed: call `finish`.
    Merge,
}

/// A chunked transcription in progress: the start offsets of all windows,
/// and the transcripts of the windows done so far, in window order.
pub struct ChunkedRun {
    offsets: Vec<i64>,
    overlap_secs: u32,
    done: Vec<(TranscriptionResult, i64)>,
}

impl ChunkedRun {
    pub closed spec fn offsets_spec(self) -> Seq<i64> {
        self.offsets@
    }

    pub closed spec fn done_spec(self) -> Seq<(TranscriptionResult, i64)> {
        self.done@
    }

    pub closed spec fn overlap_spec(self) -> u32 {
        self.overlap_secs
    }

    /// The finished windows are a prefix of all windows, each paired with its
    /// own offset.
    pub open spec fn wf(self) -> bool {
        &&& self.done_spec().len() <= self.offsets_spec().len()
        &&& forall|i: int| 0 <= i < self.done_spec().len() ==> (#[trigger] self.done_spec()[i]).1 == self.offsets_spec()[i]
    }

    /// A run over windows starting at `offsets`; a run without windows is an
    /// error, since there is no audio to transcribe.
    pub fn start(offsets: Vec<i64>, overlap_secs: u32) -> (r: Result<ChunkedRun, String>)
        ensures
            r is Err <==> offsets@.len() == 0,
            r matches Ok(run) ==> run.wf() && run.offsets_spec() == offsets@ && run.done_spec().len() == 0
                && run.overlap_spec() == overlap_secs,
    {
        if offsets.len() == 0 {
            return Err(String::from_str("No audio chunks generated"));
        }
        Ok(ChunkedRun { offsets, overlap_secs, done: Vec::new() })
    }

    /// The next window to transcribe, or the merge once all are done.
    pub fn next_step(&self) -> (r: RunStep)
        requires
            self.wf(),
        ensures
            self.done_spec().len() < self.offsets_spec().len() ==> r == (RunStep::Transcribe {
                index: self.done_spec().len() as usize,
                offset_ms: self.offsets_spec()[self.done_spec().len() as int],
            }),
            self.done_spec().len() == self.offsets_spec().len() ==> r == RunStep::Merge,
    {
        let k = self.done.len();
        if k < self.offsets.len() {
            RunStep::Transcribe { index: k, offset_ms: self.offsets[k] }
        } else {
            RunStep::Merge
        }
    }

    /// Records the recognizer's outcome for the next window. A transcript is
    /// kept with the window's offset; a failure aborts the run with an error
    /// that names the window, and nothing is recorded.
    pub fn record(&mut self, outcome: Result<TranscriptionResult, String>) -> (r: Result<(), String>)
        requires
            old(self).wf(),
            old(self).done_spec().len() < old(self).offsets_spec().len(),
        ensures
            final(self).wf(),
            final(self).offsets_spec() == old(self).offsets_spec(),
            final(self).overlap_spec() == old(self).overlap_spec(),
            outcome matches Ok(t) ==> r is Ok && final(self).done_spec() == old(self).done_spec().push(
                (t, old(self).offsets_spec()[old(self).done_spec().len() as int]),
            ),
            outcome matches Err(e) ==> r is Err && r->Err_0@ == "Failed to transcribe chunk "@ + decimal(
                old(self).done_spec().len()) + ": "@ + e@,
            outcome is Err ==> final(self).done_spec() == old(self).done_spec(),
    {
        let k = self.done.len();
        match outcome {
            Ok(t) => {
                let off = self.offsets[k];
                self.done.push((t, off));
                Ok(())
            },
            Err(e) => {
                let mut msg = String::from_str("Failed to transcribe chunk ");
                push_decimal(&mut msg, k as u64);
                msg.append(": ");
                msg.append(e.as_str());
                assert(msg@ =~= "Failed to transcribe chunk "@ + decimal(k as nat) + ": "@ + e@);
                Err(msg)
            },
        }
    }

    /// Merges the transcripts of all windows with the settings for the run's
    /// overlap; `None` when they cannot be merged (see `mergeable`).
    pub fn finish(self) -> (r: Option<MergeResult>)
        requires
            self.wf(),
            self.done_spec().len() == self.offsets_spec().len(),
        ensures
            r is Some <==> mergeable(self.done_spec()),
            r matches Some(m) ==> {
                &&& m.chunks_merged == self.done_spec().len()
                &&& renumbered(m.result.segments@, merged_segments(self.done_spec(), merge_config_for(self.overlap_spec())))
                &&& m.total_segments_before == absolute_segments(self.done_spec()).len()
                &&& m.duplicates_removed == m.total_segments_before - m.result.segments@.len()
                &&& self.done_spec().len() > 0 ==> exists|i: int|
                    is_first_most_frequent(languages(self.done_spec()), i) && m.result.language@ == languages(self.done_spec())[i]
            },
    {
        let config = MergeConfig::from_overlap_secs(self.overlap_secs);
        assert(config == merge_config_for(self.overlap_secs));
        merge_checked(self.done, config)
    }
}

} // verus!
