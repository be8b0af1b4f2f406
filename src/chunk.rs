//! Splitting a mono sample buffer into overlapping, time-stamped windows.

use vstd::prelude::*;

verus! {

/// Sample rate (Hz) that every buffer handed to the recognizer runs at.
pub const WHISPER_SAMPLE_RATE: u32 = 16000;

/// Window length and overlap, both in whole seconds.
#[derive(Clone, Copy, Debug, PartialEq, Eq)]
pub struct ChunkConfig {
    pub chunk_duration_secs: u32,
    pub overlap_secs: u32,
}

impl ChunkConfig {
    pub fn new(chunk_duration_secs: u32, overlap_secs: u32) -> (r: ChunkConfig)
        ensures
            r.chunk_duration_secs == chunk_duration_secs,
            r.overlap_secs == overlap_secs,
    {
        ChunkConfig { chunk_duration_secs, overlap_secs }
    }

    /// A configuration whose window length is given in minutes.
    pub fn from_minutes(minutes: u32, overlap_secs: u32) -> (r: ChunkConfig)
        requires
            minutes * 60 <= u32::MAX,
        ensures
            r.chunk_duration_secs == minutes * 60,
            r.overlap_secs == overlap_secs,
    {
        ChunkConfig { chunk_duration_secs: minutes * 60, overlap_secs }
    }

    /// Window length in samples.
    pub open spec fn chunk_len(self) -> nat {
        self.chunk_duration_secs as nat * WHISPER_SAMPLE_RATE as nat
    }

    /// Overlap in samples.
    pub open spec fn overlap_len(self) -> nat {
        self.overlap_secs as nat * WHISPER_SAMPLE_RATE as nat
    }

    /// Distance between the starts of consecutive windows; a misconfigured
    /// overlap (not shorter than the window) falls back to no overlap.
    pub open spec fn step(self) -> nat {
        if self.chunk_len() > self.overlap_len() {
            (self.chunk_len() - self.overlap_len()) as nat
        } else {
            self.chunk_len()
        }
    }

    /// First sample of window `k`.
    pub open spec fn window_start(self, k: nat) -> nat {
        k * self.step()
    }

    /// One past the last sample of window `k` in a buffer of `total` samples.
    pub open spec fn window_end(self, total: nat, k: nat) -> nat {
        if self.window_start(k) + self.chunk_len() <= total {
            self.window_start(k) + self.chunk_len()
        } else {
            total
        }
    }
}

impl Default for ChunkConfig {
    /// Five-minute windows with five seconds of overlap.
    fn default() -> (r: ChunkConfig)
        ensures
            r.chunk_duration_secs == 300,
            r.overlap_secs == 5,
    {
        ChunkConfig { chunk_duration_secs: 300, overlap_secs: 5 }
    }
}

/// Milliseconds spanned by `n` samples at the fixed rate, rounded down.
pub open spec fn samples_to_ms(n: nat) -> int {
    (n * 1000 / (WHISPER_SAMPLE_RATE as nat)) as int
}

/// One window of a buffer, with its position on the buffer's timeline.
#[derive(Clone, Debug)]
pub struct AudioChunk<S> {
    pub samples: Vec<S>,
    pub index: usize,
    pub start_offset_ms: i64,
    pub duration_ms: i64,
    pub is_last: bool,
}

/// Mono samples at the fixed rate, with the rate and channel count that the
/// source had before conversion.
#[derive(Clone, Debug)]
pub struct AudioSamples<S> {
    pub samples: Vec<S>,
    pub original_sample_rate: u32,
    pub original_channels: u16,
}

/// Window `k` of `samples` under `config`, as `split_into_chunks` returns it.
pub open spec fn is_window<S>(c: AudioChunk<S>, samples: Seq<S>, config: ChunkConfig, k: nat, n: nat) -> bool {
    let start = config.window_start(k);
    let end = config.window_end(samples.len(), k);
    &&& c.index == k
    &&& start < end
    &&& c.samples@ == samples.subrange(start as int, end as int)
    &&& c.start_offset_ms == samples_to_ms(start)
    &&& c.duration_ms == samples_to_ms((end - start) as nat)
    &&& c.is_last == (k + 1 == n)
}

fn ms_of(n: u64) -> (r: i64)
    ensures
        r == samples_to_ms(n as nat),
{
    // 1000 / 16000 == 1 / 16
    let r = n / 16;
    assert(n as nat * 1000 / 16000 == n as nat / 16) by (nonlinear_arith);
    r as i64
}

fn copy_range<S: Copy>(samples: &Vec<S>, start: usize, end: usize) -> (r: Vec<S>)
    requires
        start <= end <= samples@.len(),
    ensures
        r@ == samples@.subrange(start as int, end as int),
{
    let mut r: Vec<S> = Vec::with_capacity(end - start);
    let mut i: usize = start;
    while i < end
        invariant
            start <= i <= end <= samples@.len(),
            r@ == samples@.subrange(start as int, i as int),
        decreases end - i,
    {
        r.push(samples[i]);
        i = i + 1;
        assert(r@ =~= samples@.subrange(start as int, i as int));
    }
    r
}

impl<S: Copy> AudioSamples<S> {
    pub fn len(&self) -> (r: usize)
        ensures
            r == self.samples@.len(),
    {
        self.samples.len()
    }

    pub fn is_empty(&self) -> (r: bool)
        ensures
            r == (self.samples@.len() == 0),
    {
        self.samples.len() == 0
    }

    /// Length of the buffer in milliseconds, rounded down.
    pub fn duration_ms(&self) -> (r: i64)
        ensures
            r == samples_to_ms(self.samples@.len()),
    {
        ms_of(self.samples.len() as u64)
    }

    /// Splits the buffer into windows of `chunk_duration_secs` whose starts are
    /// one step apart (the window length less the overlap, or the whole window
    /// where the overlap is not shorter). The windows stop at the first one
    /// that reaches the end of the buffer; an empty buffer has none.
    pub fn split_into_chunks(&self, config: &ChunkConfig) -> (r: Vec<AudioChunk<S>>)
        requires
            config.chunk_duration_secs > 0,
        ensures
            self.samples@.len() == 0 <==> r@.len() == 0,
            forall|k: int| 0 <= k < r@.len() ==>
                is_window(#[trigger] r@[k], self.samples@, *config, k as nat, r@.len()),
            // every window but the last stops short of the end of the buffer
            forall|k: int| 0 <= k < r@.len() - 1 ==>
                #[trigger] config.window_start(k as nat) + config.chunk_len() < self.samples@.len(),
            // the last window reaches it
            r@.len() > 0 ==> config.window_end(self.samples@.len(), (r@.len() - 1) as nat)
                == self.samples@.len(),
            // without overlap the windows tile the buffer: each but the last is
            // full and ends where the next one starts
            config.overlap_secs == 0 ==> forall|k: int| 0 <= k < r@.len() - 1 ==>
                (#[trigger] r@[k]).samples@.len() == config.chunk_len()
                && config.window_end(self.samples@.len(), k as nat) == config.window_start((k + 1) as nat),
            // a buffer that fits in one window comes back whole
            0 < self.samples@.len() <= config.chunk_len() ==> r@.len() == 1
                && r@[0].samples@ == self.samples@ && r@[0].start_offset_ms == 0 && r@[0].is_last,
    {
        let total = self.samples.len();
        let mut chunks: Vec<AudioChunk<S>> = Vec::new();
        if total == 0 {
            return chunks;
        }
        let chunk_len: u64 = config.chunk_duration_secs as u64 * 16000;
        let overlap_len: u64 = config.overlap_secs as u64 * 16000;
        let step: u64 = if chunk_len > overlap_len {
            chunk_len - overlap_len
        } else {
            chunk_len
        };
        assert(step == config.step());
        let mut start: u64 = 0;
        let mut index: usize = 0;
        loop
            invariant_except_break
                index == chunks@.len(),
                forall|k: int| 0 <= k < chunks@.len() ==>
                    is_window(#[trigger] chunks@[k], self.samples@, *config, k as nat, (chunks@.len() + 1) as nat),
                forall|k: int| 0 <= k < chunks@.len() ==>
                    #[trigger] config.window_start(k as nat) + config.chunk_len() < total,
            invariant
                total == self.samples@.len(),
                0 < total,
                chunk_len == config.chunk_len(),
                step == config.step(),
                0 < step <= chunk_len <= 16000 * u32::MAX,
                start == config.window_start(index as nat),
                start < total,
                index <= start,
            ensures
                chunks@.len() > 0,
                forall|k: int| 0 <= k < chunks@.len() ==>
                    is_window(#[trigger] chunks@[k], self.samples@, *config, k as nat, chunks@.len()),
                forall|k: int| 0 <= k < chunks@.len() - 1 ==>
                    #[trigger] config.window_start(k as nat) + config.chunk_len() < total,
                config.window_end(total as nat, (chunks@.len() - 1) as nat) == total,
            decreases total - start,
        {
            let end: u64 = if start as u128 + chunk_len as u128 <= total as u128 {
                start + chunk_len
            } else {
                total as u64
            };
            let data = copy_range(&self.samples, start as usize, end as usize);
            let is_last = end >= total as u64;
            let chunk = AudioChunk {
                samples: data,
                index,
                start_offset_ms: ms_of(start),
                duration_ms: ms_of(end - start),
                is_last,
            };
            let ghost old_chunks = chunks@;
            chunks.push(chunk);
            if is_last {
                assert forall|k: int| 0 <= k < chunks@.len() implies
                    is_window(#[trigger] chunks@[k], self.samples@, *config, k as nat, chunks@.len()) by {
                    if k < old_chunks.len() {
                        assert(chunks@[k] == old_chunks[k]);
                    }
                }
                break;
            }
            assert(config.window_start((index + 1) as nat) == start + step) by (nonlinear_arith)
                requires
                    start == index * config.step(),
                    step == config.step(),
            ;
            assert(index + 1 <= start + step) by (nonlinear_arith)
                requires
                    index <= start,
                    1 <= step,
            ;
            assert forall|k: int| 0 <= k < chunks@.len() implies
                is_window(#[trigger] chunks@[k], self.samples@, *config, k as nat, (chunks@.len() + 1) as nat) by {
                if k < old_chunks.len() {
                    assert(chunks@[k] == old_chunks[k]);
                }
            }
            start = start + step;
            index = index + 1;
        }
        proof {
            if config.overlap_secs == 0 {
                assert forall|k: int| 0 <= k < chunks@.len() - 1 implies
                    (#[trigger] chunks@[k]).samples@.len() == config.chunk_len()
                    && config.window_end(total as nat, k as nat) == config.window_start((k + 1) as nat) by {
                    assert(is_window(chunks@[k], self.samples@, *config, k as nat, chunks@.len()));
                    assert(config.window_start(k as nat) + config.chunk_len() < total);
                    assert(config.step() == config.chunk_len());
                    assert(config.window_start((k + 1) as nat) == config.window_start(k as nat) + config.step())
                        by (nonlinear_arith)
                        requires
                            config.window_start((k + 1) as nat) == (k + 1) * config.step(),
                            config.window_start(k as nat) == k * config.step(),
                    ;
                }
            }
            if total <= config.chunk_len() {
                if chunks@.len() > 1 {
                    assert(config.window_start(0) + config.chunk_len() < total);
                }
                assert(is_window(chunks@[0], self.samples@, *config, 0, chunks@.len()));
                assert(self.samples@.subrange(0, total as int) =~= self.samples@);
            }
        }
        chunks
    }
}

} // verus!
