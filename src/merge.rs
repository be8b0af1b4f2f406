//! Reconciling per-window transcripts into one timeline: absolute timestamps,
//! a stable sort by start time, removal of segments that overlapping windows
//! recognized twice (keeping the more confident rendition), and fresh ids.

use vstd::prelude::*;
use vstd::string::*;
use crate::segment::{Segment, TranscriptionResult, CONFIDENCE_SCALE};
use crate::text::{similarity_of, text_similarity};

verus! {

/// How many of the most recently accepted segments a candidate may replace.
pub const REPLACE_WINDOW: usize = 10;

/// How many of the most recently accepted segments a candidate is checked
/// against for duplication.
pub const DUPLICATE_WINDOW: usize = 15;

/// Similarity above which two texts count as the same words (0.8, in units of
/// `1 / CONFIDENCE_SCALE`).
pub const HIGH_SIMILARITY: u32 = 8000;

/// How much more confident a rendition must be to replace an earlier one
/// (0.05, in units of `1 / CONFIDENCE_SCALE`).
pub const CONFIDENCE_MARGIN: u32 = 500;

/// Settings of the merge. `similarity_threshold` is in units of
/// `1 / CONFIDENCE_SCALE`.
#[derive(Clone, Copy, Debug)]
pub struct MergeConfig {
    pub overlap_ms: i64,
    pub similarity_threshold: u32,
    pub max_time_diff_ms: i64,
    pub prefer_higher_confidence: bool,
}

impl Default for MergeConfig {
    /// Five seconds of overlap, a similarity threshold of 0.6, ten seconds of
    /// tolerance, and replacement by more confident renditions.
    fn default() -> (r: MergeConfig)
        ensures
            r.overlap_ms == 5000,
            r.similarity_threshold == 6000,
            r.max_time_diff_ms == 10000,
            r.prefer_higher_confidence,
    {
        MergeConfig {
            overlap_ms: 5000,
            similarity_threshold: 6000,
            max_time_diff_ms: 10000,
            prefer_higher_confidence: true,
        }
    }
}

impl MergeConfig {
    /// The default settings with the given overlap between windows.
    pub fn from_overlap_secs(overlap_secs: u32) -> (r: MergeConfig)
        ensures
            r.overlap_ms == overlap_secs * 1000,
            r.similarity_threshold == 6000,
            r.max_time_diff_ms == 10000,
            r.prefer_higher_confidence,
    {
        MergeConfig {
            overlap_ms: overlap_secs as i64 * 1000,
            similarity_threshold: 6000,
            max_time_diff_ms: 10000,
            prefer_higher_confidence: true,
        }
    }
}

/// The merged transcript with counts of what the merge did.
#[derive(Clone, Debug)]
pub struct MergeResult {
    pub result: TranscriptionResult,
    pub total_segments_before: usize,
    pub duplicates_removed: usize,
    pub chunks_merged: usize,
}

/// Whether the ratio `sim.0 / sim.1` is above `num / CONFIDENCE_SCALE`.
pub open spec fn ratio_above(sim: (nat, nat), num: nat) -> bool {
    sim.0 * (CONFIDENCE_SCALE as nat) > num * sim.1
}

pub open spec fn abs_diff(a: i64, b: i64) -> int {
    if a >= b {
        a - b
    } else {
        b - a
    }
}

/// Whether `cand` is a clearly more confident rendition of `existing`.
pub open spec fn can_replace(existing: Segment, cand: Segment, config: MergeConfig) -> bool {
    &&& abs_diff(cand.start_ms, existing.start_ms) <= config.max_time_diff_ms
    &&& ratio_above(similarity_of(existing.text@, cand.text@), HIGH_SIMILARITY as nat)
    &&& cand.confidence > existing.confidence + CONFIDENCE_MARGIN
}

/// Whether `cand` repeats `existing`: it starts within the overlap with
/// similar text, or the two overlap in time with nearly the same words.
pub open spec fn is_dup(existing: Segment, cand: Segment, config: MergeConfig) -> bool {
    let sim = similarity_of(existing.text@, cand.text@);
    ||| abs_diff(cand.start_ms, existing.start_ms) < config.overlap_ms
        && ratio_above(sim, config.similarity_threshold as nat)
    ||| existing.end_ms > cand.start_ms && cand.end_ms > existing.start_ms
        && ratio_above(sim, HIGH_SIMILARITY as nat)
}

/// The first index of the last `w` of `len` entries.
pub open spec fn window_low(len: nat, w: nat) -> int {
    if len > w {
        len - w
    } else {
        0
    }
}

/// Searching the replacement window of `acc` downward from `hi - 1`: the
/// first entry that `cand` may replace.
pub open spec fn find_replace(acc: Seq<Segment>, cand: Segment, config: MergeConfig, hi: int) -> Option<int>
    decreases hi,
{
    if hi <= window_low(acc.len(), REPLACE_WINDOW as nat) {
        None
    } else if can_replace(acc[hi - 1], cand, config) {
        Some(hi - 1)
    } else {
        find_replace(acc, cand, config, hi - 1)
    }
}

/// Whether `cand` repeats one of the entries in the duplicate window of `acc`.
pub open spec fn has_dup(acc: Seq<Segment>, cand: Segment, config: MergeConfig) -> bool {
    exists|j: int|
        window_low(acc.len(), DUPLICATE_WINDOW as nat) <= j < acc.len() && #[trigger] is_dup(acc[j], cand, config)
}

/// One step of reconciliation: `cand` replaces the most recent entry it
/// outranks, or is dropped as a repeat, or is appended.
pub open spec fn accept(acc: Seq<Segment>, cand: Segment, config: MergeConfig) -> Seq<Segment> {
    let found = find_replace(acc, cand, config, acc.len() as int);
    if config.prefer_higher_confidence && found is Some {
        acc.update(found->0, cand)
    } else if has_dup(acc, cand, config) {
        acc
    } else {
        acc.push(cand)
    }
}

/// The accepted segments after reconciling `s` in order.
pub open spec fn dedup(s: Seq<Segment>, config: MergeConfig) -> Seq<Segment>
    decreases s.len(),
{
    if s.len() == 0 {
        Seq::empty()
    } else {
        accept(dedup(s.drop_last(), config), s.last(), config)
    }
}

fn time_diff(a: i64, b: i64) -> (r: i128)
    ensures
        r == abs_diff(a, b),
{
    if a >= b {
        a as i128 - b as i128
    } else {
        b as i128 - a as i128
    }
}

fn can_replace_segment(existing: &Segment, new: &Segment, config: &MergeConfig) -> (r: bool)
    ensures
        r == can_replace(*existing, *new, *config),
{
    if time_diff(new.start_ms, existing.start_ms) > config.max_time_diff_ms as i128 {
        return false;
    }
    let sim = text_similarity(existing.text.as_str(), new.text.as_str());
    sim.is_above(HIGH_SIMILARITY, CONFIDENCE_SCALE) && new.confidence as u64 > existing.confidence as u64
        + CONFIDENCE_MARGIN as u64
}

/// Whether `new` repeats `existing`: it starts less than `overlap_ms` away with
/// text more similar than the threshold, or the two overlap in time with text
/// more than 0.8 similar.
pub fn is_duplicate_segment(existing: &Segment, new: &Segment, config: &MergeConfig) -> (r: bool)
    ensures
        r == is_dup(*existing, *new, *config),
{
    let sim = text_similarity(existing.text.as_str(), new.text.as_str());
    let close = time_diff(new.start_ms, existing.start_ms) < config.overlap_ms as i128;
    if close && sim.is_above(config.similarity_threshold, CONFIDENCE_SCALE) {
        return true;
    }
    let overlapping = existing.end_ms > new.start_ms && new.end_ms > existing.start_ms;
    overlapping && sim.is_above(HIGH_SIMILARITY, CONFIDENCE_SCALE)
}

/// The most recent of the last `REPLACE_WINDOW` accepted segments that `new`
/// outranks.
fn find_replaceable_segment(existing: &Vec<Segment>, new: &Segment, config: &MergeConfig) -> (r: Option<usize>)
    ensures
        r matches Some(i) ==> find_replace(existing@, *new, *config, existing@.len() as int) == Some(i as int),
        r is None ==> find_replace(existing@, *new, *config, existing@.len() as int) is None,
{
    let len = existing.len();
    let low = if len > REPLACE_WINDOW { len - REPLACE_WINDOW } else { 0 };
    let mut hi = len;
    while hi > low
        invariant
            low == window_low(len as nat, REPLACE_WINDOW as nat),
            len == existing@.len(),
            low <= hi <= len,
            find_replace(existing@, *new, *config, len as int) == find_replace(existing@, *new, *config, hi as int),
        decreases hi,
    {
        if can_replace_segment(&existing[hi - 1], new, config) {
            return Some(hi - 1);
        }
        hi = hi - 1;
    }
    None
}

/// Whether `new` repeats one of the last `DUPLICATE_WINDOW` accepted segments.
fn has_duplicate(existing: &Vec<Segment>, new: &Segment, config: &MergeConfig) -> (r: bool)
    ensures
        r == has_dup(existing@, *new, *config),
{
    let len = existing.len();
    let low = if len > DUPLICATE_WINDOW { len - DUPLICATE_WINDOW } else { 0 };
    let mut hi = len;
    while hi > low
        invariant
            low == window_low(len as nat, DUPLICATE_WINDOW as nat),
            len == existing@.len(),
            low <= hi <= len,
            forall|j: int| hi <= j < len ==> !#[trigger] is_dup(existing@[j], *new, *config),
        decreases hi,
    {
        if is_duplicate_segment(&existing[hi - 1], new, config) {
            return true;
        }
        hi = hi - 1;
    }
    false
}

/// Where a segment starting at `key` goes in `s` so that it follows every
/// entry starting no later than it.
pub open spec fn insert_pos(s: Seq<Segment>, key: i64) -> int
    decreases s.len(),
{
    if s.len() == 0 {
        0
    } else if s.last().start_ms <= key {
        s.len() as int
    } else {
        insert_pos(s.drop_last(), key)
    }
}

/// `s` sorted by start time, stably: entries with equal starts keep their order.
pub open spec fn sort_by_start(s: Seq<Segment>) -> Seq<Segment>
    decreases s.len(),
{
    if s.len() == 0 {
        Seq::empty()
    } else {
        let t = sort_by_start(s.drop_last());
        t.insert(insert_pos(t, s.last().start_ms), s.last())
    }
}

/// `seg` moved onto the absolute timeline by `off`, with its id cleared.
pub open spec fn shifted(seg: Segment, off: i64) -> Segment {
    Segment {
        id: 0,
        start_ms: (seg.start_ms + off) as i64,
        end_ms: (seg.end_ms + off) as i64,
        text: seg.text,
        confidence: seg.confidence,
        tokens: seg.tokens,
    }
}

/// Whether `seg` can be moved by `off` without leaving the range of `i64`.
pub open spec fn shift_fits(seg: Segment, off: i64) -> bool {
    &&& i64::MIN <= seg.start_ms + off <= i64::MAX
    &&& i64::MIN <= seg.end_ms + off <= i64::MAX
}

/// Whether every segment of every result can be moved by its result's offset.
pub open spec fn offsets_fit(results: Seq<(TranscriptionResult, i64)>) -> bool {
    forall|i: int, j: int|
        0 <= i < results.len() && 0 <= j < results[i].0.segments@.len() ==> shift_fits(
            #[trigger] results[i].0.segments@[j],
            results[i].1,
        )
}

/// Every segment of every result on the absolute timeline, result by result.
pub open spec fn absolute_segments(results: Seq<(TranscriptionResult, i64)>) -> Seq<Segment>
    decreases results.len(),
{
    if results.len() == 0 {
        Seq::empty()
    } else {
        absolute_segments(results.drop_last()) + results.last().0.segments@.map_values(
            |seg: Segment| shifted(seg, results.last().1),
        )
    }
}

/// The segments that the merge of `results` keeps, before ids are assigned.
pub open spec fn merged_segments(results: Seq<(TranscriptionResult, i64)>, config: MergeConfig) -> Seq<Segment> {
    dedup(sort_by_start(absolute_segments(results)), config)
}

/// `out` is `acc` with ids `0, 1, 2, ...` and nothing else changed.
pub open spec fn renumbered(out: Seq<Segment>, acc: Seq<Segment>) -> bool {
    &&& out.len() == acc.len()
    &&& forall|i: int| 0 <= i < out.len() ==> (#[trigger] out[i]).id == i && same_content(out[i], acc[i])
}

/// Two segments agree on everything but the id.
pub open spec fn same_content(a: Segment, b: Segment) -> bool {
    &&& a.start_ms == b.start_ms
    &&& a.end_ms == b.end_ms
    &&& a.text == b.text
    &&& a.confidence == b.confidence
    &&& a.tokens == b.tokens
}

/// The language reported by each result.
pub open spec fn languages(results: Seq<(TranscriptionResult, i64)>) -> Seq<Seq<char>> {
    results.map_values(|r: (TranscriptionResult, i64)| r.0.language@)
}

/// How often `x` occurs in `s`.
pub open spec fn occurrences(s: Seq<Seq<char>>, x: Seq<char>) -> nat
    decreases s.len(),
{
    if s.len() == 0 {
        0
    } else {
        occurrences(s.drop_last(), x) + if s.last() == x {
            1nat
        } else {
            0
        }
    }
}

/// `s[i]` occurs at least as often as any entry of `s`, and more often than
/// every entry before it: the first of the most frequent values.
pub open spec fn is_first_most_frequent(s: Seq<Seq<char>>, i: int) -> bool {
    &&& 0 <= i < s.len()
    &&& forall|j: int| 0 <= j < s.len() ==> occurrences(s, #[trigger] s[j]) <= occurrences(s, s[i])
    &&& forall|j: int| 0 <= j < i ==> occurrences(s, #[trigger] s[j]) < occurrences(s, s[i])
}

fn count_language(results: &Vec<(TranscriptionResult, i64)>, lang: &String) -> (r: usize)
    ensures
        r == occurrences(languages(results@), lang@),
{
    let mut count: usize = 0;
    let mut j: usize = 0;
    while j < results.len()
        invariant
            0 <= j <= results@.len(),
            count == occurrences(languages(results@).take(j as int), lang@),
            count <= j,
        decreases results@.len() - j,
    {
        assert(languages(results@).take(j as int + 1).drop_last() =~= languages(results@).take(j as int));
        if results[j].0.language == *lang {
            count = count + 1;
        }
        j = j + 1;
    }
    assert(languages(results@).take(j as int) =~= languages(results@));
    count
}

/// The most frequent language among the results; among equally frequent ones,
/// the one reported first.
fn determine_language(results: &Vec<(TranscriptionResult, i64)>) -> (r: String)
    requires
        results@.len() > 0,
    ensures
        exists|i: int| is_first_most_frequent(languages(results@), i) && r@ == languages(results@)[i],
{
    let ghost langs = languages(results@);
    let mut best: usize = 0;
    let mut best_count = count_language(results, &results[0].0.language);
    let mut i: usize = 1;
    while i < results.len()
        invariant
            langs == languages(results@),
            0 <= best < i <= results@.len(),
            best_count == occurrences(langs, langs[best as int]),
            forall|j: int| 0 <= j < i ==> occurrences(langs, #[trigger] langs[j]) <= best_count,
            forall|j: int| 0 <= j < best ==> occurrences(langs, #[trigger] langs[j]) < best_count,
        decreases results@.len() - i,
    {
        let c = count_language(results, &results[i].0.language);
        if c > best_count {
            best = i;
            best_count = c;
        }
        i = i + 1;
    }
    assert(is_first_most_frequent(langs, best as int));
    results[best].0.language.clone()
}

fn shift_segment(seg: Segment, off: i64) -> (r: Segment)
    requires
        shift_fits(seg, off),
    ensures
        r == shifted(seg, off),
{
    Segment {
        id: 0,
        start_ms: seg.start_ms + off,
        end_ms: seg.end_ms + off,
        text: seg.text,
        confidence: seg.confidence,
        tokens: seg.tokens,
    }
}

/// All segments moved onto the absolute timeline, result by result.
fn absolutize(results: Vec<(TranscriptionResult, i64)>) -> (r: Vec<Segment>)
    requires
        offsets_fit(results@),
    ensures
        r@ == absolute_segments(results@),
{
    let ghost orig = results@;
    let _n = results.len();
    let mut rest = results;
    let mut all: Vec<Segment> = Vec::new();
    let mut k: usize = 0;
    while rest.len() > 0
        invariant
            offsets_fit(orig),
            orig.len() <= usize::MAX,
            k <= orig.len(),
            rest@ == orig.subrange(k as int, orig.len() as int),
            all@ == absolute_segments(orig.take(k as int)),
        decreases rest@.len(),
    {
        let (res, off) = rest.remove(0);
        let ghost segs0 = res.segments@;
        assert(orig[k as int] == (res, off));
        let mut segs = res.segments;
        let _n_segs = segs.len();
        let ghost before = all@;
        let mut m: usize = 0;
        while segs.len() > 0
            invariant
                offsets_fit(orig),
                segs0.len() <= usize::MAX,
                k < orig.len(),
                orig[k as int].0.segments@ == segs0,
                orig[k as int].1 == off,
                m <= segs0.len(),
                segs@ == segs0.subrange(m as int, segs0.len() as int),
                all@ == before + segs0.take(m as int).map_values(|seg: Segment| shifted(seg, off)),
            decreases segs@.len(),
        {
            let seg = segs.remove(0);
            assert(seg == segs0[m as int]);
            assert(shift_fits(orig[k as int].0.segments@[m as int], orig[k as int].1));
            all.push(shift_segment(seg, off));
            m = m + 1;
            assert(segs0.take(m as int).map_values(|seg: Segment| shifted(seg, off)) =~= segs0.take(
                m as int - 1,
            ).map_values(|seg: Segment| shifted(seg, off)).push(shifted(segs0[m - 1], off)));
        }
        assert(segs0.take(m as int) =~= segs0);
        assert(orig.take(k as int + 1).drop_last() =~= orig.take(k as int));
        k = k + 1;
    }
    assert(orig.take(k as int) =~= orig);
    all
}

/// `segs` sorted stably by start time.
fn sort_segments(segs: Vec<Segment>) -> (r: Vec<Segment>)
    ensures
        r@ == sort_by_start(segs@),
{
    let ghost orig = segs@;
    let _n = segs.len();
    let mut rest = segs;
    let mut out: Vec<Segment> = Vec::new();
    let mut k: usize = 0;
    while rest.len() > 0
        invariant
            orig.len() <= usize::MAX,
            k <= orig.len(),
            rest@ == orig.subrange(k as int, orig.len() as int),
            out@ == sort_by_start(orig.take(k as int)),
            out@.len() == k,
        decreases rest@.len(),
    {
        let x = rest.remove(0);
        assert(x == orig[k as int]);
        let key = x.start_ms;
        let mut p = out.len();
        assert(out@.take(p as int) =~= out@);
        while p > 0 && out[p - 1].start_ms > key
            invariant
                p <= out@.len(),
                insert_pos(out@, key) == insert_pos(out@.take(p as int), key),
            decreases p,
        {
            assert(out@.take(p as int).drop_last() =~= out@.take(p as int - 1));
            p = p - 1;
        }
        proof {
            if p > 0 {
                assert(out@.take(p as int).last() == out@[p - 1]);
            }
            assert(out@.take(0) =~= Seq::<Segment>::empty());
            assert(insert_pos(out@, key) == p);
            assert(orig.take(k as int + 1).drop_last() =~= orig.take(k as int));
        }
        out.insert(p, x);
        k = k + 1;
    }
    assert(orig.take(k as int) =~= orig);
    out
}

/// Reconciles start-sorted segments in order: each one replaces the most
/// recent of the last `REPLACE_WINDOW` accepted segments that it clearly
/// outranks (when the config prefers confident renditions), or is dropped if
/// it repeats one of the last `DUPLICATE_WINDOW`, or is appended.
fn deduplicate_segments(segs: Vec<Segment>, config: &MergeConfig) -> (r: Vec<Segment>)
    ensures
        r@ == dedup(segs@, *config),
{
    let ghost orig = segs@;
    let _n = segs.len();
    let mut rest = segs;
    let mut acc: Vec<Segment> = Vec::new();
    let mut k: usize = 0;
    while rest.len() > 0
        invariant
            orig.len() <= usize::MAX,
            k <= orig.len(),
            rest@ == orig.subrange(k as int, orig.len() as int),
            acc@ == dedup(orig.take(k as int), *config),
        decreases rest@.len(),
    {
        let cand = rest.remove(0);
        assert(cand == orig[k as int]);
        assert(orig.take(k as int + 1).drop_last() =~= orig.take(k as int));
        let found = if config.prefer_higher_confidence {
            find_replaceable_segment(&acc, &cand, config)
        } else {
            None
        };
        match found {
            Some(idx) => {
                proof {
                    lemma_find_replace_bounds(acc@, cand, *config, acc@.len() as int);
                }
                acc.set(idx, cand);
            },
            None => {
                if !has_duplicate(&acc, &cand, config) {
                    acc.push(cand);
                }
            },
        }
        k = k + 1;
    }
    assert(orig.take(k as int) =~= orig);
    acc
}

/// Gives the segments the ids `0, 1, 2, ...` in order.
fn assign_ids(segs: Vec<Segment>) -> (r: Vec<Segment>)
    requires
        segs@.len() <= i32::MAX + 1,
    ensures
        renumbered(r@, segs@),
{
    let ghost orig = segs@;
    let n = segs.len();
    let mut rest = segs;
    let mut out: Vec<Segment> = Vec::new();
    let mut k: usize = 0;
    while rest.len() > 0
        invariant
            n == orig.len(),
            n <= i32::MAX + 1,
            k <= n,
            rest@ == orig.subrange(k as int, n as int),
            renumbered(out@, orig.take(k as int)),
        decreases rest@.len(),
    {
        let seg = rest.remove(0);
        assert(seg == orig[k as int]);
        out.push(Segment {
            id: k as i32,
            start_ms: seg.start_ms,
            end_ms: seg.end_ms,
            text: seg.text,
            confidence: seg.confidence,
            tokens: seg.tokens,
        });
        k = k + 1;
        assert(renumbered(out@, orig.take(k as int)));
    }
    assert(orig.take(k as int) =~= orig);
    out
}

proof fn lemma_sort_len(s: Seq<Segment>)
    ensures
        sort_by_start(s).len() == s.len(),
    decreases s.len(),
{
    if s.len() > 0 {
        lemma_sort_len(s.drop_last());
        lemma_insert_pos_bounds(sort_by_start(s.drop_last()), s.last().start_ms);
    }
}

pub proof fn lemma_insert_pos_bounds(s: Seq<Segment>, key: i64)
    ensures
        0 <= insert_pos(s, key) <= s.len(),
    decreases s.len(),
{
    if s.len() > 0 {
        lemma_insert_pos_bounds(s.drop_last(), key);
    }
}

proof fn lemma_find_replace_bounds(acc: Seq<Segment>, cand: Segment, config: MergeConfig, hi: int)
    requires
        hi <= acc.len(),
    ensures
        find_replace(acc, cand, config, hi) matches Some(i) ==> 0 <= i < hi,
    decreases hi,
{
    if hi > window_low(acc.len(), REPLACE_WINDOW as nat) {
        lemma_find_replace_bounds(acc, cand, config, hi - 1);
    }
}

proof fn lemma_dedup_len(s: Seq<Segment>, config: MergeConfig)
    ensures
        dedup(s, config).len() <= s.len(),
    decreases s.len(),
{
    if s.len() > 0 {
        lemma_dedup_len(s.drop_last(), config);
        let acc = dedup(s.drop_last(), config);
        lemma_find_replace_bounds(acc, s.last(), config, acc.len() as int);
    }
}

/// Merges the transcripts of overlapping windows, each given with the offset
/// (ms) of its window: every segment is moved onto the absolute timeline, all
/// are sorted stably by start, repeats across windows are removed (a clearly
/// more confident rendition replaces the one accepted earlier), and the kept
/// segments get the ids `0, 1, 2, ...`. The language is the most frequent one
/// reported, the first reported among equally frequent ones, or `"unknown"`
/// when there are no results.
pub fn merge_transcription_results(results: Vec<(TranscriptionResult, i64)>, config: MergeConfig) -> (r: MergeResult)
    requires
        offsets_fit(results@),
        absolute_segments(results@).len() <= i32::MAX + 1,
    ensures
        results@.len() == 0 ==> r.result.language@ == "unknown"@,
        results@.len() > 0 ==> exists|i: int|
            is_first_most_frequent(languages(results@), i) && r.result.language@ == languages(results@)[i],
        r.chunks_merged == results@.len(),
        r.total_segments_before == absolute_segments(results@).len(),
        renumbered(r.result.segments@, merged_segments(results@, config)),
        r.duplicates_removed == r.total_segments_before - r.result.segments@.len(),
{
    let chunks_merged = results.len();
    if chunks_merged == 0 {
        assert(absolute_segments(results@) =~= Seq::<Segment>::empty());
        assert(sort_by_start(Seq::<Segment>::empty()) =~= Seq::<Segment>::empty());
        return MergeResult {
            result: TranscriptionResult { language: String::from_str("unknown"), segments: Vec::new() },
            total_segments_before: 0,
            duplicates_removed: 0,
            chunks_merged: 0,
        };
    }
    let language = determine_language(&results);
    let all = absolutize(results);
    let total_segments_before = all.len();
    let sorted = sort_segments(all);
    let kept = deduplicate_segments(sorted, &config);
    proof {
        lemma_sort_len(absolute_segments(results@));
        lemma_dedup_len(sort_by_start(absolute_segments(results@)), config);
    }
    let duplicates_removed = total_segments_before - kept.len();
    let segments = assign_ids(kept);
    MergeResult {
        result: TranscriptionResult { language, segments },
        total_segments_before,
        duplicates_removed,
        chunks_merged,
    }
}

/// Whether `results` meet what `merge_transcription_results` asks of them.
pub open spec fn mergeable(results: Seq<(TranscriptionResult, i64)>) -> bool {
    offsets_fit(results) && absolute_segments(results).len() <= i32::MAX + 1
}

proof fn lemma_absolute_len_step(results: Seq<(TranscriptionResult, i64)>, k: int)
    requires
        0 <= k < results.len(),
    ensures
        absolute_segments(results.take(k + 1)).len() == absolute_segments(results.take(k)).len()
            + results[k].0.segments@.len(),
{
    assert(results.take(k + 1).drop_last() =~= results.take(k));
}

/// Whether every segment of every result can be moved by its offset and the
/// merged segments can be numbered with `i32` ids.
pub fn can_merge(results: &Vec<(TranscriptionResult, i64)>) -> (r: bool)
    ensures
        r == mergeable(results@),
{
    let mut total: u64 = 0;
    let mut k: usize = 0;
    while k < results.len()
        invariant
            0 <= k <= results@.len(),
            forall|i: int, j: int|
                0 <= i < k && 0 <= j < results@[i].0.segments@.len() ==> shift_fits(
                    #[trigger] results@[i].0.segments@[j],
                    results@[i].1,
                ),
            total == absolute_segments(results@.take(k as int)).len(),
            total <= i32::MAX + 1,
        decreases results@.len() - k,
    {
        let off = results[k].1;
        let segs = &results[k].0.segments;
        let mut j: usize = 0;
        while j < segs.len()
            invariant
                0 <= j <= segs@.len(),
                k < results@.len(),
                *segs == results@[k as int].0.segments,
                off == results@[k as int].1,
                forall|m: int| 0 <= m < j ==> shift_fits(#[trigger] segs@[m], off),
            decreases segs@.len() - j,
        {
            let seg = &segs[j];
            let s = seg.start_ms as i128 + off as i128;
            let e = seg.end_ms as i128 + off as i128;
            if s < i64::MIN as i128 || s > i64::MAX as i128 || e < i64::MIN as i128 || e > i64::MAX as i128 {
                proof {
                    assert(!shift_fits(results@[k as int].0.segments@[j as int], results@[k as int].1));
                    lemma_prefix_fit_needed(results@, k as int, j as int);
                }
                return false;
            }
            j = j + 1;
        }
        proof {
            lemma_absolute_len_step(results@, k as int);
        }
        if total as u128 + segs.len() as u128 > i32::MAX as u128 + 1 {
            proof {
                lemma_absolute_len_monotone(results@, k as int + 1);
            }
            return false;
        }
        total = total + segs.len() as u64;
        k = k + 1;
    }
    assert(results@.take(k as int) =~= results@);
    true
}

proof fn lemma_prefix_fit_needed(results: Seq<(TranscriptionResult, i64)>, k: int, j: int)
    requires
        0 <= k < results.len(),
        0 <= j < results[k].0.segments@.len(),
        !shift_fits(results[k].0.segments@[j], results[k].1),
    ensures
        !mergeable(results),
{
}

proof fn lemma_absolute_len_monotone(results: Seq<(TranscriptionResult, i64)>, k: int)
    requires
        0 <= k <= results.len(),
    ensures
        absolute_segments(results.take(k)).len() <= absolute_segments(results).len(),
    decreases results.len() - k,
{
    if k < results.len() {
        lemma_absolute_len_step(results, k);
        lemma_absolute_len_monotone(results, k + 1);
    } else {
        assert(results.take(k) =~= results);
    }
}

/// Merges the results when they meet the merge's demands (see `mergeable`),
/// and returns `None` when they do not.
pub fn merge_checked(results: Vec<(TranscriptionResult, i64)>, config: MergeConfig) -> (r: Option<MergeResult>)
    ensures
        r is Some <==> mergeable(results@),
        r matches Some(m) ==> {
            &&& m.chunks_merged == results@.len()
            &&& m.total_segments_before == absolute_segments(results@).len()
            &&& renumbered(m.result.segments@, merged_segments(results@, config))
            &&& m.duplicates_removed == m.total_segments_before - m.result.segments@.len()
            &&& results@.len() == 0 ==> m.result.language@ == "unknown"@
            &&& results@.len() > 0 ==> exists|i: int|
                is_first_most_frequent(languages(results@), i) && m.result.language@ == languages(results@)[i]
        },
{
    if can_merge(&results) {
        Some(merge_transcription_results(results, config))
    } else {
        None
    }
}

} // verus!
