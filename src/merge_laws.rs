//! What the merge guarantees beyond its contract: the order of the kept
//! segments, a single window passing through unchanged, and two identical
//! renditions collapsing to one.

use vstd::prelude::*;
use crate::merge::{
    abs_diff, absolute_segments, can_replace, dedup, find_replace, has_dup, insert_pos, is_dup,
    lemma_insert_pos_bounds, merged_segments, offsets_fit, ratio_above, renumbered,
    same_content, shift_fits, shifted, sort_by_start, window_low, MergeConfig,
    CONFIDENCE_MARGIN, HIGH_SIMILARITY, REPLACE_WINDOW,
};
use crate::segment::{Segment, TranscriptionResult, CONFIDENCE_SCALE};
use crate::text::similarity_of;

verus! {

/// Start times never decrease along `s`.
pub open spec fn starts_sorted(s: Seq<Segment>) -> bool {
    forall|i: int, j: int| 0 <= i < j < s.len() ==> (#[trigger] s[i]).start_ms <= (#[trigger] s[j]).start_ms
}

proof fn lemma_insert_pos_splits(t: Seq<Segment>, key: i64)
    requires
        starts_sorted(t),
    ensures
        forall|i: int| 0 <= i < insert_pos(t, key) ==> (#[trigger] t[i]).start_ms <= key,
        forall|i: int| insert_pos(t, key) <= i < t.len() ==> (#[trigger] t[i]).start_ms > key,
    decreases t.len(),
{
    lemma_insert_pos_bounds(t, key);
    if t.len() > 0 {
        let u = t.drop_last();
        assert(starts_sorted(u));
        lemma_insert_pos_splits(u, key);
        lemma_insert_pos_bounds(u, key);
        if t.last().start_ms > key {
            assert forall|i: int| 0 <= i < insert_pos(t, key) implies (#[trigger] t[i]).start_ms <= key by {
                assert(u[i] == t[i]);
            }
            assert forall|i: int| insert_pos(t, key) <= i < t.len() implies (#[trigger] t[i]).start_ms > key by {
                if i < t.len() - 1 {
                    assert(u[i] == t[i]);
                }
            }
        } else {
            assert forall|i: int| 0 <= i < insert_pos(t, key) implies (#[trigger] t[i]).start_ms <= key by {
                if i < t.len() - 1 {
                    assert(t[i].start_ms <= t[t.len() - 1].start_ms);
                }
            }
        }
    }
}

proof fn lemma_sort_sorted(s: Seq<Segment>)
    ensures
        starts_sorted(sort_by_start(s)),
    decreases s.len(),
{
    if s.len() > 0 {
        let t = sort_by_start(s.drop_last());
        lemma_sort_sorted(s.drop_last());
        let key = s.last().start_ms;
        lemma_insert_pos_splits(t, key);
        lemma_insert_pos_bounds(t, key);
        let p = insert_pos(t, key);
        let r = t.insert(p, s.last());
        assert forall|i: int, j: int| 0 <= i < j < r.len() implies (#[trigger] r[i]).start_ms
            <= (#[trigger] r[j]).start_ms by {
            if j < p {
                assert(r[i] == t[i] && r[j] == t[j]);
            } else if j == p {
                assert(r[i] == t[i]);
            } else if i < p {
                assert(r[i] == t[i] && r[j] == t[j - 1]);
            } else if i == p {
                assert(r[j] == t[j - 1]);
            } else {
                assert(r[i] == t[i - 1] && r[j] == t[j - 1]);
            }
        }
    }
}

proof fn lemma_dedup_keeps_order(s: Seq<Segment>, config: MergeConfig)
    requires
        !config.prefer_higher_confidence,
        starts_sorted(s),
    ensures
        starts_sorted(dedup(s, config)),
        s.len() > 0 ==> forall|i: int| 0 <= i < dedup(s, config).len() ==>
            (#[trigger] dedup(s, config)[i]).start_ms <= s.last().start_ms,
    decreases s.len(),
{
    if s.len() > 0 {
        let u = s.drop_last();
        assert(starts_sorted(u));
        lemma_dedup_keeps_order(u, config);
        let acc = dedup(u, config);
        if u.len() > 0 {
            assert(u.last().start_ms <= s.last().start_ms);
        } else {
            assert(acc.len() == 0);
        }
    }
}

/// Merged ids count up from zero in list order, so they are strictly
/// increasing; and when the merge does not replace segments by more confident
/// renditions, the kept segments are in ascending start order.
pub proof fn lemma_merged_order(results: Seq<(TranscriptionResult, i64)>, config: MergeConfig, out: Seq<Segment>)
    requires
        renumbered(out, merged_segments(results, config)),
    ensures
        forall|i: int| 0 <= i < out.len() ==> (#[trigger] out[i]).id == i,
        forall|i: int, j: int| 0 <= i < j < out.len() ==> (#[trigger] out[i]).id < (#[trigger] out[j]).id,
        !config.prefer_higher_confidence ==> starts_sorted(out),
{
    let acc = merged_segments(results, config);
    assert forall|i: int| 0 <= i < out.len() implies (#[trigger] out[i]).id == i by {
        assert(same_content(out[i], acc[i]));
    }
    if !config.prefer_higher_confidence {
        lemma_sort_sorted(absolute_segments(results));
        lemma_dedup_keeps_order(sort_by_start(absolute_segments(results)), config);
        assert forall|i: int, j: int| 0 <= i < j < out.len() implies (#[trigger] out[i]).start_ms
            <= (#[trigger] out[j]).start_ms by {
            assert(same_content(out[i], acc[i]));
            assert(same_content(out[j], acc[j]));
        }
    }
}

proof fn lemma_sorted_sort_is_identity(s: Seq<Segment>)
    requires
        starts_sorted(s),
    ensures
        sort_by_start(s) == s,
    decreases s.len(),
{
    if s.len() > 0 {
        let u = s.drop_last();
        assert(starts_sorted(u));
        lemma_sorted_sort_is_identity(u);
        if u.len() > 0 {
            assert(u.last().start_ms <= s.last().start_ms);
        }
        assert(u.insert(u.len() as int, s.last()) =~= s);
    }
}

proof fn lemma_no_replace_found(acc: Seq<Segment>, cand: Segment, config: MergeConfig, hi: int)
    requires
        hi <= acc.len(),
        forall|j: int| 0 <= j < acc.len() ==> !#[trigger] can_replace(acc[j], cand, config),
    ensures
        find_replace(acc, cand, config, hi) is None,
    decreases hi,
{
    if hi > window_low(acc.len(), REPLACE_WINDOW as nat) {
        lemma_no_replace_found(acc, cand, config, hi - 1);
    }
}

proof fn lemma_distinct_kept(s: Seq<Segment>, config: MergeConfig)
    requires
        forall|i: int, j: int| 0 <= i < j < s.len() ==> !is_dup(#[trigger] s[i], #[trigger] s[j], config)
            && !can_replace(s[i], s[j], config),
    ensures
        dedup(s, config) == s,
    decreases s.len(),
{
    if s.len() > 0 {
        let u = s.drop_last();
        lemma_distinct_kept(u, config);
        let cand = s.last();
        assert forall|j: int| 0 <= j < u.len() implies !#[trigger] can_replace(u[j], cand, config) by {
            assert(u[j] == s[j]);
        }
        lemma_no_replace_found(u, cand, config, u.len() as int);
        assert forall|j: int| 0 <= j < u.len() implies !#[trigger] is_dup(u[j], cand, config) by {
            assert(u[j] == s[j]);
        }
        assert(u.push(cand) =~= s);
    }
}

/// Merging the transcript of a single window whose segments are in start
/// order, none of which repeats or is outranked by a later one, keeps every
/// segment: each comes back moved by the window's offset with its content
/// unchanged, the ids count up from zero, and nothing is removed.
pub proof fn lemma_single_result_kept(tr: TranscriptionResult, off: i64, config: MergeConfig, out: Seq<Segment>)
    requires
        offsets_fit(seq![(tr, off)]),
        starts_sorted(tr.segments@),
        forall|i: int, j: int| 0 <= i < j < tr.segments@.len() ==>
            !is_dup(#[trigger] tr.segments@[i], #[trigger] tr.segments@[j], config)
            && !can_replace(tr.segments@[i], tr.segments@[j], config),
        renumbered(out, merged_segments(seq![(tr, off)], config)),
    ensures
        out.len() == tr.segments@.len(),
        absolute_segments(seq![(tr, off)]).len() == out.len(),
        forall|i: int| 0 <= i < out.len() ==> (#[trigger] out[i]).id == i
            && same_content(out[i], shifted(tr.segments@[i], off)),
{
    let results = seq![(tr, off)];
    let segs = tr.segments@;
    let a = segs.map_values(|seg: Segment| shifted(seg, off));
    assert(results.drop_last() =~= Seq::<(TranscriptionResult, i64)>::empty());
    assert(absolute_segments(results.drop_last()) =~= Seq::<Segment>::empty());
    assert(results.last() == (tr, off));
    assert(absolute_segments(results) =~= a);
    assert forall|i: int| 0 <= i < segs.len() implies shift_fits(#[trigger] segs[i], off) by {
        assert(results[0].0.segments@[i] == segs[i]);
    }
    assert(starts_sorted(a)) by {
        assert forall|i: int, j: int| 0 <= i < j < a.len() implies (#[trigger] a[i]).start_ms
            <= (#[trigger] a[j]).start_ms by {
            assert(shift_fits(segs[i], off) && shift_fits(segs[j], off));
        }
    }
    lemma_sorted_sort_is_identity(a);
    assert forall|i: int, j: int| 0 <= i < j < a.len() implies !is_dup(#[trigger] a[i], #[trigger] a[j], config)
        && !can_replace(a[i], a[j], config) by {
        assert(shift_fits(segs[i], off) && shift_fits(segs[j], off));
        assert(!is_dup(segs[i], segs[j], config) && !can_replace(segs[i], segs[j], config));
    }
    lemma_distinct_kept(a, config);
}

/// Two windows that each recognized one segment, with byte-identical text and
/// the same absolute start, collapse to a single segment with one removed:
/// the later rendition when the merge prefers confident renditions and it is
/// more than `CONFIDENCE_MARGIN` more confident, the earlier one otherwise.
pub proof fn lemma_identical_pair_collapses(
    t1: TranscriptionResult,
    off1: i64,
    t2: TranscriptionResult,
    off2: i64,
    config: MergeConfig,
    out: Seq<Segment>,
)
    requires
        t1.segments@.len() == 1,
        t2.segments@.len() == 1,
        offsets_fit(seq![(t1, off1), (t2, off2)]),
        t1.segments@[0].text == t2.segments@[0].text,
        t1.segments@[0].start_ms + off1 == t2.segments@[0].start_ms + off2,
        config.overlap_ms > 0,
        config.similarity_threshold < CONFIDENCE_SCALE,
        config.max_time_diff_ms >= 0,
        renumbered(out, merged_segments(seq![(t1, off1), (t2, off2)], config)),
    ensures
        absolute_segments(seq![(t1, off1), (t2, off2)]).len() == 2,
        out.len() == 1,
        out[0].id == 0,
        if config.prefer_higher_confidence && t2.segments@[0].confidence > t1.segments@[0].confidence
            + CONFIDENCE_MARGIN {
            same_content(out[0], shifted(t2.segments@[0], off2))
        } else {
            same_content(out[0], shifted(t1.segments@[0], off1))
        },
{
    let results = seq![(t1, off1), (t2, off2)];
    let x = shifted(t1.segments@[0], off1);
    let y = shifted(t2.segments@[0], off2);
    assert(shift_fits(results[0].0.segments@[0], results[0].1));
    assert(shift_fits(results[1].0.segments@[0], results[1].1));
    // the absolute segments are [x, y]
    let r1 = results.drop_last();
    assert(r1.drop_last() =~= Seq::<(TranscriptionResult, i64)>::empty());
    assert(absolute_segments(r1.drop_last()) =~= Seq::<Segment>::empty());
    assert(r1.last() == (t1, off1));
    assert(t1.segments@.map_values(|seg: Segment| shifted(seg, off1)) =~= seq![x]);
    assert(absolute_segments(r1) =~= seq![x]);
    assert(results.last() == (t2, off2));
    assert(t2.segments@.map_values(|seg: Segment| shifted(seg, off2)) =~= seq![y]);
    assert(absolute_segments(results) =~= seq![x, y]);
    // sorting keeps [x, y]
    lemma_sorted_sort_is_identity(seq![x, y]);
    // x alone is accepted
    let one = seq![x];
    assert(seq![x, y].drop_last() =~= one);
    assert(one.drop_last() =~= Seq::<Segment>::empty());
    assert(dedup(Seq::<Segment>::empty(), config) =~= Seq::<Segment>::empty());
    assert(!has_dup(Seq::<Segment>::empty(), x, config));
    assert(dedup(one, config) =~= one);
    // identical texts are fully similar
    crate::text::lemma_similarity_laws(x.text@, x.text@, x.text@);
    let sim = similarity_of(x.text@, y.text@);
    assert(sim.0 == sim.1 && sim.1 > 0);
    assert(ratio_above(sim, HIGH_SIMILARITY as nat)) by (nonlinear_arith)
        requires
            sim.0 == sim.1,
            sim.1 > 0,
    ;
    assert(ratio_above(sim, config.similarity_threshold as nat)) by (nonlinear_arith)
        requires
            sim.0 == sim.1,
            sim.1 > 0,
            config.similarity_threshold < 10000,
    ;
    assert(abs_diff(y.start_ms, x.start_ms) == 0);
    assert(is_dup(one[0], y, config));
    assert(has_dup(one, y, config));
    assert(find_replace(one, y, config, 0) is None);
    let result = dedup(seq![x, y], config);
    if config.prefer_higher_confidence && y.confidence > x.confidence + CONFIDENCE_MARGIN {
        assert(can_replace(one[0], y, config));
        assert(result =~= seq![y]);
    } else {
        assert(result =~= one);
    }
    assert(same_content(out[0], result[0]));
}

} // verus!
