//! What the command lines for ffmpeg promise.

use vstd::prelude::*;

use super::reencode;
use crate::engine::composite::{RenderPlanView, RenderSegmentView};
use crate::seqs;
use crate::text;

verus! {

/// `ms` are the whole milliseconds of `us`, the rest dropped.
pub open spec fn is_millis_of(ms: int, us: int) -> bool {
    &&& us >= 0 ==> ms * 1_000 <= us < ms * 1_000 + 1_000
    &&& us < 0 ==> ms * 1_000 - 1_000 < us <= ms * 1_000
}

/// The chain of the sound of an input: it is brought to form, delayed by so many
/// milliseconds on both channels, and goes on under the label of the segment.
pub open spec fn delayed_sound(input_idx: int, ms: int, k: int) -> Seq<char> {
    "["@ + text::dec(input_idx as nat)
        + ":a]aformat=sample_rates=48000:channel_layouts=stereo,adelay="@ + text::dec_signed(ms)
        + "|"@ + text::dec_signed(ms) + "[oa"@ + text::dec(k as nat) + "];"@
}

/// There are two audible segments at least.
pub open spec fn several_audible(segments: Seq<RenderSegmentView>) -> bool {
    exists|i: int, j: int|
        0 <= i < j < segments.len() && !(#[trigger] segments[i]).muted && !(
        #[trigger] segments[j]).muted
}

/// The segment at `k` is the only audible one.
pub open spec fn is_only_audible(segments: Seq<RenderSegmentView>, k: int) -> bool {
    &&& 0 <= k < segments.len() && !segments[k].muted
    &&& forall|i: int| 0 <= i < segments.len() && i != k ==> (#[trigger] segments[i]).muted
}

/// The first `n` segments are all muted.
spec fn all_muted(segments: Seq<RenderSegmentView>, n: int) -> bool {
    forall|i: int| 0 <= i < n ==> (#[trigger] segments[i]).muted
}

proof fn lemma_none_audible(segments: Seq<RenderSegmentView>, n: int)
    requires
        0 <= n <= segments.len(),
    ensures
        reencode::audible(segments, n) >= 0,
        reencode::audible(segments, n) == 0 <==> all_muted(segments, n),
        reencode::audible(segments, n) > 0 ==> 0 <= reencode::last_audible(segments, n) < n
            && !segments[reencode::last_audible(segments, n)].muted,
    decreases n,
{
    if n > 0 {
        lemma_none_audible(segments, n - 1);
        if !segments[n - 1].muted {
            assert(!all_muted(segments, n));
        }
        if !all_muted(segments, n - 1) {
            let i = choose|i: int| 0 <= i < n - 1 && !(#[trigger] segments[i]).muted;
            assert(!segments[i].muted);
        }
    }
}

proof fn lemma_one_audible(segments: Seq<RenderSegmentView>, n: int, k: int)
    requires
        0 <= k < n <= segments.len(),
        is_only_audible(segments, k),
    ensures
        reencode::audible(segments, n) == 1,
        reencode::last_audible(segments, n) == k,
    decreases n,
{
    if k < n - 1 {
        assert(segments[n - 1].muted);
        lemma_one_audible(segments, n - 1, k);
    } else {
        lemma_none_audible(segments, n - 1);
        assert(all_muted(segments, n - 1));
    }
}

proof fn lemma_two_audible(segments: Seq<RenderSegmentView>, n: int, i: int, j: int)
    requires
        0 <= i < j < n <= segments.len(),
        !segments[i].muted,
        !segments[j].muted,
    ensures
        reencode::audible(segments, n) >= 2,
    decreases n,
{
    if j < n - 1 {
        lemma_two_audible(segments, n - 1, i, j);
    } else {
        lemma_none_audible(segments, n - 1);
        assert(!segments[i].muted);
    }
}

/// Silence is made just where no segment is audible. Where a single one is, it is
/// the one that is found, and where there are more, they are mixed.
pub proof fn lemma_lone_sound_is_found(segments: Seq<RenderSegmentView>, k: int)
    ensures
        reencode::audible(segments, segments.len() as int) == 0 <==> forall|i: int|
            0 <= i < segments.len() ==> (#[trigger] segments[i]).muted,
        is_only_audible(segments, k) ==> reencode::audible(segments, segments.len() as int) == 1
            && reencode::last_audible(segments, segments.len() as int) == k,
        several_audible(segments) ==> reencode::audible(segments, segments.len() as int) >= 2,
{
    let n = segments.len() as int;
    lemma_none_audible(segments, n);
    if is_only_audible(segments, k) {
        lemma_one_audible(segments, n, k);
    }
    if several_audible(segments) {
        let (i, j) = choose|i: int, j: int|
            0 <= i < j < segments.len() && !(#[trigger] segments[i]).muted && !(
            #[trigger] segments[j]).muted;
        lemma_two_audible(segments, n, i, j);
    }
}

/// The chain of a sound comes behind what was there.
pub proof fn lemma_sound_is_appended(acc: Seq<char>, i: int, ms: int, k: int)
    ensures
        reencode::audio_chain(acc, i, ms) + "[oa"@ + text::dec(k as nat) + "];"@ == acc
            + delayed_sound(i, ms, k),
{
    let p1 = "["@;
    let p2 = p1 + text::dec(i as nat);
    let p3 = p2 + ":a]aformat=sample_rates=48000:channel_layouts=stereo,adelay="@;
    let p4 = p3 + text::dec_signed(ms);
    let p5 = p4 + "|"@;
    let p6 = p5 + text::dec_signed(ms);
    let p7 = p6 + "[oa"@;
    let p8 = p7 + text::dec(k as nat);
    seqs::lemma_append(acc, p1, text::dec(i as nat));
    seqs::lemma_append(
        acc,
        p2,
        ":a]aformat=sample_rates=48000:channel_layouts=stereo,adelay="@,
    );
    seqs::lemma_append(acc, p3, text::dec_signed(ms));
    seqs::lemma_append(acc, p4, "|"@);
    seqs::lemma_append(acc, p5, text::dec_signed(ms));
    seqs::lemma_append(acc, p6, "[oa"@);
    seqs::lemma_append(acc, p7, text::dec(k as nat));
    seqs::lemma_append(acc, p8, "];"@);
}

proof fn lemma_chains_have_each_sound(
    acc: Seq<char>,
    segments: Seq<RenderSegmentView>,
    n: int,
    k: int,
)
    requires
        0 <= k < n <= segments.len(),
        !segments[k].muted,
    ensures
        seqs::has_piece(
            reencode::audio_chains(acc, segments, n),
            delayed_sound(
                segments[k].input_idx as int,
                reencode::millis(segments[k].start_us as int),
                k,
            ),
        ),
    decreases n,
{
    let before = reencode::audio_chains(acc, segments, n - 1);
    let all = reencode::audio_chains(acc, segments, n);
    let seg = segments[n - 1];
    let own = delayed_sound(
        seg.input_idx as int,
        reencode::millis(seg.start_us as int),
        n - 1,
    );
    if !seg.muted {
        lemma_sound_is_appended(
            before,
            seg.input_idx as int,
            reencode::millis(seg.start_us as int),
            n - 1,
        );
        assert(all == before + own);
    }
    if k == n - 1 {
        seqs::lemma_piece_at_end(before, own);
    } else {
        lemma_chains_have_each_sound(acc, segments, n - 1, k);
        if !seg.muted {
            seqs::lemma_piece_stays(
                before,
                delayed_sound(
                    segments[k].input_idx as int,
                    reencode::millis(segments[k].start_us as int),
                    k,
                ),
                own,
            );
        }
    }
}

proof fn lemma_labels_come_behind(
    acc: Seq<char>,
    segments: Seq<RenderSegmentView>,
    n: int,
    piece: Seq<char>,
)
    requires
        seqs::has_piece(acc, piece),
    ensures
        seqs::has_piece(reencode::audio_labels(acc, segments, n), piece),
    decreases n,
{
    if n > 0 {
        lemma_labels_come_behind(acc, segments, n - 1, piece);
        if !segments[n - 1].muted {
            let before = reencode::audio_labels(acc, segments, n - 1);
            seqs::lemma_piece_stays(before, piece, "[oa"@);
            let opened = before + "[oa"@;
            seqs::lemma_piece_stays(opened, piece, text::dec((n - 1) as nat));
            seqs::lemma_piece_stays(opened + text::dec((n - 1) as nat), piece, "]"@);
        }
    }
}

/// In the graph of a plan with several audible segments each of them is delayed by
/// when it starts on the timeline, in whole milliseconds; one that starts with
/// the timeline is not delayed.
pub proof fn lemma_sound_is_delayed_by_its_start(
    plan: RenderPlanView,
    w: u32,
    h: u32,
    fps: Seq<char>,
    lone_delay_ms: i64,
    k: int,
)
    requires
        several_audible(plan.audio_segments),
        0 <= k < plan.audio_segments.len(),
        !plan.audio_segments[k].muted,
    ensures
        exists|ms: int|
            is_millis_of(ms, plan.audio_segments[k].start_us as int) && (
            plan.audio_segments[k].start_us == 0 ==> ms == 0) && #[trigger] seqs::has_piece(
                reencode::multitrack_graph(plan, w, h, fps, lone_delay_ms),
                delayed_sound(plan.audio_segments[k].input_idx as int, ms, k),
            ),
{
    let segments = plan.audio_segments;
    let n = segments.len() as int;
    let seg = segments[k];
    let ms = reencode::millis(seg.start_us as int);
    let piece = delayed_sound(seg.input_idx as int, ms, k);
    let v = plan.video_segments.len() as int;
    let acc = reencode::overlays(
        reencode::canvas(plan, w, h, fps),
        plan.video_segments,
        v,
        w,
        h,
        fps,
    ) + "["@ + reencode::canvas_label(plan.video_segments, v) + "]null[outv];"@;
    lemma_lone_sound_is_found(segments, k);
    lemma_chains_have_each_sound(acc, segments, n, k);
    let chains = reencode::audio_chains(acc, segments, n);
    lemma_labels_come_behind(chains, segments, n, piece);
    let labels = reencode::audio_labels(chains, segments, n);
    let count = reencode::audible(segments, n);
    let mixed = labels + "amix=inputs="@;
    seqs::lemma_piece_stays(labels, piece, "amix=inputs="@);
    seqs::lemma_piece_stays(mixed, piece, text::dec(count as nat));
    seqs::lemma_piece_stays(
        mixed + text::dec(count as nat),
        piece,
        ":duration=longest:dropout_transition=0[outa]"@,
    );
    assert(is_millis_of(ms, seg.start_us as int));
    assert(reencode::multitrack_graph(plan, w, h, fps, lone_delay_ms) == mixed + text::dec(
        count as nat,
    ) + ":duration=longest:dropout_transition=0[outa]"@);
    assert(seqs::has_piece(
        reencode::multitrack_graph(plan, w, h, fps, lone_delay_ms),
        delayed_sound(seg.input_idx as int, ms, k),
    ));
}

/// `b` is `a` but for when its segments end.
pub open spec fn differ_in_ends_only(
    a: Seq<RenderSegmentView>,
    b: Seq<RenderSegmentView>,
) -> bool {
    &&& a.len() == b.len()
    &&& forall|i: int|
        0 <= i < a.len() ==> #[trigger] b[i] == (RenderSegmentView { end_us: b[i].end_us, ..a[i] })
}

proof fn lemma_ends_do_not_matter(
    acc: Seq<char>,
    a: Seq<RenderSegmentView>,
    b: Seq<RenderSegmentView>,
    n: int,
)
    requires
        differ_in_ends_only(a, b),
        0 <= n <= a.len(),
    ensures
        reencode::audible(a, n) == reencode::audible(b, n),
        reencode::last_audible(a, n) == reencode::last_audible(b, n),
        reencode::audio_chains(acc, a, n) == reencode::audio_chains(acc, b, n),
    decreases n,
{
    if n > 0 {
        lemma_ends_do_not_matter(acc, a, b, n - 1);
        assert(b[n - 1] == (RenderSegmentView { end_us: b[n - 1].end_us, ..a[n - 1] }));
    }
}

proof fn lemma_ends_do_not_matter_for_labels(
    acc: Seq<char>,
    a: Seq<RenderSegmentView>,
    b: Seq<RenderSegmentView>,
    n: int,
)
    requires
        differ_in_ends_only(a, b),
        0 <= n <= a.len(),
    ensures
        reencode::audio_labels(acc, a, n) == reencode::audio_labels(acc, b, n),
    decreases n,
{
    if n > 0 {
        lemma_ends_do_not_matter_for_labels(acc, a, b, n - 1);
        assert(b[n - 1] == (RenderSegmentView { end_us: b[n - 1].end_us, ..a[n - 1] }));
    }
}

/// When sounds end does not matter to the graph: changing the ends of audio
/// segments leaves it as it is.
pub proof fn lemma_sound_does_not_depend_on_ends(
    a: RenderPlanView,
    b: RenderPlanView,
    w: u32,
    h: u32,
    fps: Seq<char>,
    lone_delay_ms: i64,
)
    requires
        differ_in_ends_only(a.audio_segments, b.audio_segments),
        b == (RenderPlanView { audio_segments: b.audio_segments, ..a }),
    ensures
        reencode::multitrack_graph(a, w, h, fps, lone_delay_ms) == reencode::multitrack_graph(
            b,
            w,
            h,
            fps,
            lone_delay_ms,
        ),
{
    let v = a.video_segments.len() as int;
    let n = a.audio_segments.len() as int;
    let acc = reencode::overlays(
        reencode::canvas(a, w, h, fps),
        a.video_segments,
        v,
        w,
        h,
        fps,
    ) + "["@ + reencode::canvas_label(a.video_segments, v) + "]null[outv];"@;
    lemma_ends_do_not_matter(acc, a.audio_segments, b.audio_segments, n);
    lemma_ends_do_not_matter_for_labels(
        reencode::audio_chains(acc, a.audio_segments, n),
        a.audio_segments,
        b.audio_segments,
        n,
    );
    lemma_none_audible(a.audio_segments, n);
    if reencode::audible(a.audio_segments, n) == 1 {
        let last = reencode::last_audible(a.audio_segments, n);
        assert(b.audio_segments[last].input_idx == a.audio_segments[last].input_idx);
    }
}

} // verus!
