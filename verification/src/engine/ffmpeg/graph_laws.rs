//! What the graph that lays pictures on one another promises.

use vstd::prelude::*;

use super::look;
use super::reencode;
use crate::engine::composite::{RenderPlanView, RenderSegmentView};
use crate::seqs;
use crate::text;

verus! {

/// The picture of a segment is moved to when the segment starts.
pub open spec fn shown_from(start_us: int, k: int) -> Seq<char> {
    ",setpts=PTS+"@ + reencode::secs_short(start_us) + "/TB[ov"@ + text::dec(k as nat) + "];"@
}

/// The picture of a segment is laid on the canvas from when it starts until it
/// ends.
pub open spec fn shown_between(start_us: int, end_us: int, k: int) -> Seq<char> {
    ":enable='between(t,"@ + reencode::secs6(start_us) + ","@ + reencode::secs6(end_us) + ")'["@
        + ("cv"@ + text::dec(k as nat)) + "];"@
}

/// The picture of a segment comes from its input.
pub open spec fn taken_from(seg: RenderSegmentView) -> Seq<char> {
    "["@ + text::dec(seg.input_idx as nat) + ":v]"@ + look::on_source(seg.transform)
}

/// The picture of a segment is laid over what lies below it.
pub open spec fn laid_over(below: Seq<char>, k: int, place: Seq<char>) -> Seq<char> {
    "["@ + below + "][ov"@ + text::dec(k as nat) + "]overlay="@ + place
}

/// The segments from `from` up to `to` are all muted.
pub open spec fn all_muted(segments: Seq<RenderSegmentView>, from: int, to: int) -> bool {
    forall|i: int| from <= i < to ==> (#[trigger] segments[i]).muted
}

/// The segment at `p` is the last one before `k` that is not muted.
pub open spec fn is_last_before(segments: Seq<RenderSegmentView>, p: int, k: int) -> bool {
    0 <= p < k && !segments[p].muted && all_muted(segments, p + 1, k)
}

/// The canvas that the `k`-th segment is laid on: that of the last one before it
/// that is not muted, or the empty one.
pub open spec fn is_below(segments: Seq<RenderSegmentView>, k: int, below: Seq<char>) -> bool {
    ||| below == "base"@ && all_muted(segments, 0, k)
    ||| exists|p: int| #[trigger]
        is_last_before(segments, p, k) && below == "cv"@ + text::dec(p as nat)
}

proof fn lemma_label_is_below(segments: Seq<RenderSegmentView>, k: int)
    requires
        0 <= k <= segments.len(),
    ensures
        is_below(segments, k, reencode::canvas_label(segments, k)),
    decreases k,
{
    if k > 0 && segments[k - 1].muted {
        lemma_label_is_below(segments, k - 1);
        let below = reencode::canvas_label(segments, k - 1);
        if !(below == "base"@ && all_muted(segments, 0, k - 1)) {
            let p = choose|p: int| #[trigger]
                is_last_before(segments, p, k - 1) && below == "cv"@ + text::dec(p as nat);
            assert(is_last_before(segments, p, k));
        }
    } else if k > 0 {
        assert(is_last_before(segments, k - 1, k));
    }
}

/// A segment is shown by a graph: taken from its input, with its look, when it
/// starts and until it ends, over what lies below it.
pub open spec fn is_shown(graph: Seq<char>, segments: Seq<RenderSegmentView>, k: int) -> bool {
    let seg = segments[k];
    &&& seqs::has_piece(graph, taken_from(seg))
    &&& seqs::has_piece(graph, look::on_picture(seg.transform, seg.transform_keys))
    &&& seqs::has_piece(graph, shown_from(seg.start_us as int, k))
    &&& seqs::has_piece(graph, shown_between(seg.start_us as int, seg.end_us as int, k))
    &&& exists|below: Seq<char>|
        is_below(segments, k, below) && #[trigger] seqs::has_piece(
            graph,
            laid_over(
                below,
                k,
                look::place(
                    seg.transform,
                    seg.transform_keys,
                    "((t-("@ + reencode::secs6(seg.start_us as int) + "))*1000000)"@,
                ),
            ),
        )
}

proof fn lemma_shown_stays(
    graph: Seq<char>,
    segments: Seq<RenderSegmentView>,
    k: int,
    more: Seq<char>,
)
    requires
        is_shown(graph, segments, k),
    ensures
        is_shown(graph + more, segments, k),
{
    let seg = segments[k];
    let place = look::place(
        seg.transform,
        seg.transform_keys,
        "((t-("@ + reencode::secs6(seg.start_us as int) + "))*1000000)"@,
    );
    seqs::lemma_piece_stays(graph, taken_from(seg), more);
    seqs::lemma_piece_stays(graph, look::on_picture(seg.transform, seg.transform_keys), more);
    seqs::lemma_piece_stays(graph, shown_from(seg.start_us as int, k), more);
    seqs::lemma_piece_stays(
        graph,
        shown_between(seg.start_us as int, seg.end_us as int, k),
        more,
    );
    let below = choose|below: Seq<char>|
        is_below(segments, k, below) && #[trigger] seqs::has_piece(
            graph,
            laid_over(below, k, place),
        );
    seqs::lemma_piece_stays(graph, laid_over(below, k, place), more);
}

/// What brings a picture to size comes behind what was there.
pub proof fn lemma_sizing_is_behind(
    acc: Seq<char>,
    w: u32,
    h: u32,
    fps: Seq<char>,
    piece: Seq<char>,
)
    requires
        seqs::has_piece(acc, piece),
    ensures
        seqs::has_piece(reencode::sizing(acc, w, h, fps), piece),
{
    let dw = text::dec(w as nat);
    let dh = text::dec(h as nat);
    let s1 = acc + "scale="@;
    let s2 = s1 + dw;
    let s3 = s2 + ":"@;
    let s4 = s3 + dh;
    let s5 = s4 + ":force_original_aspect_ratio=decrease,pad="@;
    let s6 = s5 + dw;
    let s7 = s6 + ":"@;
    let s8 = s7 + dh;
    let s9 = s8 + ":(ow-iw)/2:(oh-ih)/2,setsar=1,fps="@;
    seqs::lemma_piece_stays(acc, piece, "scale="@);
    seqs::lemma_piece_stays(s1, piece, dw);
    seqs::lemma_piece_stays(s2, piece, ":"@);
    seqs::lemma_piece_stays(s3, piece, dh);
    seqs::lemma_piece_stays(s4, piece, ":force_original_aspect_ratio=decrease,pad="@);
    seqs::lemma_piece_stays(s5, piece, dw);
    seqs::lemma_piece_stays(s6, piece, ":"@);
    seqs::lemma_piece_stays(s7, piece, dh);
    seqs::lemma_piece_stays(s8, piece, ":(ow-iw)/2:(oh-ih)/2,setsar=1,fps="@);
    seqs::lemma_piece_stays(s9, piece, fps);
}

proof fn lemma_seen_chain(
    acc: Seq<char>,
    seg: RenderSegmentView,
    k: int,
    w: u32,
    h: u32,
    fps: Seq<char>,
)
    ensures
        seqs::has_piece(reencode::seen_chain(acc, seg, k, w, h, fps), taken_from(seg)),
        seqs::has_piece(
            reencode::seen_chain(acc, seg, k, w, h, fps),
            look::on_picture(seg.transform, seg.transform_keys),
        ),
        seqs::has_piece(
            reencode::seen_chain(acc, seg, k, w, h, fps),
            shown_from(seg.start_us as int, k),
        ),
{
    reveal(reencode::seen_chain);
    let on = look::on_source(seg.transform);
    let d = text::dec(seg.input_idx as nat);
    let sized = reencode::sizing(
        reencode::video_of(acc, seg.input_idx as int) + on,
        w,
        h,
        fps,
    );
    let formed = sized + ",format=yuva420p"@;
    let picture = look::on_picture(seg.transform, seg.transform_keys);
    let looked = formed + picture;
    let short = reencode::secs_short(seg.start_us as int);
    let own = shown_from(seg.start_us as int, k);
    seqs::lemma_append_3(acc, "["@, d, ":v]"@);
    seqs::lemma_append(acc, "["@ + d + ":v]"@, on);
    seqs::lemma_piece_at_end(acc, taken_from(seg));
    lemma_sizing_is_behind(
        reencode::video_of(acc, seg.input_idx as int) + on,
        w,
        h,
        fps,
        taken_from(seg),
    );
    seqs::lemma_piece_stays(sized, taken_from(seg), ",format=yuva420p"@);
    seqs::lemma_piece_stays(formed, taken_from(seg), picture);
    seqs::lemma_piece_at_end(formed, picture);
    seqs::lemma_append_5(looked, ",setpts=PTS+"@, short, "/TB[ov"@, text::dec(k as nat), "];"@);
    seqs::lemma_piece_stays(looked, taken_from(seg), own);
    seqs::lemma_piece_stays(looked, picture, own);
    seqs::lemma_piece_at_end(looked, own);
    assert(reencode::seen_chain(acc, seg, k, w, h, fps) == looked + own);
}

/// What comes behind `acc` when a segment is laid on the canvas.
spec fn laid_part(seg: RenderSegmentView, k: int, label: Seq<char>) -> Seq<char> {
    laid_over(label, k, look::place(seg.transform, seg.transform_keys, reencode::time_in(seg)))
        + shown_between(seg.start_us as int, seg.end_us as int, k)
}

proof fn lemma_laid_on(acc: Seq<char>, seg: RenderSegmentView, k: int, label: Seq<char>)
    ensures
        reencode::laid_on(acc, seg, k, label) == acc + laid_part(seg, k, label),
{
    reveal(reencode::laid_on);
    let place = look::place(seg.transform, seg.transform_keys, reencode::time_in(seg));
    let d = text::dec(k as nat);
    let from = reencode::secs6(seg.start_us as int);
    let to = reencode::secs6(seg.end_us as int);
    let cv = "cv"@ + d;
    let over = laid_over(label, k, place);
    let s0 = acc + over;
    seqs::lemma_append_5(acc, "["@, label, "][ov"@, d, "]overlay="@);
    seqs::lemma_append(acc, "["@ + label + "][ov"@ + d + "]overlay="@, place);
    seqs::lemma_append_5(s0, ":enable='between(t,"@, from, ","@, to, ")'["@);
    let w5 = ":enable='between(t,"@ + from + ","@ + to + ")'["@;
    seqs::lemma_append(s0, w5, cv);
    seqs::lemma_append(s0, w5 + cv, "];"@);
    seqs::lemma_append(acc, over, shown_between(seg.start_us as int, seg.end_us as int, k));
}

proof fn lemma_overlays_show(
    acc: Seq<char>,
    segments: Seq<RenderSegmentView>,
    n: int,
    w: u32,
    h: u32,
    fps: Seq<char>,
    k: int,
)
    requires
        0 <= k < n <= segments.len(),
        !segments[k].muted,
    ensures
        is_shown(reencode::overlays(acc, segments, n, w, h, fps), segments, k),
    decreases n,
{
    let before = reencode::overlays(acc, segments, n - 1, w, h, fps);
    let seg = segments[n - 1];
    let label = reencode::canvas_label(segments, n - 1);
    let seen = reencode::seen_chain(before, seg, n - 1, w, h, fps);
    let part = laid_part(seg, n - 1, label);
    if k < n - 1 {
        lemma_overlays_show(acc, segments, n - 1, w, h, fps, k);
        if !seg.muted {
            lemma_laid_on(seen, seg, n - 1, label);
            lemma_seen_is_behind(before, seg, n - 1, w, h, fps);
            let own = choose|own: Seq<char>| seen == #[trigger] (before + own);
            lemma_shown_stays(before, segments, k, own);
            lemma_shown_stays(seen, segments, k, part);
        }
    } else {
        let place = look::place(seg.transform, seg.transform_keys, reencode::time_in(seg));
        let over = laid_over(label, k, place);
        let between = shown_between(seg.start_us as int, seg.end_us as int, k);
        lemma_laid_on(seen, seg, k, label);
        lemma_seen_chain(before, seg, k, w, h, fps);
        lemma_label_is_below(segments, k);
        seqs::lemma_piece_stays(seen, taken_from(seg), part);
        seqs::lemma_piece_stays(
            seen,
            look::on_picture(seg.transform, seg.transform_keys),
            part,
        );
        seqs::lemma_piece_stays(seen, shown_from(seg.start_us as int, k), part);
        seqs::lemma_append(seen, over, between);
        seqs::lemma_piece_at_end(seen, over);
        seqs::lemma_piece_stays(seen + over, over, between);
        seqs::lemma_piece_at_end(seen + over, between);
        assert(reencode::overlays(acc, segments, n, w, h, fps) == seen + part);
        assert(seqs::has_piece(seen + part, over));
    }
}

proof fn lemma_seen_is_behind(
    acc: Seq<char>,
    seg: RenderSegmentView,
    k: int,
    w: u32,
    h: u32,
    fps: Seq<char>,
)
    ensures
        exists|own: Seq<char>|
            reencode::seen_chain(acc, seg, k, w, h, fps) == #[trigger] (acc + own),
{
    reveal(reencode::seen_chain);
    let dw = text::dec(w as nat);
    let dh = text::dec(h as nat);
    let d = text::dec(seg.input_idx as nat);
    let own0 = "["@ + d + ":v]"@;
    let own1 = own0 + look::on_source(seg.transform);
    let own2 = own1 + "scale="@ + dw + ":"@ + dh + ":force_original_aspect_ratio=decrease,pad="@;
    let own3 = own2 + dw + ":"@ + dh + ":(ow-iw)/2:(oh-ih)/2,setsar=1,fps="@ + fps;
    let own4 = own3 + ",format=yuva420p"@ + look::on_picture(seg.transform, seg.transform_keys);
    let short = reencode::secs_short(seg.start_us as int);
    let own5 = own4 + ",setpts=PTS+"@ + short + "/TB[ov"@ + text::dec(k as nat) + "];"@;
    seqs::lemma_append_3(acc, "["@, d, ":v]"@);
    seqs::lemma_append(acc, own0, look::on_source(seg.transform));
    lemma_further_5(
        acc,
        own1,
        "scale="@,
        dw,
        ":"@,
        dh,
        ":force_original_aspect_ratio=decrease,pad="@,
    );
    lemma_further_5(acc, own2, dw, ":"@, dh, ":(ow-iw)/2:(oh-ih)/2,setsar=1,fps="@, fps);
    seqs::lemma_append(acc, own3, ",format=yuva420p"@);
    seqs::lemma_append(
        acc,
        own3 + ",format=yuva420p"@,
        look::on_picture(seg.transform, seg.transform_keys),
    );
    lemma_further_5(acc, own4, ",setpts=PTS+"@, short, "/TB[ov"@, text::dec(k as nat), "];"@);
    assert(reencode::seen_chain(acc, seg, k, w, h, fps) == acc + own5);
}

proof fn lemma_further_5(
    acc: Seq<char>,
    s: Seq<char>,
    a: Seq<char>,
    b: Seq<char>,
    c: Seq<char>,
    d: Seq<char>,
    e: Seq<char>,
)
    ensures
        acc + (s + a + b + c + d + e) == acc + s + a + b + c + d + e,
{
    seqs::lemma_append(acc, s + a + b + c + d, e);
    seqs::lemma_append(acc, s + a + b + c, d);
    seqs::lemma_append(acc, s + a + b, c);
    seqs::lemma_append(acc, s + a, b);
    seqs::lemma_append(acc, s, a);
}

proof fn lemma_sound_is_behind(
    acc: Seq<char>,
    plan: RenderPlanView,
    lone_delay_ms: i64,
)
    ensures
        exists|own: Seq<char>|
            reencode::audio_graph(acc, plan, lone_delay_ms) == #[trigger] (acc + own),
{
    let segments = plan.audio_segments;
    let n = segments.len() as int;
    let count = reencode::audible(segments, n);
    if count == 0 {
        let own = "anullsrc=r=48000:cl=stereo:d="@ + reencode::secs6(
            plan.total_duration_us as int,
        ) + "[outa]"@;
        seqs::lemma_append_3(
            acc,
            "anullsrc=r=48000:cl=stereo:d="@,
            reencode::secs6(plan.total_duration_us as int),
            "[outa]"@,
        );
        assert(reencode::audio_graph(acc, plan, lone_delay_ms) == acc + own);
    } else if count == 1 {
        let d = text::dec(segments[reencode::last_audible(segments, n)].input_idx as nat);
        let ms = text::dec_signed(lone_delay_ms as int);
        let form = ":a]aformat=sample_rates=48000:channel_layouts=stereo,adelay="@;
        let own0 = "["@;
        let own = own0 + d + form + ms + "|"@ + ms;
        lemma_further_5(acc, own0, d, form, ms, "|"@, ms);
        seqs::lemma_append(acc, own, "[outa]"@);
        assert(reencode::audio_graph(acc, plan, lone_delay_ms) == acc + (own + "[outa]"@));
    } else {
        lemma_chains_are_behind(acc, segments, n);
        let chains = reencode::audio_chains(acc, segments, n);
        let a = choose|a: Seq<char>| chains == #[trigger] (acc + a);
        lemma_labels_are_behind(chains, segments, n);
        let b = choose|b: Seq<char>|
            reencode::audio_labels(chains, segments, n) == #[trigger] (chains + b);
        let c = "amix=inputs="@ + text::dec(count as nat)
            + ":duration=longest:dropout_transition=0[outa]"@;
        seqs::lemma_append_3(
            chains + b,
            "amix=inputs="@,
            text::dec(count as nat),
            ":duration=longest:dropout_transition=0[outa]"@,
        );
        seqs::lemma_append_3(acc, a, b, c);
        assert(reencode::audio_graph(acc, plan, lone_delay_ms) == acc + (a + b + c));
    }
}

proof fn lemma_chains_are_behind(acc: Seq<char>, segments: Seq<RenderSegmentView>, n: int)
    ensures
        exists|own: Seq<char>|
            reencode::audio_chains(acc, segments, n) == #[trigger] (acc + own),
    decreases n,
{
    if n <= 0 {
        assert(acc =~= acc + Seq::<char>::empty());
    } else {
        lemma_chains_are_behind(acc, segments, n - 1);
        let before = reencode::audio_chains(acc, segments, n - 1);
        let own = choose|own: Seq<char>| before == #[trigger] (acc + own);
        let seg = segments[n - 1];
        if !seg.muted {
            let ms = reencode::millis(seg.start_us as int);
            super::laws::lemma_sound_is_appended(before, seg.input_idx as int, ms, n - 1);
            let more = super::laws::delayed_sound(seg.input_idx as int, ms, n - 1);
            seqs::lemma_append(acc, own, more);
            assert(reencode::audio_chains(acc, segments, n) == acc + (own + more));
        }
    }
}

proof fn lemma_labels_are_behind(acc: Seq<char>, segments: Seq<RenderSegmentView>, n: int)
    ensures
        exists|own: Seq<char>|
            reencode::audio_labels(acc, segments, n) == #[trigger] (acc + own),
    decreases n,
{
    if n <= 0 {
        assert(acc =~= acc + Seq::<char>::empty());
    } else {
        lemma_labels_are_behind(acc, segments, n - 1);
        let before = reencode::audio_labels(acc, segments, n - 1);
        let own = choose|own: Seq<char>| before == #[trigger] (acc + own);
        if !segments[n - 1].muted {
            let more = "[oa"@ + text::dec((n - 1) as nat) + "]"@;
            seqs::lemma_append_3(before, "[oa"@, text::dec((n - 1) as nat), "]"@);
            seqs::lemma_append(acc, own, more);
            assert(reencode::audio_labels(acc, segments, n) == acc + (own + more));
        }
    }
}

/// Every segment that is not muted is shown by the graph of its plan: taken from
/// its input, with its look, from when it starts until it ends, over the last one
/// before it.
pub proof fn lemma_graph_shows_every_segment(
    plan: RenderPlanView,
    w: u32,
    h: u32,
    fps: Seq<char>,
    lone_delay_ms: i64,
    k: int,
)
    requires
        0 <= k < plan.video_segments.len(),
        !plan.video_segments[k].muted,
    ensures
        is_shown(
            reencode::multitrack_graph(plan, w, h, fps, lone_delay_ms),
            plan.video_segments,
            k,
        ),
{
    let n = plan.video_segments.len() as int;
    let laid = reencode::overlays(
        reencode::canvas(plan, w, h, fps),
        plan.video_segments,
        n,
        w,
        h,
        fps,
    );
    let label = reencode::canvas_label(plan.video_segments, n);
    lemma_overlays_show(reencode::canvas(plan, w, h, fps), plan.video_segments, n, w, h, fps, k);
    lemma_shown_stays(laid, plan.video_segments, k, "["@);
    lemma_shown_stays(laid + "["@, plan.video_segments, k, label);
    let acc = laid + "["@ + label + "]null[outv];"@;
    lemma_shown_stays(laid + "["@ + label, plan.video_segments, k, "]null[outv];"@);
    lemma_sound_is_behind(acc, plan, lone_delay_ms);
    let own = choose|own: Seq<char>|
        reencode::audio_graph(acc, plan, lone_delay_ms) == #[trigger] (acc + own);
    lemma_shown_stays(acc, plan.video_segments, k, own);
}

/// `a` and `b` have the same segments but for muted ones.
pub open spec fn differ_in_muted_only(
    a: Seq<RenderSegmentView>,
    b: Seq<RenderSegmentView>,
) -> bool {
    &&& a.len() == b.len()
    &&& forall|i: int|
        0 <= i < a.len() ==> (#[trigger] a[i]).muted == b[i].muted && (!a[i].muted ==> a[i]
            == b[i])
}

proof fn lemma_muted_are_left_out(
    acc: Seq<char>,
    a: Seq<RenderSegmentView>,
    b: Seq<RenderSegmentView>,
    n: int,
    w: u32,
    h: u32,
    fps: Seq<char>,
)
    requires
        differ_in_muted_only(a, b),
        0 <= n <= a.len(),
    ensures
        reencode::overlays(acc, a, n, w, h, fps) == reencode::overlays(acc, b, n, w, h, fps),
        reencode::canvas_label(a, n) == reencode::canvas_label(b, n),
    decreases n,
{
    if n > 0 {
        lemma_muted_are_left_out(acc, a, b, n - 1, w, h, fps);
        assert(a[n - 1].muted == b[n - 1].muted);
    }
}

/// What is muted is not shown: whatever it is, the graph is the same.
pub proof fn lemma_muted_segments_are_not_shown(
    a: RenderPlanView,
    b: RenderPlanView,
    w: u32,
    h: u32,
    fps: Seq<char>,
    lone_delay_ms: i64,
)
    requires
        differ_in_muted_only(a.video_segments, b.video_segments),
        b == (RenderPlanView { video_segments: b.video_segments, ..a }),
    ensures
        reencode::multitrack_graph(a, w, h, fps, lone_delay_ms) == reencode::multitrack_graph(
            b,
            w,
            h,
            fps,
            lone_delay_ms,
        ),
{
    lemma_muted_are_left_out(
        reencode::canvas(a, w, h, fps),
        a.video_segments,
        b.video_segments,
        a.video_segments.len() as int,
        w,
        h,
        fps,
    );
    let n = a.video_segments.len() as int;
    let laid = reencode::overlays(
        reencode::canvas(a, w, h, fps),
        a.video_segments,
        n,
        w,
        h,
        fps,
    );
    let acc = laid + "["@ + reencode::canvas_label(a.video_segments, n) + "]null[outv];"@;
    assert(reencode::audio_graph(acc, a, lone_delay_ms) == reencode::audio_graph(
        acc,
        b,
        lone_delay_ms,
    ));
}

} // verus!
