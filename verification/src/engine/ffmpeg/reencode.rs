//! Encoding clips to one target: the filter graphs and the arguments.

use vstd::prelude::*;
use vstd::string::*;

use super::command;
use super::look;
use crate::domain::codec::{CodecProfile, CodecProfileView};
use crate::domain::export_spec::{ExportSpec, ExportSpecView, Quality};
use crate::engine::composite;
use crate::engine::composite::{RenderPlan, RenderPlanView, RenderSegment, RenderSegmentView};
use crate::services::merge_planner;
use crate::services::merge_planner::{MergeInput, MergeInputView, MergePlan, MergePlanView};
use crate::text;

verus! {

/// The quality factor of x264.
pub open spec fn crf_of(q: Quality) -> u32 {
    match q {
        Quality::Lossless => 18,
        Quality::High => 20,
        Quality::Balanced => 23,
    }
}

/// The speed preset of x264.
pub open spec fn preset_of(q: Quality) -> Seq<char> {
    match q {
        Quality::Lossless => "slow"@,
        Quality::High => "medium"@,
        Quality::Balanced => "fast"@,
    }
}

/// What a quality means for x264: the quality factor and the preset.
pub fn quality_to_x264(q: Quality) -> (r: (u32, &'static str))
    ensures
        r.0 == crf_of(q),
        r.1@ == preset_of(q),
{
    match q {
        Quality::Lossless => (18, "slow"),
        Quality::High => (20, "medium"),
        Quality::Balanced => (23, "fast"),
    }
}

/// A place in a file as `HH:MM:SS.mmm`; the rest of the millisecond is
/// dropped, and a negative place counts as zero.
pub open spec fn timestamp(us: i64) -> Seq<char> {
    let ms = (if us > 0 {
        us as int
    } else {
        0
    }) / 1_000;
    text::dec_padded((ms / 3_600_000) as nat, 2) + ":"@ + text::dec_padded(
        (ms / 60_000 % 60) as nat,
        2,
    ) + ":"@ + text::dec_padded((ms / 1_000 % 60) as nat, 2) + "."@ + text::dec_padded(
        (ms % 1_000) as nat,
        3,
    )
}

/// A place in a file as ffmpeg takes it.
pub fn format_us_to_ts(us: i64) -> (s: String)
    ensures
        s@ == timestamp(us),
{
    let whole: u64 = if us > 0 {
        us as u64
    } else {
        0
    };
    let ms: u64 = whole / 1_000;
    let mut s: String = String::new();
    text::push_dec_padded(&mut s, (ms / 3_600_000) as u128, 2);
    assert(s@ =~= text::dec_padded((ms / 3_600_000) as nat, 2));
    s.append(":");
    text::push_dec_padded(&mut s, (ms / 60_000 % 60) as u128, 2);
    s.append(":");
    text::push_dec_padded(&mut s, (ms / 1_000 % 60) as u128, 2);
    s.append(".");
    text::push_dec_padded(&mut s, (ms % 1_000) as u128, 3);
    s
}

/// A frame rate with three decimals; a rate that is not known counts as thirty
/// frames a second.
pub open spec fn fps_of(frame_rate_mhz: u32) -> Seq<char> {
    let mhz: int = if frame_rate_mhz > 0 {
        frame_rate_mhz as int
    } else {
        30_000
    };
    text::dec((mhz / 1_000) as nat) + "."@ + text::dec_padded((mhz % 1_000) as nat, 3)
}

/// A frame rate as ffmpeg takes it.
pub fn fps_text(frame_rate_mhz: u32) -> (s: String)
    ensures
        s@ == fps_of(frame_rate_mhz),
{
    let mhz: u32 = if frame_rate_mhz > 0 {
        frame_rate_mhz
    } else {
        30_000
    };
    let mut s: String = String::new();
    text::push_dec(&mut s, (mhz / 1_000) as u128);
    assert(s@ =~= text::dec((mhz / 1_000) as nat));
    s.append(".");
    text::push_dec_padded(&mut s, (mhz % 1_000) as u128, 3);
    s
}

/// A size of at least two pixels.
pub open spec fn at_least_two(x: u32) -> u32 {
    if x > 2 {
        x
    } else {
        2
    }
}

fn two_or_more(x: u32) -> (r: u32)
    ensures
        r == at_least_two(x),
{
    if x > 2 {
        x
    } else {
        2
    }
}

/// `us` in seconds with six decimals.
pub open spec fn secs6(us: int) -> Seq<char> {
    if us < 0 {
        seq!['-'] + text::dec(((-us) / 1_000_000) as nat) + "."@ + text::dec_padded(
            ((-us) % 1_000_000) as nat,
            6,
        )
    } else {
        text::dec((us / 1_000_000) as nat) + "."@ + text::dec_padded(
            (us % 1_000_000) as nat,
            6,
        )
    }
}

/// Append `us` in seconds with six decimals.
fn push_secs6(out: &mut String, us: i64)
    ensures
        final(out)@ == old(out)@ + secs6(us as int),
{
    let ghost before = out@;
    let magnitude: u128 = if us < 0 {
        (-(us as i128)) as u128
    } else {
        us as u128
    };
    if us < 0 {
        out.push('-');
    }
    text::push_dec(out, magnitude / 1_000_000);
    out.append(".");
    text::push_dec_padded(out, magnitude % 1_000_000, 6);
    proof {
        let whole = text::dec((magnitude / 1_000_000) as nat);
        let rest = text::dec_padded((magnitude % 1_000_000) as nat, 6);
        if us < 0 {
            assert(before.push('-') + whole + "."@ + rest =~= before + (seq!['-'] + whole + "."@
                + rest));
        } else {
            assert(before + whole + "."@ + rest =~= before + (whole + "."@ + rest));
        }
    }
}

/// The digits of a fraction without the zeros at its end.
pub open spec fn without_end_zeros(s: Seq<char>) -> Seq<char>
    decreases s.len(),
{
    if s.len() > 0 && s.last() == '0' {
        without_end_zeros(s.drop_last())
    } else {
        s
    }
}

/// `us` in seconds, with as few decimals as say it exactly.
pub open spec fn secs_short(us: int) -> Seq<char> {
    let magnitude = if us < 0 {
        -us
    } else {
        us
    };
    let sign = if us < 0 {
        seq!['-']
    } else {
        Seq::empty()
    };
    let fraction = without_end_zeros(text::dec_padded((magnitude % 1_000_000) as nat, 6));
    let whole = text::dec((magnitude / 1_000_000) as nat);
    if magnitude % 1_000_000 == 0 {
        sign + whole
    } else {
        sign + whole + "."@ + fraction
    }
}

/// Append `us` in seconds, with as few decimals as say it exactly.
fn push_secs_short(out: &mut String, us: i64)
    ensures
        final(out)@ == old(out)@ + secs_short(us as int),
{
    let ghost before = out@;
    let magnitude: u128 = if us < 0 {
        (-(us as i128)) as u128
    } else {
        us as u128
    };
    let rest: u128 = magnitude % 1_000_000;
    if us < 0 {
        out.push('-');
    }
    let ghost sign: Seq<char> = if us < 0 {
        seq!['-']
    } else {
        Seq::empty()
    };
    assert(out@ =~= before + sign);
    text::push_dec(out, magnitude / 1_000_000);
    let ghost whole = text::dec((magnitude / 1_000_000) as nat);
    if rest != 0 {
        let mut digits: String = String::new();
        text::push_dec_padded(&mut digits, rest, 6);
        let ghost padded = text::dec_padded(rest as nat, 6);
        assert(digits@ =~= padded);
        let chars: Vec<char> = text::chars_of(digits.as_str());
        let mut n: usize = chars.len();
        assert(chars@.take(n as int) =~= padded);
        while n > 0 && chars[n - 1] == '0'
            invariant
                n <= chars.len(),
                without_end_zeros(chars@.take(n as int)) == without_end_zeros(padded),
            decreases n,
        {
            assert(chars@.take(n as int).drop_last() =~= chars@.take(n - 1));
            n = n - 1;
        }
        let kept: String = text::text_of(&chars, 0, n);
        assert(kept@ =~= chars@.take(n as int));
        out.append(".");
        out.append(kept.as_str());
        assert(out@ =~= before + (sign + whole + "."@ + without_end_zeros(padded)));
    } else {
        assert(out@ =~= before + (sign + whole));
    }
}

/// Milliseconds in `us`, the rest dropped.
pub open spec fn millis(us: int) -> int {
    if us < 0 {
        -((-us) / 1_000)
    } else {
        us / 1_000
    }
}

fn millis_of(us: i64) -> (ms: i64)
    ensures
        ms == millis(us as int),
{
    let wide: i128 = us as i128;
    if us < 0 {
        let m: i128 = (-wide) / 1_000;
        (-m) as i64
    } else {
        us / 1_000
    }
}

/// `acc` and the filters that bring a video to size and rate.
pub open spec fn sizing(acc: Seq<char>, w: u32, h: u32, fps: Seq<char>) -> Seq<char> {
    acc + "scale="@ + text::dec(w as nat) + ":"@ + text::dec(h as nat)
        + ":force_original_aspect_ratio=decrease,pad="@ + text::dec(w as nat) + ":"@ + text::dec(
        h as nat,
    ) + ":(ow-iw)/2:(oh-ih)/2,setsar=1,fps="@ + fps
}

/// `acc` and the start of a chain: the video of input `i`.
pub open spec fn video_of(acc: Seq<char>, i: int) -> Seq<char> {
    acc + "["@ + text::dec(i as nat) + ":v]"@
}

/// `acc` and the chain that brings the video of input `i` to size and rate.
pub open spec fn video_chain(acc: Seq<char>, i: int, w: u32, h: u32, fps: Seq<char>) -> Seq<char> {
    sizing(video_of(acc, i), w, h, fps)
}

fn push_sizing(out: &mut String, w: u32, h: u32, fps: &str)
    ensures
        final(out)@ == sizing(old(out)@, w, h, fps@),
{
    out.append("scale=");
    text::push_dec(out, w as u128);
    out.append(":");
    text::push_dec(out, h as u128);
    out.append(":force_original_aspect_ratio=decrease,pad=");
    text::push_dec(out, w as u128);
    out.append(":");
    text::push_dec(out, h as u128);
    out.append(":(ow-iw)/2:(oh-ih)/2,setsar=1,fps=");
    out.append(fps);
}

fn push_video_of(out: &mut String, i: usize)
    ensures
        final(out)@ == video_of(old(out)@, i as int),
{
    out.append("[");
    text::push_dec(out, i as u128);
    out.append(":v]");
}

fn push_video_chain(out: &mut String, i: usize, w: u32, h: u32, fps: &str)
    ensures
        final(out)@ == video_chain(old(out)@, i as int, w, h, fps@),
{
    push_video_of(out, i);
    push_sizing(out, w, h, fps);
}

/// `acc` and the chains that normalise the video and the audio of input `i`.
pub open spec fn input_chains(
    acc: Seq<char>,
    i: int,
    w: u32,
    h: u32,
    fps: Seq<char>,
) -> Seq<char> {
    video_chain(acc, i, w, h, fps) + ",format=yuv420p[v"@ + text::dec(i as nat) + "];["@
        + text::dec(i as nat) + ":a]aformat=sample_rates=48000:channel_layouts=stereo[a"@
        + text::dec(i as nat) + "];"@
}

/// The chains of the first `n` inputs.
pub open spec fn all_chains(n: int, w: u32, h: u32, fps: Seq<char>) -> Seq<char>
    decreases n,
{
    if n <= 0 {
        Seq::empty()
    } else {
        input_chains(all_chains(n - 1, w, h, fps), n - 1, w, h, fps)
    }
}

/// `acc` and the labels of the first `n` inputs.
pub open spec fn chain_labels(acc: Seq<char>, n: int) -> Seq<char>
    decreases n,
{
    if n <= 0 {
        acc
    } else {
        chain_labels(acc, n - 1) + "[v"@ + text::dec((n - 1) as nat) + "][a"@ + text::dec(
            (n - 1) as nat,
        ) + "]"@
    }
}

/// The graph that normalises `n` inputs and joins them.
pub open spec fn concat_graph(n: int, w: u32, h: u32, fps: Seq<char>) -> Seq<char> {
    chain_labels(all_chains(n, w, h, fps), n) + "concat=n="@ + text::dec(n as nat)
        + ":v=1:a=1[outv][outa]"@
}

/// The graph that normalises `n` inputs and joins them.
pub fn build_filter(n: usize, w: u32, h: u32, fps_str: &str) -> (s: String)
    ensures
        s@ == concat_graph(n as int, w, h, fps_str@),
{
    let mut s: String = String::new();
    let mut i: usize = 0;
    assert(s@ =~= Seq::empty());
    while i < n
        invariant
            i <= n,
            s@ == all_chains(i as int, w, h, fps_str@),
        decreases n - i,
    {
        push_video_chain(&mut s, i, w, h, fps_str);
        s.append(",format=yuv420p[v");
        text::push_dec(&mut s, i as u128);
        s.append("];[");
        text::push_dec(&mut s, i as u128);
        s.append(":a]aformat=sample_rates=48000:channel_layouts=stereo[a");
        text::push_dec(&mut s, i as u128);
        s.append("];");
        i = i + 1;
    }
    let ghost chains = s@;
    i = 0;
    while i < n
        invariant
            i <= n,
            s@ == chain_labels(chains, i as int),
        decreases n - i,
    {
        s.append("[v");
        text::push_dec(&mut s, i as u128);
        s.append("][a");
        text::push_dec(&mut s, i as u128);
        s.append("]");
        i = i + 1;
    }
    s.append("concat=n=");
    text::push_dec(&mut s, n as u128);
    s.append(":v=1:a=1[outv][outa]");
    s
}

/// `acc` and the arguments that open one input. The part of it to use comes
/// before its name, so that ffmpeg seeks in the file.
pub open spec fn input_args(acc: Seq<Seq<char>>, input: MergeInputView) -> Seq<Seq<char>> {
    let from = if input.trim_in_us > 0 {
        acc.push("-ss"@).push(timestamp(input.trim_in_us))
    } else {
        acc
    };
    let to = if input.trim_out_us > 0 {
        from.push("-to"@).push(timestamp(input.trim_out_us))
    } else {
        from
    };
    to.push("-i"@).push(input.path)
}

/// `acc` and the arguments that open the first `n` inputs.
pub open spec fn all_input_args(
    acc: Seq<Seq<char>>,
    inputs: Seq<MergeInputView>,
    n: int,
) -> Seq<Seq<char>>
    decreases n,
{
    if n <= 0 {
        acc
    } else {
        input_args(all_input_args(acc, inputs, n - 1), inputs[n - 1])
    }
}

fn push_inputs(args: &mut Vec<String>, inputs: &Vec<MergeInput>)
    ensures
        text::views(final(args)@) == all_input_args(
            text::views(old(args)@),
            merge_planner::input_views(inputs@),
            inputs@.len() as int,
        ),
{
    let ghost before = text::views(args@);
    let ghost all = merge_planner::input_views(inputs@);
    let mut i: usize = 0;
    while i < inputs.len()
        invariant
            i <= inputs.len(),
            all == merge_planner::input_views(inputs@),
            text::views(args@) == all_input_args(before, all, i as int),
        decreases inputs.len() - i,
    {
        let input: &MergeInput = &inputs[i];
        assert(all[i as int] == input@);
        if input.trim_in_us > 0 {
            command::arg(args, "-ss");
            command::arg_text(args, format_us_to_ts(input.trim_in_us));
        }
        if input.trim_out_us > 0 {
            command::arg(args, "-to");
            command::arg_text(args, format_us_to_ts(input.trim_out_us));
        }
        command::arg(args, "-i");
        command::arg(args, input.path.as_str());
        i = i + 1;
    }
}

/// `acc` and the arguments behind the inputs: the graph, the encoders and the
/// output.
pub open spec fn encode_args(
    acc: Seq<Seq<char>>,
    graph: Seq<char>,
    quality: Quality,
    output: Seq<char>,
) -> Seq<Seq<char>> {
    acc.push("-filter_complex"@).push(graph).push("-map"@).push("[outv]"@).push("-map"@).push(
        "[outa]"@,
    ).push("-c:v"@).push("libx264"@).push("-preset"@).push(preset_of(quality)).push(
        "-crf"@,
    ).push(text::dec(crf_of(quality) as nat)).push("-pix_fmt"@).push("yuv420p"@).push(
        "-c:a"@,
    ).push("aac"@).push("-b:a"@).push("192k"@).push("-progress"@).push("pipe:1"@).push(
        "-nostats"@,
    ).push(output)
}

fn push_encode(args: &mut Vec<String>, graph: String, quality: Quality, output: &str)
    ensures
        text::views(final(args)@) == encode_args(
            text::views(old(args)@),
            graph@,
            quality,
            output@,
        ),
{
    let (crf, preset): (u32, &'static str) = quality_to_x264(quality);
    let mut crf_text: String = String::new();
    text::push_dec(&mut crf_text, crf as u128);
    assert(crf_text@ =~= text::dec(crf as nat));
    command::arg(args, "-filter_complex");
    command::arg_text(args, graph);
    command::arg(args, "-map");
    command::arg(args, "[outv]");
    command::arg(args, "-map");
    command::arg(args, "[outa]");
    command::arg(args, "-c:v");
    command::arg(args, "libx264");
    command::arg(args, "-preset");
    command::arg(args, preset);
    command::arg(args, "-crf");
    command::arg_text(args, crf_text);
    command::arg(args, "-pix_fmt");
    command::arg(args, "yuv420p");
    command::arg(args, "-c:a");
    command::arg(args, "aac");
    command::arg(args, "-b:a");
    command::arg(args, "192k");
    command::arg(args, "-progress");
    command::arg(args, "pipe:1");
    command::arg(args, "-nostats");
    command::arg(args, output);
}

/// The arguments that encode the inputs of a plan one after the other.
pub open spec fn merge_args(plan: MergePlanView, target: CodecProfileView) -> Seq<Seq<char>> {
    encode_args(
        all_input_args(command::quiet(), plan.inputs, plan.inputs.len() as int),
        concat_graph(
            plan.inputs.len() as int,
            at_least_two(target.resolution.width),
            at_least_two(target.resolution.height),
            fps_of(target.frame_rate_mhz),
        ),
        plan.spec.quality,
        plan.spec.output_path,
    )
}

/// The arguments that encode the inputs of a plan to `target`, one after the
/// other.
pub fn build_args(plan: &MergePlan, target: &CodecProfile) -> (args: Vec<String>)
    ensures
        text::views(args@) == merge_args(plan@, target@),
{
    let fps: String = fps_text(target.frame_rate_mhz);
    let graph: String = build_filter(
        plan.inputs.len(),
        two_or_more(target.resolution.width),
        two_or_more(target.resolution.height),
        fps.as_str(),
    );
    let mut args: Vec<String> = command::quiet_args();
    push_inputs(&mut args, &plan.inputs);
    push_encode(&mut args, graph, plan.spec.quality, plan.spec.output_path.as_str());
    args
}

/// The label of the canvas after the first `n` video segments are laid on it.
pub open spec fn canvas_label(segments: Seq<RenderSegmentView>, n: int) -> Seq<char>
    decreases n,
{
    if n <= 0 {
        "base"@
    } else if segments[n - 1].muted {
        canvas_label(segments, n - 1)
    } else {
        "cv"@ + text::dec((n - 1) as nat)
    }
}

/// The time since a segment started, in microseconds.
pub open spec fn time_in(seg: RenderSegmentView) -> Seq<char> {
    "((t-("@ + secs6(seg.start_us as int) + "))*1000000)"@
}

/// `acc` and the chain of the `k`-th video segment: its source, with its look,
/// at its time.
#[verifier::opaque]
pub open spec fn seen_chain(
    acc: Seq<char>,
    seg: RenderSegmentView,
    k: int,
    w: u32,
    h: u32,
    fps: Seq<char>,
) -> Seq<char> {
    sizing(video_of(acc, seg.input_idx as int) + look::on_source(seg.transform), w, h, fps)
        + ",format=yuva420p"@ + look::on_picture(seg.transform, seg.transform_keys)
        + ",setpts=PTS+"@ + secs_short(seg.start_us as int) + "/TB[ov"@ + text::dec(k as nat)
        + "];"@
}

fn push_seen_chain(out: &mut String, seg: &RenderSegment, k: usize, w: u32, h: u32, fps: &str)
    ensures
        final(out)@ == seen_chain(old(out)@, seg@, k as int, w, h, fps@),
{
    reveal(seen_chain);
    push_video_of(out, seg.input_idx);
    out.append(look::on_source_text(&seg.transform).as_str());
    push_sizing(out, w, h, fps);
    out.append(",format=yuva420p");
    out.append(look::on_picture_text(&seg.transform, &seg.transform_keys).as_str());
    out.append(",setpts=PTS+");
    push_secs_short(out, seg.start_us);
    out.append("/TB[ov");
    text::push_dec(out, k as u128);
    out.append("];");
}

/// `acc` and the filter that lays the `k`-th video segment on the canvas under
/// `label`, where it belongs and while it is active.
#[verifier::opaque]
pub open spec fn laid_on(
    acc: Seq<char>,
    seg: RenderSegmentView,
    k: int,
    label: Seq<char>,
) -> Seq<char> {
    acc + "["@ + label + "][ov"@ + text::dec(k as nat) + "]overlay="@ + look::place(
        seg.transform,
        seg.transform_keys,
        time_in(seg),
    ) + ":enable='between(t,"@ + secs6(seg.start_us as int) + ","@ + secs6(seg.end_us as int)
        + ")'["@ + ("cv"@ + text::dec(k as nat)) + "];"@
}

fn push_laid_on(out: &mut String, seg: &RenderSegment, k: usize, label: &str, next: &str)
    requires
        next@ == "cv"@ + text::dec(k as nat),
    ensures
        final(out)@ == laid_on(old(out)@, seg@, k as int, label@),
{
    reveal(laid_on);
    let mut now: String = "((t-(".to_owned();
    push_secs6(&mut now, seg.start_us);
    now.append("))*1000000)");
    out.append("[");
    out.append(label);
    out.append("][ov");
    text::push_dec(out, k as u128);
    out.append("]overlay=");
    out.append(look::place_text(&seg.transform, &seg.transform_keys, now.as_str()).as_str());
    out.append(":enable='between(t,");
    push_secs6(out, seg.start_us);
    out.append(",");
    push_secs6(out, seg.end_us);
    out.append(")'[");
    out.append(next);
    out.append("];");
}

/// `acc` and the chains that lay the first `n` video segments on the canvas,
/// each over the ones before it, with its look, where it belongs, and while it
/// is active. Muted ones are left out.
pub open spec fn overlays(
    acc: Seq<char>,
    segments: Seq<RenderSegmentView>,
    n: int,
    w: u32,
    h: u32,
    fps: Seq<char>,
) -> Seq<char>
    decreases n,
{
    if n <= 0 {
        acc
    } else {
        let before = overlays(acc, segments, n - 1, w, h, fps);
        let seg = segments[n - 1];
        if seg.muted {
            before
        } else {
            laid_on(
                seen_chain(before, seg, n - 1, w, h, fps),
                seg,
                n - 1,
                canvas_label(segments, n - 1),
            )
        }
    }
}

/// How many of the first `n` segments are heard or seen.
pub open spec fn audible(segments: Seq<RenderSegmentView>, n: int) -> int
    decreases n,
{
    if n <= 0 {
        0
    } else if segments[n - 1].muted {
        audible(segments, n - 1)
    } else {
        audible(segments, n - 1) + 1
    }
}

/// The place of the last audible one among the first `n` segments.
pub open spec fn last_audible(segments: Seq<RenderSegmentView>, n: int) -> int
    decreases n,
{
    if n <= 0 {
        -1
    } else if segments[n - 1].muted {
        last_audible(segments, n - 1)
    } else {
        n - 1
    }
}

/// `acc` and the chain that brings the audio of an input to form and time.
pub open spec fn audio_chain(acc: Seq<char>, i: int, delay_ms: int) -> Seq<char> {
    acc + "["@ + text::dec(i as nat)
        + ":a]aformat=sample_rates=48000:channel_layouts=stereo,adelay="@ + text::dec_signed(
        delay_ms,
    ) + "|"@ + text::dec_signed(delay_ms)
}

fn push_audio_chain(out: &mut String, i: usize, delay_ms: i64)
    ensures
        final(out)@ == audio_chain(old(out)@, i as int, delay_ms as int),
{
    out.append("[");
    text::push_dec(out, i as u128);
    out.append(":a]aformat=sample_rates=48000:channel_layouts=stereo,adelay=");
    text::push_dec_signed(out, delay_ms);
    out.append("|");
    text::push_dec_signed(out, delay_ms);
}

/// `acc` and the chains of the audible ones among the first `n` segments.
pub open spec fn audio_chains(
    acc: Seq<char>,
    segments: Seq<RenderSegmentView>,
    n: int,
) -> Seq<char>
    decreases n,
{
    if n <= 0 {
        acc
    } else {
        let before = audio_chains(acc, segments, n - 1);
        let seg = segments[n - 1];
        if seg.muted {
            before
        } else {
            audio_chain(before, seg.input_idx as int, millis(seg.start_us as int)) + "[oa"@
                + text::dec((n - 1) as nat) + "];"@
        }
    }
}

/// `acc` and the labels of the audible ones among the first `n` segments.
pub open spec fn audio_labels(
    acc: Seq<char>,
    segments: Seq<RenderSegmentView>,
    n: int,
) -> Seq<char>
    decreases n,
{
    if n <= 0 {
        acc
    } else {
        let before = audio_labels(acc, segments, n - 1);
        if segments[n - 1].muted {
            before
        } else {
            before + "[oa"@ + text::dec((n - 1) as nat) + "]"@
        }
    }
}

/// `acc` and the audio part of the graph: silence without an audible segment,
/// a single one as it is, several mixed.
pub open spec fn audio_graph(
    acc: Seq<char>,
    plan: RenderPlanView,
    lone_delay_ms: i64,
) -> Seq<char> {
    let segments = plan.audio_segments;
    let n = segments.len() as int;
    let count = audible(segments, n);
    if count == 0 {
        acc + "anullsrc=r=48000:cl=stereo:d="@ + secs6(plan.total_duration_us as int)
            + "[outa]"@
    } else if count == 1 {
        audio_chain(
            acc,
            segments[last_audible(segments, n)].input_idx as int,
            lone_delay_ms as int,
        ) + "[outa]"@
    } else {
        audio_labels(audio_chains(acc, segments, n), segments, n) + "amix=inputs="@ + text::dec(
            count as nat,
        ) + ":duration=longest:dropout_transition=0[outa]"@
    }
}

/// The start of the graph: a black canvas.
pub open spec fn canvas(plan: RenderPlanView, w: u32, h: u32, fps: Seq<char>) -> Seq<char> {
    "color=c=black:s="@ + text::dec(w as nat) + "x"@ + text::dec(h as nat) + ":d="@ + secs6(
        plan.total_duration_us as int,
    ) + ":r="@ + fps + ",format=yuv420p[base];"@
}

/// The graph that renders a plan: a black canvas, the video segments laid on
/// it with their looks, and the audio segments mixed. `lone_delay_ms` is the delay of the audio
/// segment where only one is audible.
pub open spec fn multitrack_graph(
    plan: RenderPlanView,
    w: u32,
    h: u32,
    fps: Seq<char>,
    lone_delay_ms: i64,
) -> Seq<char> {
    let n = plan.video_segments.len() as int;
    audio_graph(
        overlays(canvas(plan, w, h, fps), plan.video_segments, n, w, h, fps) + "["@
            + canvas_label(plan.video_segments, n) + "]null[outv];"@,
        plan,
        lone_delay_ms,
    )
}

/// How many segments are audible, and which one is the last.
fn count_audible(segments: &Vec<RenderSegment>) -> (r: (usize, usize))
    ensures
        r.0 == audible(composite::segment_views(segments@), segments@.len() as int),
        r.0 > 0 ==> r.1 == last_audible(
            composite::segment_views(segments@),
            segments@.len() as int,
        ),
        r.0 > 0 ==> r.1 < segments@.len(),
{
    let ghost all = composite::segment_views(segments@);
    let mut count: usize = 0;
    let mut last: usize = 0;
    let mut i: usize = 0;
    while i < segments.len()
        invariant
            i <= segments.len(),
            all == composite::segment_views(segments@),
            count == audible(all, i as int),
            count <= i,
            count > 0 ==> last == last_audible(all, i as int),
            count > 0 ==> last < segments@.len(),
        decreases segments.len() - i,
    {
        assert(all[i as int] == segments@[i as int]@);
        if !segments[i].muted {
            count = count + 1;
            last = i;
        }
        i = i + 1;
    }
    (count, last)
}

/// Where the only audible audio segment of the plan starts, if there is only
/// one.
pub fn lone_audio_start_us(render: &RenderPlan) -> (r: Option<i64>)
    ensures
        match r {
            Some(us) => audible(
                render@.audio_segments,
                render@.audio_segments.len() as int,
            ) == 1 && us == render@.audio_segments[last_audible(
                render@.audio_segments,
                render@.audio_segments.len() as int,
            )].start_us,
            None => audible(
                render@.audio_segments,
                render@.audio_segments.len() as int,
            ) != 1,
        },
{
    let (count, last): (usize, usize) = count_audible(&render.audio_segments);
    if count == 1 {
        assert(render@.audio_segments[last as int] == render.audio_segments@[last as int]@);
        Some(render.audio_segments[last].start_us)
    } else {
        None
    }
}

fn push_overlays(out: &mut String, segments: &Vec<RenderSegment>, w: u32, h: u32, fps: &str) -> (
    label: String)
    ensures
        final(out)@ == overlays(
            old(out)@,
            composite::segment_views(segments@),
            segments@.len() as int,
            w,
            h,
            fps@,
        ),
        label@ == canvas_label(composite::segment_views(segments@), segments@.len() as int),
{
    let ghost all = composite::segment_views(segments@);
    let ghost acc = out@;
    let mut label: String = "base".to_owned();
    let mut i: usize = 0;
    while i < segments.len()
        invariant
            i <= segments.len(),
            all == composite::segment_views(segments@),
            out@ == overlays(acc, all, i as int, w, h, fps@),
            label@ == canvas_label(all, i as int),
        decreases segments.len() - i,
    {
        let seg: &RenderSegment = &segments[i];
        assert(all[i as int] == seg@);
        if !seg.muted {
            let mut next: String = "cv".to_owned();
            text::push_dec(&mut next, i as u128);
            push_seen_chain(out, seg, i, w, h, fps);
            push_laid_on(out, seg, i, label.as_str(), next.as_str());
            label = next;
        }
        i = i + 1;
    }
    label
}

fn push_audio(out: &mut String, render: &RenderPlan, lone_delay_ms: i64)
    ensures
        final(out)@ == audio_graph(old(out)@, render@, lone_delay_ms),
{
    let segments: &Vec<RenderSegment> = &render.audio_segments;
    let ghost all = composite::segment_views(segments@);
    let ghost acc = out@;
    let (count, last): (usize, usize) = count_audible(segments);
    if count == 0 {
        out.append("anullsrc=r=48000:cl=stereo:d=");
        push_secs6(out, render.total_duration_us);
        out.append("[outa]");
    } else if count == 1 {
        assert(all[last as int] == segments@[last as int]@);
        push_audio_chain(out, segments[last].input_idx, lone_delay_ms);
        out.append("[outa]");
    } else {
        let mut i: usize = 0;
        while i < segments.len()
            invariant
                i <= segments.len(),
                all == composite::segment_views(segments@),
                out@ == audio_chains(acc, all, i as int),
            decreases segments.len() - i,
        {
            let seg: &RenderSegment = &segments[i];
            assert(all[i as int] == seg@);
            if !seg.muted {
                push_audio_chain(out, seg.input_idx, millis_of(seg.start_us));
                out.append("[oa");
                text::push_dec(out, i as u128);
                out.append("];");
            }
            i = i + 1;
        }
        let ghost chains = out@;
        i = 0;
        while i < segments.len()
            invariant
                i <= segments.len(),
                all == composite::segment_views(segments@),
                out@ == audio_labels(chains, all, i as int),
            decreases segments.len() - i,
        {
            assert(all[i as int] == segments@[i as int]@);
            if !segments[i].muted {
                out.append("[oa");
                text::push_dec(out, i as u128);
                out.append("]");
            }
            i = i + 1;
        }
        out.append("amix=inputs=");
        text::push_dec(out, count as u128);
        out.append(":duration=longest:dropout_transition=0[outa]");
    }
}

/// The graph that renders a plan.
pub fn build_multitrack_filter(
    render: &RenderPlan,
    w: u32,
    h: u32,
    fps_str: &str,
    lone_delay_ms: i64,
) -> (s: String)
    ensures
        s@ == multitrack_graph(render@, w, h, fps_str@, lone_delay_ms),
{
    let mut s: String = "color=c=black:s=".to_owned();
    text::push_dec(&mut s, w as u128);
    s.append("x");
    text::push_dec(&mut s, h as u128);
    s.append(":d=");
    push_secs6(&mut s, render.total_duration_us);
    s.append(":r=");
    s.append(fps_str);
    s.append(",format=yuv420p[base];");
    let label: String = push_overlays(&mut s, &render.video_segments, w, h, fps_str);
    s.append("[");
    s.append(label.as_str());
    s.append("]null[outv];");
    push_audio(&mut s, render, lone_delay_ms);
    s
}

/// The arguments that render a plan.
pub open spec fn multitrack_args(
    render: RenderPlanView,
    spec: ExportSpecView,
    target: CodecProfileView,
    quality: Quality,
    lone_delay_ms: i64,
) -> Seq<Seq<char>> {
    encode_args(
        all_input_args(command::quiet(), render.inputs, render.inputs.len() as int),
        multitrack_graph(
            render,
            at_least_two(target.resolution.width),
            at_least_two(target.resolution.height),
            fps_of(target.frame_rate_mhz),
            lone_delay_ms,
        ),
        quality,
        spec.output_path,
    )
}

/// The arguments that render a plan to `target`.
pub fn build_multitrack_args(
    render: &RenderPlan,
    spec: &ExportSpec,
    target: &CodecProfile,
    quality: Quality,
    lone_delay_ms: i64,
) -> (args: Vec<String>)
    ensures
        text::views(args@) == multitrack_args(render@, spec@, target@, quality, lone_delay_ms),
{
    let fps: String = fps_text(target.frame_rate_mhz);
    let mut args: Vec<String> = command::quiet_args();
    push_inputs(&mut args, &render.inputs);
    let graph: String = build_multitrack_filter(
        render,
        two_or_more(target.resolution.width),
        two_or_more(target.resolution.height),
        fps.as_str(),
        lone_delay_ms,
    );
    push_encode(&mut args, graph, quality, spec.output_path.as_str());
    args
}

} // verus!
