//! What the numbers, names and lists handed to ffmpeg promise.

use vstd::prelude::*;

use super::command;
use super::export;
use super::look;
use super::probe;
use super::probe::ProbeStreamView;
use super::progress;
use super::reencode;
use super::stream_copy;
use crate::domain::clip::ClipView;
use crate::domain::codec::CodecProfileView;
use crate::domain::export_spec::{ExportSpecView, Quality};
use crate::domain::project;
use crate::domain::project::{TrackKind, TrackView};
use crate::domain::transform::{
    Crop, Keyframe, PositionSample, Sample, TransformKeysView, TransformSamples,
};
use crate::engine::composite::RenderPlanView;
use crate::scalar::{Scalar, ONE_BITS};
use crate::seqs;
use crate::services::merge_planner::{MergeInputView, MergePlanView};
use crate::text;
use crate::time::Duration;

verus! {

proof fn lemma_value_with_zeros(n: nat, s: Seq<char>)
    ensures
        text::value_of(text::zeros(n) + s) == text::value_of(s),
        text::all_digits(s) ==> text::all_digits(text::zeros(n) + s),
    decreases n + s.len(),
{
    let all = text::zeros(n) + s;
    if s.len() > 0 {
        lemma_value_with_zeros(n, s.drop_last());
        assert(all.drop_last() =~= text::zeros(n) + s.drop_last());
        assert(all.last() == s.last());
    } else if n > 0 {
        lemma_value_with_zeros((n - 1) as nat, s);
        assert(all.drop_last() =~= text::zeros((n - 1) as nat) + s);
        assert(all.last() == '0');
    } else {
        assert(all =~= s);
    }
}

/// A number that is filled up with zeros is still that number, and has as many
/// digits as were asked for at least.
pub proof fn lemma_padded_number_is_the_number(n: nat, width: nat)
    ensures
        text::all_digits(text::dec_padded(n, width)),
        text::value_of(text::dec_padded(n, width)) == n,
        text::dec_padded(n, width).len() >= width,
        text::dec(n).len() <= width ==> text::dec_padded(n, width).len() == width,
{
    text::lemma_dec_round_trip(n);
    if text::dec(n).len() < width {
        lemma_value_with_zeros((width - text::dec(n).len()) as nat, text::dec(n));
    }
}

/// A place in a file reads as hours, minutes, seconds and milliseconds; what is
/// left of the millisecond does not show, and no place lies before the start.
pub proof fn lemma_timestamp_reads_as_clock(
    h: nat,
    m: nat,
    s: nat,
    ms: nat,
    rest: nat,
    us: i64,
)
    requires
        m < 60,
        s < 60,
        ms < 1_000,
        rest < 1_000,
        us == (((h * 60 + m) * 60 + s) * 1_000 + ms) * 1_000 + rest,
    ensures
        reencode::timestamp(us) == text::dec_padded(h, 2) + ":"@ + text::dec_padded(m, 2) + ":"@
            + text::dec_padded(s, 2) + "."@ + text::dec_padded(ms, 3),
        forall|before: i64|
            before < 0 ==> #[trigger] reencode::timestamp(before) == reencode::timestamp(0),
{
    let total = us as int / 1_000;
    assert(total == ((h * 60 + m) * 60 + s) * 1_000 + ms);
    assert(total / 3_600_000 == h);
    assert(total / 60_000 == h * 60 + m);
    assert(total / 60_000 % 60 == m);
    assert(total / 1_000 == (h * 60 + m) * 60 + s);
    assert(total / 1_000 % 60 == s);
    assert(total % 1_000 == ms);
}

/// A time reads as whole seconds and six decimals.
pub proof fn lemma_seconds_read_with_six_decimals(whole: nat, millionths: nat)
    requires
        millionths < 1_000_000,
    ensures
        reencode::secs6((whole * 1_000_000 + millionths) as int) == text::dec(whole) + "."@
            + text::dec_padded(millionths, 6),
        whole + millionths > 0 ==> reencode::secs6(-(whole * 1_000_000 + millionths)) == seq!['-']
            + text::dec(whole) + "."@ + text::dec_padded(millionths, 6),
{
    let us = (whole * 1_000_000 + millionths) as int;
    assert(us / 1_000_000 == whole);
    assert(us % 1_000_000 == millionths);
}

proof fn lemma_end_zeros(s: Seq<char>)
    ensures
        reencode::without_end_zeros(s).is_prefix_of(s),
        reencode::without_end_zeros(s).len() > 0 ==> reencode::without_end_zeros(s).last() != '0',
        forall|i: int|
            reencode::without_end_zeros(s).len() <= i < s.len() ==> #[trigger] s[i] == '0',
    decreases s.len(),
{
    if s.len() > 0 && s.last() == '0' {
        lemma_end_zeros(s.drop_last());
        let kept = reencode::without_end_zeros(s.drop_last());
        assert(s.take(kept.len() as int) =~= s.drop_last().take(kept.len() as int));
        assert forall|i: int| kept.len() <= i < s.len() implies #[trigger] s[i] == '0' by {
            if i < s.len() - 1 {
                assert(s.drop_last()[i] == '0');
            }
        }
    } else {
        assert(s.take(s.len() as int) =~= s);
    }
}

/// A time in as few decimals as say it is the time with six decimals without the
/// zeros at its end.
pub proof fn lemma_short_seconds_drop_zeros_only(whole: nat, millionths: nat)
    requires
        millionths < 1_000_000,
    ensures
        millionths == 0 ==> reencode::secs_short((whole * 1_000_000) as int) == text::dec(whole),
        millionths > 0 ==> exists|f: Seq<char>|
            reencode::secs_short((whole * 1_000_000 + millionths) as int) == #[trigger] (text::dec(
                whole,
            ) + "."@ + f) && f.is_prefix_of(text::dec_padded(millionths, 6)) && (f.len() > 0
                ==> f.last() != '0') && forall|i: int|
                f.len() <= i < text::dec_padded(millionths, 6).len() ==> #[trigger] text::dec_padded(
                    millionths,
                    6,
                )[i] == '0',
{
    let us = (whole * 1_000_000 + millionths) as int;
    assert(us / 1_000_000 == whole);
    assert(us % 1_000_000 == millionths);
    let padded = text::dec_padded(millionths, 6);
    lemma_end_zeros(padded);
    let f = reencode::without_end_zeros(padded);
    assert(Seq::<char>::empty() + text::dec(whole) =~= text::dec(whole));
    if millionths > 0 {
        assert(reencode::secs_short(us) == text::dec(whole) + "."@ + f);
    }
}

/// Whole milliseconds of a time, the rest dropped, also before the start.
pub proof fn lemma_millis_are_whole(us: int)
    ensures
        super::laws::is_millis_of(reencode::millis(us), us),
        reencode::millis(-us) == -reencode::millis(us),
{
}

/// A frame rate reads as frames a second with three decimals, and one that is not
/// known as thirty.
pub proof fn lemma_frame_rate_reads_with_three_decimals(whole: nat, thousandths: nat, mhz: u32)
    requires
        thousandths < 1_000,
        mhz == whole * 1_000 + thousandths,
    ensures
        mhz > 0 ==> reencode::fps_of(mhz) == text::dec(whole) + "."@ + text::dec_padded(
            thousandths,
            3,
        ),
        reencode::fps_of(0) == reencode::fps_of(30_000),
{
    assert(mhz as int / 1_000 == whole);
    assert(mhz as int % 1_000 == thousandths);
}

/// Sizes of two pixels and more are kept, and none is smaller.
pub proof fn lemma_sizes_are_kept(x: u32)
    ensures
        reencode::at_least_two(x) >= 2,
        x >= 2 ==> reencode::at_least_two(x) == x,
{
}

/// The better the quality, the less is lost and the longer it may take.
pub proof fn lemma_better_quality_loses_less()
    ensures
        reencode::crf_of(Quality::Lossless) < reencode::crf_of(Quality::High),
        reencode::crf_of(Quality::High) < reencode::crf_of(Quality::Balanced),
        reencode::preset_of(Quality::Lossless) != reencode::preset_of(Quality::High),
        reencode::preset_of(Quality::High) != reencode::preset_of(Quality::Balanced),
{
    reveal_strlit("slow");
    reveal_strlit("medium");
    reveal_strlit("fast");
    assert("slow"@.len() == 4 && "medium"@.len() == 6 && "fast"@.len() == 4);
}

/// What is opened for one input: its file comes last, and before it what part of
/// the file to take, if not all of it.
pub proof fn lemma_input_is_opened_in_its_window(acc: Seq<Seq<char>>, input: MergeInputView)
    ensures
        ({
            let all = reencode::input_args(acc, input);
            let n = all.len() as int;
            let starts: int = if input.trim_in_us > 0 {
                2
            } else {
                0
            };
            let ends: int = if input.trim_out_us > 0 {
                2
            } else {
                0
            };
            &&& n == acc.len() + 2 + starts + ends
            &&& all.take(acc.len() as int) == acc
            &&& all[n - 2] == "-i"@ && all[n - 1] == input.path
            &&& input.trim_in_us > 0 ==> all[acc.len() as int] == "-ss"@ && all[acc.len() as int
                + 1] == reencode::timestamp(input.trim_in_us)
            &&& input.trim_out_us > 0 ==> all[n - 4] == "-to"@ && all[n - 3]
                == reencode::timestamp(input.trim_out_us)
        }),
{
    assert(reencode::input_args(acc, input).take(acc.len() as int) =~= acc);
}

proof fn lemma_same_inputs(
    acc: Seq<Seq<char>>,
    a: Seq<MergeInputView>,
    b: Seq<MergeInputView>,
    n: int,
)
    requires
        0 <= n <= a.len(),
        n <= b.len(),
        forall|i: int| 0 <= i < n ==> #[trigger] a[i] == b[i],
    ensures
        reencode::all_input_args(acc, a, n) == reencode::all_input_args(acc, b, n),
    decreases n,
{
    if n > 0 {
        lemma_same_inputs(acc, a, b, n - 1);
        assert(a[n - 1] == b[n - 1]);
    }
}

/// Inputs are opened one after the other, in their order: those of `b` behind
/// those of `a`, and none is left out.
pub proof fn lemma_inputs_are_opened_in_order(
    acc: Seq<Seq<char>>,
    a: Seq<MergeInputView>,
    b: Seq<MergeInputView>,
    n: int,
    x: MergeInputView,
)
    requires
        0 <= n <= b.len(),
    ensures
        reencode::all_input_args(acc, a + b, a.len() + n) == reencode::all_input_args(
            reencode::all_input_args(acc, a, a.len() as int),
            b,
            n,
        ),
        reencode::all_input_args(acc, seq![x], 1) == reencode::input_args(acc, x),
        reencode::all_input_args(acc, Seq::empty(), 0) == acc,
    decreases n,
{
    reveal_with_fuel(reencode::all_input_args, 2);
    if n > 0 {
        lemma_inputs_are_opened_in_order(acc, a, b, n - 1, x);
        assert((a + b)[a.len() + n - 1] == b[n - 1]);
    } else {
        lemma_same_inputs(acc, a, a + b, a.len() as int);
    }
}

/// The output is the last argument, the graph follows behind the inputs, both
/// outputs of the graph are taken, and the quality goes with what was asked for.
pub proof fn lemma_output_comes_last(
    acc: Seq<Seq<char>>,
    graph: Seq<char>,
    q: Quality,
    output: Seq<char>,
)
    ensures
        ({
            let all = reencode::encode_args(acc, graph, q, output);
            let n = acc.len() as int;
            &&& all.last() == output
            &&& all.take(n) == acc
            &&& all[n] == "-filter_complex"@ && all[n + 1] == graph
            &&& all[n + 2] == "-map"@ && all[n + 3] == "[outv]"@
            &&& all[n + 4] == "-map"@ && all[n + 5] == "[outa]"@
            &&& all[n + 8] == "-preset"@ && all[n + 9] == reencode::preset_of(q)
            &&& all[n + 10] == "-crf"@ && all[n + 11] == text::dec(reencode::crf_of(q) as nat)
        }),
{
    assert(reencode::encode_args(acc, graph, q, output).take(acc.len() as int) =~= acc);
}

/// A list of files to join, opened again: a quote in a name ends the quoted
/// text, stands for itself, and begins it again, so that no other character of
/// the name is lost or changed, and the names come in their order.
pub proof fn lemma_list_names_files_in_order(
    a: Seq<MergeInputView>,
    b: Seq<MergeInputView>,
    x: MergeInputView,
)
    ensures
        stream_copy::file_list(a + b) == stream_copy::file_list(a) + stream_copy::file_list(b),
        stream_copy::file_list(seq![x]) == "file '"@ + stream_copy::quoted(x.path) + "'\n"@,
        stream_copy::file_list(Seq::empty()) == Seq::<char>::empty(),
    decreases b.len(),
{
    assert(seq![x].drop_last() =~= Seq::empty());
    assert(seq![x].last() == x);
    reveal_with_fuel(stream_copy::file_list, 2);
    assert(Seq::<char>::empty() + "file '"@ =~= "file '"@);
    if b.len() == 0 {
        assert(a + b =~= a);
        assert(stream_copy::file_list(a) + Seq::<char>::empty() =~= stream_copy::file_list(a));
    } else {
        let front = b.drop_last();
        lemma_list_names_files_in_order(a, front, x);
        assert((a + b).drop_last() =~= a + front);
        assert((a + b).last() == b.last());
        seqs::lemma_append_3(
            stream_copy::file_list(a) + stream_copy::file_list(front),
            "file '"@,
            stream_copy::quoted(b.last().path),
            "'\n"@,
        );
        let end = "file '"@ + stream_copy::quoted(b.last().path) + "'\n"@;
        seqs::lemma_append(stream_copy::file_list(a), stream_copy::file_list(front), end);
        seqs::lemma_append_3(
            stream_copy::file_list(front),
            "file '"@,
            stream_copy::quoted(b.last().path),
            "'\n"@,
        );
    }
}

/// Quoting goes character by character: a quote becomes a closing quote, an
/// escaped one, and an opening one, and any other character stays.
pub proof fn lemma_quoting_goes_by_character(a: Seq<char>, b: Seq<char>, c: char)
    ensures
        stream_copy::quoted(a + b) == stream_copy::quoted(a) + stream_copy::quoted(b),
        c != '\'' ==> stream_copy::quoted(seq![c]) == seq![c],
        stream_copy::quoted(seq!['\'']) == seq!['\'', '\\', '\'', '\''],
    decreases b.len(),
{
    reveal_with_fuel(stream_copy::quoted, 2);
    assert(seq![c].drop_last() =~= Seq::empty());
    assert(seq!['\''].drop_last() =~= Seq::empty());
    assert(seq![c].last() == c);
    assert(Seq::<char>::empty().push(c) =~= seq![c]);
    assert(Seq::<char>::empty() + seq!['\'', '\\', '\'', '\''] =~= seq!['\'', '\\', '\'', '\'']);
    if b.len() == 0 {
        assert(a + b =~= a);
        assert(stream_copy::quoted(a) + Seq::<char>::empty() =~= stream_copy::quoted(a));
    } else {
        let front = b.drop_last();
        lemma_quoting_goes_by_character(a, front, c);
        assert((a + b).drop_last() =~= a + front);
        assert((a + b).last() == b.last());
        assert(stream_copy::quoted(a + b) =~= stream_copy::quoted(a) + stream_copy::quoted(b));
    }
}

/// Streams are joined from the list that was written, without encoding them, and
/// the output comes last.
pub proof fn lemma_copy_reads_the_list(list: Seq<char>, output: Seq<char>)
    ensures
        ({
            let all = stream_copy::copy_args(list, output);
            let n = command::quiet().len() as int;
            &&& all.take(n) == command::quiet()
            &&& all.last() == output
            &&& all[n] == "-f"@ && all[n + 1] == "concat"@
            &&& all[n + 4] == "-i"@ && all[n + 5] == list
            &&& all[n + 6] == "-c"@ && all[n + 7] == "copy"@
        }),
{
    assert(stream_copy::copy_args(list, output).take(command::quiet().len() as int)
        =~= command::quiet());
}

/// The file is what is described.
pub proof fn lemma_probe_reads_the_file(path: Seq<char>)
    ensures
        probe::describe_args(path).last() == path,
{
}

/// A file is described by its first video stream, whatever streams come before
/// it, and by its first audio stream, if there is one. Without a video stream it
/// is refused.
pub proof fn lemma_first_streams_describe_the_file(
    streams: Seq<ProbeStreamView>,
    rate: Option<u32>,
    duration: Duration,
    v: int,
    a: int,
)
    ensures
        (forall|i: int|
            0 <= i < streams.len() ==> (#[trigger] streams[i]).codec_type != "video"@)
            ==> probe::info_of(streams, rate, duration) is Err,
        0 <= v < streams.len() && streams[v].codec_type == "video"@ && (forall|i: int|
            0 <= i < v ==> (#[trigger] streams[i]).codec_type != "video"@) ==> (probe::info_of(
            streams,
            rate,
            duration,
        ) matches Ok(info) && info.profile.video_codec == streams[v].codec_name
            && info.profile.resolution.width == streams[v].width && info.profile.resolution.height
            == streams[v].height && info.profile.pixel_format == streams[v].pix_fmt
            && info.duration == duration && (rate matches Some(r) ==> info.profile.frame_rate_mhz
            == r) && (rate is None ==> info.profile.frame_rate_mhz == 0)),
        0 <= v < streams.len() && streams[v].codec_type == "video"@ && 0 <= a < streams.len()
            && streams[a].codec_type == "audio"@ && (forall|i: int|
            0 <= i < a ==> (#[trigger] streams[i]).codec_type != "audio"@) ==> (probe::info_of(
            streams,
            rate,
            duration,
        ) matches Ok(info) && info.profile.audio_codec == streams[a].codec_name),
{
    let p = probe::has_type("video"@);
    let q = probe::has_type("audio"@);
    seqs::lemma_first_where(streams, p);
    if forall|i: int| 0 <= i < streams.len() ==> (#[trigger] streams[i]).codec_type != "video"@ {
        seqs::lemma_first_where_none(streams, p);
    }
    if 0 <= v < streams.len() && streams[v].codec_type == "video"@ {
        assert(p(streams[v]));
        if forall|i: int| 0 <= i < v ==> (#[trigger] streams[i]).codec_type != "video"@ {
            seqs::lemma_first_where_found(streams, p, v);
        }
    }
    if 0 <= a < streams.len() && streams[a].codec_type == "audio"@ && forall|i: int|
        0 <= i < a ==> (#[trigger] streams[i]).codec_type != "audio"@ {
        assert(q(streams[a]));
        seqs::lemma_first_where_found(streams, q, a);
    }
}

/// A rate is split at its first slash, which is in neither half.
pub proof fn lemma_rate_is_split_at_its_slash(num: Seq<char>, den: Seq<char>)
    requires
        forall|i: int| 0 <= i < num.len() ==> #[trigger] num[i] != '/',
    ensures
        probe::fraction(num + seq!['/'] + den) == Some((num, den)),
        probe::fraction(num) is None,
{
    let s = num + seq!['/'] + den;
    let p = probe::is_slash();
    assert(p(s[num.len() as int]));
    seqs::lemma_first_where_found(s, p, num.len() as int);
    assert(s.take(num.len() as int) =~= num);
    assert(s.skip(num.len() as int + 1) =~= den);
    seqs::lemma_first_where_none(num, p);
}

/// The time that ffmpeg reports is read from its line, and no other line gives
/// one.
pub proof fn lemma_reported_time_is_read(us: u64, line: Seq<char>)
    ensures
        progress::time_on("out_time_us="@ + text::dec(us as nat)) == Some(us),
        !("out_time_us="@.is_prefix_of(line)) ==> progress::time_on(line) is None,
{
    let key = "out_time_us="@;
    let d = text::dec(us as nat);
    let all = key + d;
    text::lemma_dec_round_trip(us as nat);
    assert(all.take(key.len() as int) =~= key);
    assert(all.skip(key.len() as int) =~= d);
    lemma_digits_are_not_trimmed(d);
    assert(d[0] != '+');
}

proof fn lemma_digits_are_not_trimmed(d: Seq<char>)
    requires
        text::all_digits(d),
        d.len() > 0,
    ensures
        text::trimmed(d) == d,
{
    assert('0' <= d[0] <= '9');
    assert('0' <= d[d.len() - 1] <= '9');
    assert(d.last() == d[d.len() - 1]);
}

/// A look crops what it says from each side.
pub proof fn lemma_crop_cuts_each_side(c: Crop)
    ensures
        look::cropping(Some(c)) == "crop=iw-"@ + text::dec(c.left as nat) + "-"@ + text::dec(
            c.right as nat,
        ) + ":ih-"@ + text::dec(c.top as nat) + "-"@ + text::dec(c.bottom as nat) + ":"@
            + text::dec(c.left as nat) + ":"@ + text::dec(c.top as nat) + ","@,
        look::cropping(None) == Seq::<char>::empty(),
{
}

/// A look flips just what it says.
pub proof fn lemma_look_flips_what_it_says(t: TransformSamples)
    ensures
        t.flip_h && !t.flip_v ==> look::flipping(t) == ",hflip"@,
        !t.flip_h && t.flip_v ==> look::flipping(t) == ",vflip"@,
        t.flip_h && t.flip_v ==> look::flipping(t) == ",hflip"@ + ",vflip"@,
        !t.flip_h && !t.flip_v ==> look::flipping(t) == Seq::<char>::empty(),
{
    assert(",hflip"@ + Seq::<char>::empty() =~= ",hflip"@);
    assert(Seq::<char>::empty() + ",vflip"@ =~= ",vflip"@);
    assert(Seq::<char>::empty() + Seq::<char>::empty() =~= Seq::<char>::empty());
}

/// The formula of a channel names the time and the value of each of its
/// keyframes.
pub proof fn lemma_formula_names_every_keyframe(
    keys: Seq<Keyframe>,
    s: Sample,
    now: Seq<char>,
    i: int,
)
    requires
        0 <= i < keys.len(),
    ensures
        seqs::has_piece(look::channel(keys, s, now), look::number(keys[i].value)),
        seqs::has_piece(
            look::channel(keys, s, now),
            "if(lt("@ + now + ",("@ + text::dec_signed(keys[i].time_us as int) + ")),"@,
        ),
{
    let t0 = text::dec_signed(keys[0].time_us as int);
    let first = "if(lt("@ + now + ",("@ + t0 + ")),"@;
    let v0 = look::number(keys[0].value);
    let rest = look::from_key(keys, 0, now);
    let all = look::channel(keys, s, now);
    lemma_branch_names(keys, 0, now, i);
    if i == 0 {
        seqs::lemma_piece_at_end(Seq::<char>::empty(), first);
        assert(Seq::<char>::empty() + first =~= first);
        seqs::lemma_piece_stays(first, first, v0);
        seqs::lemma_piece_stays(first + v0, first, ","@);
        seqs::lemma_piece_stays(first + v0 + ","@, first, rest);
        seqs::lemma_piece_stays(first + v0 + ","@ + rest, first, ")"@);
        seqs::lemma_piece_at_end(first, v0);
        seqs::lemma_piece_stays(first + v0, v0, ","@);
        seqs::lemma_piece_stays(first + v0 + ","@, v0, rest);
        seqs::lemma_piece_stays(first + v0 + ","@ + rest, v0, ")"@);
    } else {
        let step = "if(lt("@ + now + ",("@ + text::dec_signed(keys[i].time_us as int) + ")),"@;
        let vi = look::number(keys[i].value);
        let head = first + v0 + ","@;
        seqs::lemma_piece_at_end(head, rest);
        seqs::lemma_piece_of_piece(head + rest, rest, step);
        seqs::lemma_piece_of_piece(head + rest, rest, vi);
        seqs::lemma_piece_stays(head + rest, step, ")"@);
        seqs::lemma_piece_stays(head + rest, vi, ")"@);
    }
    assert(all == first + v0 + ","@ + rest + ")"@);
}

proof fn lemma_branch_names(keys: Seq<Keyframe>, from: int, now: Seq<char>, i: int)
    requires
        0 <= from <= i < keys.len(),
    ensures
        i > from ==> seqs::has_piece(
            look::from_key(keys, from, now),
            look::number(keys[i].value),
        ) && seqs::has_piece(
            look::from_key(keys, from, now),
            "if(lt("@ + now + ",("@ + text::dec_signed(keys[i].time_us as int) + ")),"@,
        ),
        i == from ==> seqs::has_piece(
            look::from_key(keys, from, now),
            look::number(keys[i].value),
        ),
    decreases keys.len() - from,
{
    let own = look::from_key(keys, from, now);
    if from + 1 >= keys.len() {
        assert(own =~= Seq::<char>::empty() + own);
        seqs::lemma_piece_at_end(Seq::<char>::empty(), own);
    } else {
        let first = "if(lt("@ + now + ",("@ + text::dec_signed(keys[from + 1].time_us as int)
            + ")),"@;
        let elapsed = now + "-("@ + text::dec_signed(keys[from].time_us as int) + ")"@;
        let way = look::on_the_way(keys[from], keys[from + 1], elapsed);
        let rest = look::from_key(keys, from + 1, now);
        let head = first + way + ","@;
        assert(own == head + rest + ")"@);
        seqs::lemma_piece_at_end(head, rest);
        if i > from {
            lemma_branch_names(keys, from + 1, now, i);
            let vi = look::number(keys[i].value);
            seqs::lemma_piece_of_piece(head + rest, rest, vi);
            seqs::lemma_piece_stays(head + rest, vi, ")"@);
            let step = "if(lt("@ + now + ",("@ + text::dec_signed(keys[i].time_us as int)
                + ")),"@;
            if i > from + 1 {
                seqs::lemma_piece_of_piece(head + rest, rest, step);
                seqs::lemma_piece_stays(head + rest, step, ")"@);
            } else {
                seqs::lemma_piece_at_end(Seq::<char>::empty(), first);
                assert(Seq::<char>::empty() + first =~= first);
                seqs::lemma_piece_stays(first, first, way);
                seqs::lemma_piece_stays(first + way, first, ","@);
                seqs::lemma_piece_stays(head, first, rest);
                seqs::lemma_piece_stays(head + rest, first, ")"@);
            }
        } else {
            lemma_way_sets_out(keys[from], keys[from + 1], elapsed);
            let v = look::number(keys[from].value);
            seqs::lemma_piece_at_end(first, way);
            seqs::lemma_piece_of_piece(first + way, way, v);
            seqs::lemma_piece_stays(first + way, v, ","@);
            seqs::lemma_piece_stays(head, v, rest);
            seqs::lemma_piece_stays(head + rest, v, ")"@);
        }
    }
}

/// On the way from one keyframe to the next a channel sets out from the value of
/// the first.
proof fn lemma_way_sets_out(a: Keyframe, b: Keyframe, elapsed: Seq<char>)
    ensures
        seqs::has_piece(look::on_the_way(a, b, elapsed), look::number(a.value)),
{
    let v = look::number(a.value);
    let way = look::on_the_way(a, b, elapsed);
    seqs::lemma_piece_at_end(Seq::<char>::empty(), v);
    assert(Seq::<char>::empty() + v =~= v);
    if way != v {
        let to = look::number(b.value);
        let ratio = choose|ratio: Seq<char>| way == #[trigger] look::way(a.value, b.value, ratio);
        let s1 = v + "+("@;
        let s2 = s1 + to;
        let s3 = s2 + "-"@;
        let s4 = s3 + v;
        let s5 = s4 + ")*"@;
        seqs::lemma_piece_stays(v, v, "+("@);
        seqs::lemma_piece_stays(s1, v, to);
        seqs::lemma_piece_stays(s2, v, "-"@);
        seqs::lemma_piece_stays(s3, v, v);
        seqs::lemma_piece_stays(s4, v, ")*"@);
        seqs::lemma_piece_stays(s5, v, ratio);
    }
}

/// The width of a picture goes by the scale and its own factor, and so does the
/// height; it turns by its rotation, and fades by its opacity.
pub proof fn lemma_each_channel_does_its_part(t: TransformSamples, k: TransformKeysView)
    ensures
        !look::keeps_size(t, k) ==> look::scaling(t, k) == ",scale=w='max(2,trunc(iw*("@
            + look::channel(k.scale, t.scale, "(t*1000000)"@) + ")*("@ + look::channel(
            k.scale_x,
            t.scale_x,
            "(t*1000000)"@,
        ) + ")/2)*2)':h='max(2,trunc(ih*("@ + look::channel(k.scale, t.scale, "(t*1000000)"@)
            + ")*("@ + look::channel(k.scale_y, t.scale_y, "(t*1000000)"@)
            + ")/2)*2)':eval=frame"@,
        look::keeps_size(t, k) ==> k.scale.len() == 0 && k.scale_x.len() == 0 && k.scale_y.len()
            == 0 && t.scale == Sample::Held(Scalar { bits: ONE_BITS }) && t.scale_x
            == Sample::Held(Scalar { bits: ONE_BITS }) && t.scale_y == Sample::Held(
            Scalar { bits: ONE_BITS },
        ),
        k.rotation_deg.len() > 0 ==> seqs::has_piece(
            look::turning(t, k),
            look::channel(k.rotation_deg, t.rotation_deg, "(t*1000000)"@),
        ),
        k.opacity.len() > 0 ==> seqs::has_piece(
            look::fading(t, k),
            look::channel(k.opacity, t.opacity, "(T*1000000)"@),
        ),
{
    let turn = look::channel(k.rotation_deg, t.rotation_deg, "(t*1000000)"@);
    let fade = look::channel(k.opacity, t.opacity, "(T*1000000)"@);
    seqs::lemma_piece_at_end(",rotate=a='("@, turn);
    seqs::lemma_piece_stays(
        ",rotate=a='("@ + turn,
        turn,
        ")*PI/180':ow='hypot(iw,ih)':oh=ow:c=black@0"@,
    );
    let lead = ",geq=lum='lum(X,Y)':cb='cb(X,Y)':cr='cr(X,Y)':a='alpha(X,Y)*("@;
    seqs::lemma_piece_at_end(lead, fade);
    seqs::lemma_piece_stays(lead + fade, fade, ")'"@);
}

/// A picture is placed by its own position, or moves by its formula.
pub proof fn lemma_position_is_its_own(
    t: TransformSamples,
    k: TransformKeysView,
    now: Seq<char>,
    x: i32,
    s: Sample,
)
    ensures
        look::offset(k.position_x, PositionSample::Static(x), now) == text::dec_signed(x as int),
        look::offset(k.position_x, PositionSample::Animated(s), now) == "round("@ + look::channel(
            k.position_x,
            s,
            now,
        ) + ")"@,
        seqs::has_piece(
            look::place(t, k, now),
            look::offset(k.position_x, t.position_x, now),
        ),
        seqs::has_piece(
            look::place(t, k, now),
            look::offset(k.position_y, t.position_y, now),
        ),
{
    let px = look::offset(k.position_x, t.position_x, now);
    let py = look::offset(k.position_y, t.position_y, now);
    if look::place(t, k, now) == px + ":"@ + py {
        seqs::lemma_piece_at_end(Seq::<char>::empty(), px);
        assert(Seq::<char>::empty() + px =~= px);
        seqs::lemma_piece_stays(px, px, ":"@);
        seqs::lemma_piece_stays(px + ":"@, px, py);
        seqs::lemma_piece_at_end(px + ":"@, py);
    } else {
        let head = "x='(W-w)/2+"@;
        seqs::lemma_piece_at_end(head, px);
        seqs::lemma_piece_stays(head + px, px, "':y='(H-h)/2+"@);
        let mid = head + px + "':y='(H-h)/2+"@;
        seqs::lemma_piece_stays(mid, px, py);
        seqs::lemma_piece_stays(mid + py, px, "'"@);
        seqs::lemma_piece_at_end(mid, py);
        seqs::lemma_piece_stays(mid + py, py, "'"@);
    }
}

/// A clip is untouched where the whole of its file plays as it is: not trimmed, not
/// animated, at its size, place and loudness.
pub proof fn lemma_untouched_clip_plays_its_file(c: ClipView)
    ensures
        export::is_untouched(c) ==> {
            &&& c.trim_in.nanos == 0 && c.info.duration.nanos <= c.trim_out.nanos
            &&& c.transform_keys.opacity.len() == 0 && c.transform_keys.scale.len() == 0
            &&& c.transform_keys.scale_x.len() == 0 && c.transform_keys.scale_y.len() == 0
            &&& c.transform_keys.position_x.len() == 0 && c.transform_keys.position_y.len() == 0
            &&& c.transform_keys.rotation_deg.len() == 0
            &&& c.scale.bits == ONE_BITS && c.volume.bits == ONE_BITS && !c.muted
            &&& !c.flip_h && !c.flip_v && c.position_x == 0 && c.position_y == 0
            &&& c.opacity.at_least_one() && c.scale_x.near_one() && c.scale_y.near_one()
            &&& c.rotation_deg.near_zero() && c.brightness.near_zero()
            &&& c.contrast.near_one() && c.saturation.near_one()
            &&& (c.crop matches Some(x) ==> x.left == 0 && x.right == 0 && x.top == 0 && x.bottom
                == 0)
            &&& c.color_grading.leaves_colours()
        },
{
}

/// Files are joined as they are only where a single track of pictures is used, and
/// is heard: its clips follow one another without a gap from the start, are all
/// untouched, and have the same profile. The files come in the order of time.
pub proof fn lemma_only_plain_projects_are_copied(tracks: Seq<TrackView>, v: int, i: int, j: int)
    requires
        export::can_copy(tracks),
        project::track_index(tracks, "V1"@) == Some(v),
        0 <= i <= j < export::in_time(tracks[v].clips).len(),
    ensures
        ({
            let row = export::in_time(tracks[v].clips);
            let files = export::files_in_time(tracks);
            &&& tracks[v].kind == TrackKind::Video && !tracks[v].muted
            &&& forall|t: int|
                0 <= t < tracks.len() && t != v ==> (#[trigger] tracks[t]).clips.len() == 0
            &&& export::is_untouched(row[i].clip)
            &&& row[0].start_us == 0
            &&& i + 1 < row.len() ==> row[i + 1].start_us == row[i].start_us
                + row[i].clip.dur_us()
            &&& row[i].clip.info.profile == row[j].clip.info.profile
            &&& files.len() == row.len() && files[i].path == row[i].clip.path
        }),
{
    let row = export::in_time(tracks[v].clips);
    let clips = project::clips_only(row);
    assert(clips[i] == row[i].clip && clips[j] == row[j].clip && clips[0] == row[0].clip);
    assert(row[0].start_us == project::played(clips, 0));
    assert(row[i].start_us == project::played(clips, i));
    if i + 1 < row.len() {
        assert(row[i + 1].start_us == project::played(clips, i + 1));
    }
}

/// A project is exported with the profile of its first clip.
pub proof fn lemma_export_goes_by_the_first_clip(tracks: Seq<TrackView>)
    ensures
        project::all_placed(tracks).len() > 0 ==> command::target_of(tracks)
            == project::all_placed(tracks)[0].clip.info.profile,
        project::all_placed(tracks).len() == 0 ==> command::target_of(tracks).resolution.width
            == 1920 && command::target_of(tracks).resolution.height == 1080,
{
}

/// The chain of an input of a joined video: both its picture and its sound are
/// taken from that input, and go on under its labels.
pub open spec fn joined_from(i: int) -> Seq<char> {
    ",format=yuv420p[v"@ + text::dec(i as nat) + "];["@ + text::dec(i as nat)
        + ":a]aformat=sample_rates=48000:channel_layouts=stereo[a"@ + text::dec(i as nat) + "];"@
}

proof fn lemma_chain_is_behind(acc: Seq<char>, i: int, w: u32, h: u32, fps: Seq<char>)
    ensures
        reencode::input_chains(acc, i, w, h, fps) == reencode::video_chain(acc, i, w, h, fps)
            + joined_from(i),
{
    let v = reencode::video_chain(acc, i, w, h, fps);
    let d = text::dec(i as nat);
    let form = ":a]aformat=sample_rates=48000:channel_layouts=stereo[a"@;
    let p1 = ",format=yuv420p[v"@ + d;
    seqs::lemma_append(v, ",format=yuv420p[v"@, d);
    seqs::lemma_append_5(v + p1, "];["@, d, form, d, "];"@);
    seqs::lemma_append(v, p1, "];["@);
    seqs::lemma_append(v, p1 + "];["@, d);
    seqs::lemma_append(v, p1 + "];["@ + d, form);
    seqs::lemma_append(v, p1 + "];["@ + d + form, d);
    seqs::lemma_append(v, p1 + "];["@ + d + form + d, "];"@);
}

proof fn lemma_sizing_keeps(acc: Seq<char>, w: u32, h: u32, fps: Seq<char>, piece: Seq<char>)
    requires
        seqs::has_piece(acc, piece),
    ensures
        seqs::has_piece(reencode::sizing(acc, w, h, fps), piece),
{
    super::graph_laws::lemma_sizing_is_behind(acc, w, h, fps, piece);
}

proof fn lemma_chains_keep(
    acc: Seq<char>,
    i: int,
    w: u32,
    h: u32,
    fps: Seq<char>,
    piece: Seq<char>,
)
    requires
        seqs::has_piece(acc, piece),
    ensures
        seqs::has_piece(reencode::input_chains(acc, i, w, h, fps), piece),
{
    let d = text::dec(i as nat);
    seqs::lemma_piece_stays(acc, piece, "["@);
    seqs::lemma_piece_stays(acc + "["@, piece, d);
    seqs::lemma_piece_stays(acc + "["@ + d, piece, ":v]"@);
    lemma_sizing_keeps(reencode::video_of(acc, i), w, h, fps, piece);
    lemma_chain_is_behind(acc, i, w, h, fps);
    seqs::lemma_piece_stays(reencode::video_chain(acc, i, w, h, fps), piece, joined_from(i));
}

proof fn lemma_all_chains(n: int, w: u32, h: u32, fps: Seq<char>, i: int)
    requires
        0 <= i < n,
    ensures
        seqs::has_piece(
            reencode::all_chains(n, w, h, fps),
            "["@ + text::dec(i as nat) + ":v]"@,
        ),
        seqs::has_piece(reencode::all_chains(n, w, h, fps), joined_from(i)),
    decreases n,
{
    let before = reencode::all_chains(n - 1, w, h, fps);
    let video = "["@ + text::dec(i as nat) + ":v]"@;
    if i < n - 1 {
        lemma_all_chains(n - 1, w, h, fps, i);
        lemma_chains_keep(before, n - 1, w, h, fps, video);
        lemma_chains_keep(before, n - 1, w, h, fps, joined_from(i));
    } else {
        seqs::lemma_append_3(before, "["@, text::dec(i as nat), ":v]"@);
        seqs::lemma_piece_at_end(before, video);
        lemma_sizing_keeps(reencode::video_of(before, i), w, h, fps, video);
        lemma_chain_is_behind(before, i, w, h, fps);
        let v = reencode::video_chain(before, i, w, h, fps);
        seqs::lemma_piece_stays(v, video, joined_from(i));
        seqs::lemma_piece_at_end(v, joined_from(i));
    }
}

proof fn lemma_labels_keep(acc: Seq<char>, n: int, piece: Seq<char>)
    requires
        seqs::has_piece(acc, piece),
    ensures
        seqs::has_piece(reencode::chain_labels(acc, n), piece),
    decreases n,
{
    if n > 0 {
        lemma_labels_keep(acc, n - 1, piece);
        let before = reencode::chain_labels(acc, n - 1);
        let d = text::dec((n - 1) as nat);
        seqs::lemma_piece_stays(before, piece, "[v"@);
        seqs::lemma_piece_stays(before + "[v"@, piece, d);
        seqs::lemma_piece_stays(before + "[v"@ + d, piece, "][a"@);
        seqs::lemma_piece_stays(before + "[v"@ + d + "][a"@, piece, d);
        seqs::lemma_piece_stays(before + "[v"@ + d + "][a"@ + d, piece, "]"@);
    }
}

proof fn lemma_labels_name(acc: Seq<char>, n: int, i: int)
    requires
        0 <= i < n,
    ensures
        seqs::has_piece(
            reencode::chain_labels(acc, n),
            "[v"@ + text::dec(i as nat) + "][a"@ + text::dec(i as nat) + "]"@,
        ),
    decreases n,
{
    let before = reencode::chain_labels(acc, n - 1);
    let d = text::dec((n - 1) as nat);
    let own = "[v"@ + d + "][a"@ + d + "]"@;
    seqs::lemma_append_5(before, "[v"@, d, "][a"@, d, "]"@);
    if i < n - 1 {
        lemma_labels_name(acc, n - 1, i);
        seqs::lemma_piece_stays(
            before,
            "[v"@ + text::dec(i as nat) + "][a"@ + text::dec(i as nat) + "]"@,
            own,
        );
    } else {
        seqs::lemma_piece_at_end(before, own);
    }
}

/// A joined video takes the picture and the sound of every input, from that input,
/// and joins both of each.
pub proof fn lemma_every_input_is_joined(n: int, w: u32, h: u32, fps: Seq<char>, i: int)
    requires
        0 <= i < n,
    ensures
        ({
            let graph = reencode::concat_graph(n, w, h, fps);
            let d = text::dec(i as nat);
            &&& seqs::has_piece(graph, "["@ + d + ":v]"@)
            &&& seqs::has_piece(graph, joined_from(i))
            &&& seqs::has_piece(graph, "[v"@ + d + "][a"@ + d + "]"@)
            &&& seqs::has_piece(graph, "concat=n="@ + text::dec(n as nat))
        }),
{
    let d = text::dec(i as nat);
    let dn = text::dec(n as nat);
    let chains = reencode::all_chains(n, w, h, fps);
    let labels = reencode::chain_labels(chains, n);
    let video = "["@ + d + ":v]"@;
    let pair = "[v"@ + d + "][a"@ + d + "]"@;
    let end = ":v=1:a=1[outv][outa]"@;
    lemma_all_chains(n, w, h, fps, i);
    lemma_labels_keep(chains, n, video);
    lemma_labels_keep(chains, n, joined_from(i));
    lemma_labels_name(chains, n, i);
    let joined = "concat=n="@ + dn;
    seqs::lemma_append(labels, "concat=n="@, dn);
    seqs::lemma_piece_stays(labels, video, joined);
    seqs::lemma_piece_stays(labels + joined, video, end);
    seqs::lemma_piece_stays(labels, joined_from(i), joined);
    seqs::lemma_piece_stays(labels + joined, joined_from(i), end);
    seqs::lemma_piece_stays(labels, pair, joined);
    seqs::lemma_piece_stays(labels + joined, pair, end);
    seqs::lemma_piece_at_end(labels, joined);
    seqs::lemma_piece_stays(labels + joined, joined, end);
}

/// A picture is brought to the size and the rate that are asked for.
pub proof fn lemma_picture_is_brought_to_size(acc: Seq<char>, w: u32, h: u32, fps: Seq<char>)
    ensures
        seqs::has_piece(
            reencode::sizing(acc, w, h, fps),
            "scale="@ + text::dec(w as nat) + ":"@ + text::dec(h as nat)
                + ":force_original_aspect_ratio=decrease,pad="@,
        ),
        seqs::has_piece(
            reencode::sizing(acc, w, h, fps),
            text::dec(w as nat) + ":"@ + text::dec(h as nat)
                + ":(ow-iw)/2:(oh-ih)/2,setsar=1,fps="@ + fps,
        ),
{
    let dw = text::dec(w as nat);
    let dh = text::dec(h as nat);
    let pad = ":force_original_aspect_ratio=decrease,pad="@;
    let mid = ":(ow-iw)/2:(oh-ih)/2,setsar=1,fps="@;
    let a = "scale="@ + dw + ":"@ + dh + pad;
    let b = dw + ":"@ + dh + mid + fps;
    seqs::lemma_append_5(acc, "scale="@, dw, ":"@, dh, pad);
    seqs::lemma_append_5(acc + a, dw, ":"@, dh, mid, fps);
    seqs::lemma_piece_at_end(acc, a);
    seqs::lemma_piece_stays(acc + a, a, b);
    seqs::lemma_piece_at_end(acc + a, b);
    assert(reencode::sizing(acc, w, h, fps) == acc + a + b);
}

/// The canvas has the size, the rate and the length of what is rendered.
pub proof fn lemma_canvas_is_as_long_as_the_plan(
    plan: RenderPlanView,
    w: u32,
    h: u32,
    fps: Seq<char>,
)
    ensures
        ({
            let c = reencode::canvas(plan, w, h, fps);
            &&& seqs::has_piece(c, "s="@ + text::dec(w as nat) + "x"@ + text::dec(h as nat))
            &&& seqs::has_piece(c, ":d="@ + reencode::secs6(plan.total_duration_us as int))
            &&& seqs::has_piece(c, ":r="@ + fps)
        }),
{
    let dw = text::dec(w as nat);
    let dh = text::dec(h as nat);
    let len = reencode::secs6(plan.total_duration_us as int);
    reveal_strlit("color=c=black:s=");
    reveal_strlit("color=c=black:");
    reveal_strlit("s=");
    assert("color=c=black:s="@ =~= "color=c=black:"@ + "s="@);
    let size = "s="@ + dw + "x"@ + dh;
    let head = "color=c=black:"@;
    seqs::lemma_append(head, "s="@, dw);
    seqs::lemma_append(head, "s="@ + dw, "x"@);
    seqs::lemma_append(head, "s="@ + dw + "x"@, dh);
    let s1 = head + size;
    let last = ",format=yuv420p[base];"@;
    seqs::lemma_append(s1, ":d="@, len);
    let s2 = s1 + (":d="@ + len);
    seqs::lemma_append(s2, ":r="@, fps);
    let s3 = s2 + (":r="@ + fps);
    seqs::lemma_piece_at_end(head, size);
    seqs::lemma_piece_stays(s1, size, ":d="@ + len);
    seqs::lemma_piece_stays(s2, size, ":r="@ + fps);
    seqs::lemma_piece_stays(s3, size, last);
    seqs::lemma_piece_at_end(s1, ":d="@ + len);
    seqs::lemma_piece_stays(s2, ":d="@ + len, ":r="@ + fps);
    seqs::lemma_piece_stays(s3, ":d="@ + len, last);
    seqs::lemma_piece_at_end(s2, ":r="@ + fps);
    seqs::lemma_piece_stays(s3, ":r="@ + fps, last);
    assert(reencode::canvas(plan, w, h, fps) == s3 + last);
}

/// Both ways to encode open all inputs first, write to the file that was asked
/// for, and have the size of the target and the quality that was asked for.
pub proof fn lemma_encoding_opens_all_inputs_first(
    plan: MergePlanView,
    render: RenderPlanView,
    spec: ExportSpecView,
    target: CodecProfileView,
    q: Quality,
    lone_ms: i64,
)
    requires
        target.resolution.width >= 2,
        target.resolution.height >= 2,
    ensures
        ({
            let all = reencode::merge_args(plan, target);
            let ins = reencode::all_input_args(
                command::quiet(),
                plan.inputs,
                plan.inputs.len() as int,
            );
            let n = ins.len() as int;
            &&& all.take(n) == ins && all.last() == plan.spec.output_path
            &&& all[n + 1] == reencode::concat_graph(
                plan.inputs.len() as int,
                target.resolution.width,
                target.resolution.height,
                reencode::fps_of(target.frame_rate_mhz),
            )
            &&& all[n + 11] == text::dec(reencode::crf_of(plan.spec.quality) as nat)
        }),
        ({
            let all = reencode::multitrack_args(render, spec, target, q, lone_ms);
            let ins = reencode::all_input_args(
                command::quiet(),
                render.inputs,
                render.inputs.len() as int,
            );
            let n = ins.len() as int;
            &&& all.take(n) == ins && all.last() == spec.output_path
            &&& all[n + 1] == reencode::multitrack_graph(
                render,
                target.resolution.width,
                target.resolution.height,
                reencode::fps_of(target.frame_rate_mhz),
                lone_ms,
            )
            &&& all[n + 11] == text::dec(reencode::crf_of(q) as nat)
        }),
{
    let a = reencode::all_input_args(command::quiet(), plan.inputs, plan.inputs.len() as int);
    let b = reencode::all_input_args(
        command::quiet(),
        render.inputs,
        render.inputs.len() as int,
    );
    let (w, h) = (target.resolution.width, target.resolution.height);
    let fps = reencode::fps_of(target.frame_rate_mhz);
    lemma_output_comes_last(
        a,
        reencode::concat_graph(plan.inputs.len() as int, w, h, fps),
        plan.spec.quality,
        plan.spec.output_path,
    );
    lemma_output_comes_last(
        b,
        reencode::multitrack_graph(render, w, h, fps, lone_ms),
        q,
        spec.output_path,
    );
}

/// Colours are changed by what the look says of each, and not at all where it says
/// nothing.
pub proof fn lemma_colours_go_by_the_look(t: TransformSamples)
    ensures
        t.brightness.bits == 0 && t.contrast.bits == ONE_BITS && t.saturation.bits == ONE_BITS
            ==> look::colouring(t).len() == 0,
        t.brightness.bits != 0 || t.contrast.bits != ONE_BITS || t.saturation.bits != ONE_BITS ==> {
            &&& seqs::has_piece(
                look::colouring(t),
                "brightness="@ + look::number(t.brightness) + ":contrast="@,
            )
            &&& seqs::has_piece(
                look::colouring(t),
                ":contrast="@ + look::number(t.contrast) + ":saturation="@ + look::number(
                    t.saturation,
                ),
            )
        },
{
    let b = look::number(t.brightness);
    let c = look::number(t.contrast);
    let s = look::number(t.saturation);
    reveal_strlit("eq=brightness=");
    reveal_strlit("eq=");
    reveal_strlit("brightness=");
    assert("eq=brightness="@ =~= "eq="@ + "brightness="@);
    let first = "brightness="@ + b + ":contrast="@;
    let second = ":contrast="@ + c + ":saturation="@ + s;
    let rest = ":saturation="@ + s + ","@;
    let all = "eq="@ + "brightness="@ + b + ":contrast="@ + c + ":saturation="@ + s + ","@;
    seqs::lemma_append_3("eq="@, "brightness="@, b, ":contrast="@);
    seqs::lemma_piece_at_end("eq="@, first);
    seqs::lemma_piece_stays("eq="@ + first, first, c);
    seqs::lemma_piece_stays("eq="@ + first + c, first, ":saturation="@);
    seqs::lemma_piece_stays("eq="@ + first + c + ":saturation="@, first, s);
    seqs::lemma_piece_stays("eq="@ + first + c + ":saturation="@ + s, first, ","@);
    let head = "eq="@ + "brightness="@ + b;
    seqs::lemma_append(head, ":contrast="@, c);
    seqs::lemma_append(head, ":contrast="@ + c, ":saturation="@);
    seqs::lemma_append(head, ":contrast="@ + c + ":saturation="@, s);
    seqs::lemma_piece_at_end(head, second);
    seqs::lemma_piece_stays(head + second, second, ","@);
}

/// A curve is solved along the one axis and read along the other: its control
/// points are taken apart accordingly.
pub proof fn lemma_curve_is_solved_and_read(
    ratio: Seq<char>,
    x1: Scalar,
    y1: Scalar,
    x2: Scalar,
    y2: Scalar,
)
    ensures
        seqs::has_piece(
            look::eased(ratio, x1, y1, x2, y2),
            look::curve("ld(0)"@, x1, x2) + "-("@ + ratio + "),1));"@,
        ),
        seqs::has_piece(
            look::eased(ratio, x1, y1, x2, y2),
            look::curve("ld(1)"@, y1, y2) + ")"@,
        ),
{
    let cx = look::curve("ld(0)"@, x1, x2);
    let cy = look::curve("ld(1)"@, y1, y2);
    let head = "(st(1,root("@;
    let first = cx + "-("@ + ratio + "),1));"@;
    seqs::lemma_append(head, cx, "-("@);
    seqs::lemma_append(head, cx + "-("@, ratio);
    seqs::lemma_append(head, cx + "-("@ + ratio, "),1));"@);
    seqs::lemma_piece_at_end(head, first);
    seqs::lemma_piece_stays(head + first, first, cy);
    seqs::lemma_piece_stays(head + first + cy, first, ")"@);
    seqs::lemma_append(head + first, cy, ")"@);
    seqs::lemma_piece_at_end(head + first, cy + ")"@);
}

/// A channel that is not animated is at its own value; on the way it goes from
/// the one value to the other.
pub proof fn lemma_formula_goes_from_to(v: Scalar, w: Scalar, ratio: Seq<char>, span: nat)
    ensures
        look::sampled(Sample::Held(v)) == look::number(v),
        look::channel(Seq::empty(), Sample::Held(v), ratio) == look::number(v),
        look::way(v, w, ratio) == look::number(v) + "+("@ + look::number(w) + "-"@ + look::number(
            v,
        ) + ")*"@ + ratio,
        look::straight(ratio, span) == "("@ + ratio + ")/"@ + text::dec(span),
{
}

} // verus!
