//! What clips, keyframes and rows of clips promise.

use vstd::prelude::*;

use super::clip;
use super::clip::ClipView;
use super::project;
use super::project::{ProjectView, TrackClipView, TrackKind, TrackView};
use super::transform;
use super::transform::{
    ColorGrading, Interp, Keyframe, PositionSample, ResolvedTransform, Sample, TransformChannel,
    TransformKeysView, TransformSamples,
};
use crate::scalar::{Scalar, ONE_BITS};
use crate::seqs;
use crate::sorting;

verus! {

/// What a look says on a channel that is animated, or on any channel but the
/// two of the position.
pub open spec fn shown_on(look: TransformSamples, ch: TransformChannel) -> Option<Sample> {
    match ch {
        TransformChannel::Opacity => Some(look.opacity),
        TransformChannel::Scale => Some(look.scale),
        TransformChannel::ScaleX => Some(look.scale_x),
        TransformChannel::ScaleY => Some(look.scale_y),
        TransformChannel::PositionX => match look.position_x {
            PositionSample::Animated(s) => Some(s),
            PositionSample::Static(_) => None,
        },
        TransformChannel::PositionY => match look.position_y {
            PositionSample::Animated(s) => Some(s),
            PositionSample::Static(_) => None,
        },
        TransformChannel::Rotation => Some(look.rotation_deg),
    }
}

/// The keyframes of a clip on a channel.
pub open spec fn keys_on(c: ClipView, ch: TransformChannel) -> Seq<Keyframe> {
    match ch {
        TransformChannel::Opacity => c.transform_keys.opacity,
        TransformChannel::Scale => c.transform_keys.scale,
        TransformChannel::ScaleX => c.transform_keys.scale_x,
        TransformChannel::ScaleY => c.transform_keys.scale_y,
        TransformChannel::PositionX => c.transform_keys.position_x,
        TransformChannel::PositionY => c.transform_keys.position_y,
        TransformChannel::Rotation => c.transform_keys.rotation_deg,
    }
}

/// Every channel has a list of keyframes of its own: changing one leaves the
/// others as they are, and it is what is read back.
pub proof fn lemma_channels_are_apart(
    k: TransformKeysView,
    ch: TransformChannel,
    other: TransformChannel,
    keys: Seq<Keyframe>,
)
    ensures
        k.with_channel(ch, keys).channel(ch) == keys,
        other != ch ==> k.with_channel(ch, keys).channel(other) == k.channel(other),
        k.with_channel(ch, k.channel(ch)) == k,
        TransformKeysView::still().channel(ch).len() == 0,
{
}

/// The channels are those of the look that bear their names.
pub proof fn lemma_channel_is_the_one_named(c: ClipView, ch: TransformChannel)
    ensures
        c.transform_keys.channel(ch) == keys_on(c, ch),
{
}

/// At the time of each keyframe a clip is at the value of that keyframe, on
/// every channel, whatever the clip's own value is.
pub proof fn lemma_clip_is_at_its_keyframes(c: ClipView, ch: TransformChannel, i: int)
    requires
        transform::one_after_another(keys_on(c, ch)),
        0 <= i < keys_on(c, ch).len(),
    ensures
        ({
            let key = keys_on(c, ch)[i];
            &&& shown_on(c.look(key.time_us), ch) matches Some(s)
            &&& transform::sets_out_from(s, key.value)
        }),
{
    transform::lemma_sample_at_a_keyframe(keys_on(c, ch), i, Scalar { bits: 0 });
    transform::lemma_sample_at_a_keyframe(keys_on(c, ch), i, c.opacity);
    transform::lemma_sample_at_a_keyframe(keys_on(c, ch), i, c.scale);
    transform::lemma_sample_at_a_keyframe(keys_on(c, ch), i, c.scale_x);
    transform::lemma_sample_at_a_keyframe(keys_on(c, ch), i, c.scale_y);
    transform::lemma_sample_at_a_keyframe(keys_on(c, ch), i, c.rotation_deg);
}

/// Between two keyframes a channel goes as the earlier one says: it holds its
/// value, or is on the way to the next one's, by as much as has gone by of the
/// time between them.
pub open spec fn goes_from_to(s: Sample, a: Keyframe, b: Keyframe, t_us: i64) -> bool {
    match (a.interp, s) {
        (Interp::Hold, Sample::Held(v)) => v == a.value,
        (Interp::Linear, Sample::Linear { from, to, elapsed_us, span_us }) => {
            &&& from == a.value && to == b.value
            &&& a.time_us + elapsed_us == t_us
            &&& a.time_us + span_us == b.time_us
        },
        (
            Interp::Bezier,
            Sample::Bezier { from, to, elapsed_us, span_us, cp_x1, cp_y1, cp_x2, cp_y2 },
        ) => {
            &&& from == a.value && to == b.value
            &&& a.time_us + elapsed_us == t_us
            &&& a.time_us + span_us == b.time_us
            &&& cp_x1 == a.cp_x1 && cp_y1 == a.cp_y1
            &&& cp_x2 == a.cp_x2 && cp_y2 == a.cp_y2
        },
        _ => false,
    }
}

proof fn lemma_sample_goes_from_to(keys: Seq<Keyframe>, i: int, t_us: i64, fallback: Scalar)
    requires
        transform::one_after_another(keys),
        0 <= i < keys.len() - 1,
        keys[i].time_us < t_us < keys[i + 1].time_us,
    ensures
        goes_from_to(transform::sample(keys, t_us, fallback), keys[i], keys[i + 1], t_us),
{
    let pairs = transform::neighbours(keys);
    if i > 0 {
        assert(keys[0].time_us < keys[i].time_us);
    }
    if i + 1 < keys.len() - 1 {
        assert(keys[i + 1].time_us < keys[keys.len() - 1].time_us);
    }
    assert forall|j: int| 0 <= j < i implies !transform::around(t_us)(#[trigger] pairs[j]) by {
        assert(pairs[j] == (keys[j], keys[j + 1]));
        if j + 1 < i {
            assert(keys[j + 1].time_us < keys[i].time_us);
        }
    }
    assert(pairs[i] == (keys[i], keys[i + 1]));
    seqs::lemma_first_where_found(pairs, transform::around(t_us), i);
}

/// Between two neighbouring keyframes every channel of a clip is on the way from
/// the one to the other.
pub proof fn lemma_clip_goes_between_its_keyframes(
    c: ClipView,
    ch: TransformChannel,
    i: int,
    t_us: i64,
)
    requires
        transform::one_after_another(keys_on(c, ch)),
        0 <= i < keys_on(c, ch).len() - 1,
        keys_on(c, ch)[i].time_us < t_us < keys_on(c, ch)[i + 1].time_us,
    ensures
        shown_on(c.look(t_us), ch) matches Some(s) && goes_from_to(
            s,
            keys_on(c, ch)[i],
            keys_on(c, ch)[i + 1],
            t_us,
        ),
{
    lemma_sample_goes_from_to(keys_on(c, ch), i, t_us, Scalar { bits: 0 });
    lemma_sample_goes_from_to(keys_on(c, ch), i, t_us, c.opacity);
    lemma_sample_goes_from_to(keys_on(c, ch), i, t_us, c.scale);
    lemma_sample_goes_from_to(keys_on(c, ch), i, t_us, c.scale_x);
    lemma_sample_goes_from_to(keys_on(c, ch), i, t_us, c.scale_y);
    lemma_sample_goes_from_to(keys_on(c, ch), i, t_us, c.rotation_deg);
}

/// Before its first keyframe a channel is at the first value, and behind its
/// last one at the last value.
pub proof fn lemma_clip_rests_outside_its_keyframes(c: ClipView, ch: TransformChannel, t_us: i64)
    requires
        keys_on(c, ch).len() > 0,
        transform::one_after_another(keys_on(c, ch)),
    ensures
        t_us <= keys_on(c, ch)[0].time_us ==> shown_on(c.look(t_us), ch) == Some(
            Sample::Held(keys_on(c, ch)[0].value),
        ),
        t_us >= keys_on(c, ch).last().time_us ==> shown_on(c.look(t_us), ch) == Some(
            Sample::Held(keys_on(c, ch).last().value),
        ),
{
    let keys = keys_on(c, ch);
    if keys.len() > 1 {
        assert(keys[0].time_us < keys[keys.len() - 1].time_us);
    }
}

/// A channel without keyframes stays at the clip's own value for all time, and
/// what cannot be animated never changes. A crop that cuts nothing is no crop.
pub proof fn lemma_still_clip_never_changes(c: ClipView, t_us: i64)
    ensures
        c.transform_keys.opacity.len() == 0 ==> c.look(t_us).opacity == Sample::Held(c.opacity),
        c.transform_keys.scale.len() == 0 ==> c.look(t_us).scale == Sample::Held(c.scale),
        c.transform_keys.scale_x.len() == 0 ==> c.look(t_us).scale_x == Sample::Held(c.scale_x),
        c.transform_keys.scale_y.len() == 0 ==> c.look(t_us).scale_y == Sample::Held(c.scale_y),
        c.transform_keys.rotation_deg.len() == 0 ==> c.look(t_us).rotation_deg == Sample::Held(
            c.rotation_deg,
        ),
        c.transform_keys.position_x.len() == 0 ==> c.look(t_us).position_x
            == PositionSample::Static(c.position_x),
        c.transform_keys.position_y.len() == 0 ==> c.look(t_us).position_y
            == PositionSample::Static(c.position_y),
        c.look(t_us).flip_h == c.flip_h,
        c.look(t_us).flip_v == c.flip_v,
        c.look(t_us).brightness == c.brightness,
        c.look(t_us).contrast == c.contrast,
        c.look(t_us).saturation == c.saturation,
        c.look(t_us).color_grading == c.color_grading,
        c.look(t_us).crop matches Some(crop) ==> c.crop == Some(crop) && (crop.left > 0
            || crop.top > 0 || crop.right > 0 || crop.bottom > 0),
        c.look(t_us).crop is None ==> (c.crop matches Some(crop) ==> crop.left == 0 && crop.top
            == 0 && crop.right == 0 && crop.bottom == 0),
{
}

/// A new clip plays its whole file at its own volume on the lowest video track,
/// follows the clip before it, and looks at all times as the file does.
pub proof fn lemma_new_clip_changes_nothing(
    id: u128,
    path: Seq<char>,
    info: clip::MediaInfoView,
    t_us: i64,
)
    ensures
        ({
            let c = clip::whole_file(id, path, info);
            let one = Sample::Held(Scalar { bits: ONE_BITS });
            let zero = Sample::Held(Scalar { bits: 0 });
            &&& c.id == id && c.path == path && c.info == info
            &&& c.asset() == id
            &&& c.length() == info.duration
            &&& c.trim_in.nanos == 0
            &&& c.video_track == 0 && c.start_us is None
            &&& c.volume.bits == ONE_BITS && !c.muted
            &&& c.thumbnails.len() == 0 && c.waveform_path is None
            &&& c.look(t_us).opacity == one && c.look(t_us).scale == one
            &&& c.look(t_us).scale_x == one && c.look(t_us).scale_y == one
            &&& c.look(t_us).rotation_deg == zero
            &&& c.look(t_us).position_x == PositionSample::Static(0)
            &&& c.look(t_us).position_y == PositionSample::Static(0)
            &&& !c.look(t_us).flip_h && !c.look(t_us).flip_v && c.look(t_us).crop is None
            &&& c.look(t_us).brightness.bits == 0 && c.look(t_us).contrast.bits == ONE_BITS
            &&& c.look(t_us).saturation.bits == ONE_BITS
            &&& c.look(t_us).color_grading.leaves_colours()
        }),
{
}

/// A clip plays for as long as its window is: from where it begins in the source
/// to where it ends. What is before and behind the window is not played.
pub proof fn lemma_clip_plays_its_window(c: ClipView)
    requires
        c.trim_in.nanos <= c.trim_out.nanos,
    ensures
        c.trim_in.nanos + c.length().nanos == c.trim_out.nanos,
        c.fits_timeline() ==> 0 <= c.dur_us() && c.dur_us() * 1_000 <= c.length().nanos < (
        c.dur_us() + 1) * 1_000,
{
}

/// A keyframe that was set is there: one within the tolerance has the value, and
/// where none was near, it is at the very time. No other one changes, and none
/// is lost.
pub proof fn lemma_set_keyframe_is_there(
    new: Seq<Keyframe>,
    keys: Seq<Keyframe>,
    time_us: i64,
    value: Scalar,
    tol_us: i64,
)
    requires
        transform::upserted(new, keys, time_us, value, tol_us),
        tol_us >= 0,
    ensures
        exists|i: int|
            0 <= i < new.len() && (#[trigger] new[i]).value == value && time_us - tol_us
                <= new[i].time_us <= time_us + tol_us,
        (exists|i: int|
            0 <= i < keys.len() && time_us - tol_us <= (#[trigger] keys[i]).time_us <= time_us
                + tol_us) ==> new.len() == keys.len() && forall|i: int|
            0 <= i < keys.len() ==> (#[trigger] new[i]).time_us == keys[i].time_us
                && new[i].interp == keys[i].interp && (new[i].value == keys[i].value
                || new[i].value == value),
        (forall|i: int|
            0 <= i < keys.len() ==> !(time_us - tol_us <= (#[trigger] keys[i]).time_us <= time_us
                + tol_us)) ==> new.len() == keys.len() + 1 && new.to_multiset()
            == keys.to_multiset().insert(transform::plain_key(time_us, value))
            && transform::plain_key(time_us, value).time_us == time_us && transform::plain_key(
            time_us,
            value,
        ).interp == Interp::Linear,
{
    let near = transform::near(time_us, tol_us);
    seqs::lemma_first_where(keys, near);
    match seqs::first_where(keys, near) {
        Some(i) => {
            assert(new[i].value == value);
            assert(near(keys[i]));
        },
        None => {
            let key = transform::plain_key(time_us, value);
            let all = keys.push(key);
            let rank = sorting::rank_of::<Keyframe>();
            sorting::lemma_stably_sorted_is_permutation(new, all, rank);
            broadcast use vstd::seq_lib::group_to_multiset_ensures;

            assert(all.to_multiset() =~= keys.to_multiset().insert(key));
            assert(new.to_multiset().contains(key));
            assert(new.contains(key));
            let i = new.index_of(key);
            assert(new[i].value == value);
            assert forall|j: int| 0 <= j < keys.len() implies !(time_us - tol_us <= (
            #[trigger] keys[j]).time_us <= time_us + tol_us) by {
                assert(!near(keys[j]));
            }
        },
    }
}

/// Removing the keyframes at a time removes those within the tolerance and no
/// others: what stays is farther away, and all that is farther away stays.
pub proof fn lemma_removed_keyframes_are_those_near(
    keys: Seq<Keyframe>,
    time_us: i64,
    tol_us: i64,
)
    ensures
        ({
            let left = keys.filter(transform::not_near(time_us, tol_us));
            &&& forall|i: int|
                0 <= i < left.len() ==> keys.contains(#[trigger] left[i]) && (left[i].time_us
                    < time_us - tol_us || left[i].time_us > time_us + tol_us)
            &&& forall|i: int|
                0 <= i < keys.len() && ((#[trigger] keys[i]).time_us < time_us - tol_us
                    || keys[i].time_us > time_us + tol_us) ==> left.contains(keys[i])
        }),
{
    let keep = transform::not_near(time_us, tol_us);
    let left = keys.filter(keep);
    seqs::lemma_filtered(keys, keep);
    assert forall|i: int| 0 <= i < left.len() implies keys.contains(#[trigger] left[i]) && (
    left[i].time_us < time_us - tol_us || left[i].time_us > time_us + tol_us) by {
        assert(keep(keys.filter(keep)[i]));
    }
    assert forall|i: int|
        0 <= i < keys.len() && ((#[trigger] keys[i]).time_us < time_us - tol_us
            || keys[i].time_us > time_us + tol_us) implies left.contains(keys[i]) by {
        assert(keep(keys[i]));
    }
}

/// Clips in a row begin at the start of the timeline and follow one another
/// without a gap; they are the clips of the playlist in its order.
pub proof fn lemma_row_has_no_gaps(clips: Seq<ClipView>, i: int)
    requires
        project::fits_in_a_row(clips),
        0 <= i < clips.len(),
    ensures
        project::in_a_row(clips).len() == clips.len(),
        project::in_a_row(clips)[i].clip == clips[i],
        i == 0 ==> project::in_a_row(clips)[i].start_us == 0,
        i > 0 ==> project::in_a_row(clips)[i].start_us == project::in_a_row(clips)[i - 1].start_us
            + clips[i - 1].dur_us(),
{
    assert(i64::MIN <= project::played(clips, i) <= i64::MAX);
    if i > 0 {
        assert(i64::MIN <= project::played(clips, i - 1) <= i64::MAX);
    }
}

/// A playlist made into a project lies on V1 and is heard from A1; V2 and A2 are
/// empty.
pub proof fn lemma_playlist_lies_on_v1(p: ProjectView, clips: Seq<ClipView>)
    requires
        project::holds_in_a_row(p, clips),
    ensures
        p.tracks.len() == 4,
        p.tracks[0].name == "V2"@ && p.tracks[0].clips.len() == 0,
        p.tracks[1].name == "V1"@ && project::clips_only(p.tracks[1].clips) == clips,
        p.tracks[2].name == "A1"@ && p.tracks[2].clips == p.tracks[1].clips,
        p.tracks[3].name == "A2"@ && p.tracks[3].clips.len() == 0,
        forall|t: int|
            0 <= t < 4 ==> !(#[trigger] p.tracks[t]).muted && !p.tracks[t].solo
                && !p.tracks[t].locked && (p.tracks[t].kind == project::TrackKind::Video <==> t
                < 2),
{
    let empty = project::emptied(p.tracks);
    assert(project::clips_only(p.tracks[1].clips) =~= clips);
    assert(empty[0] == p.tracks[0] && empty[3] == p.tracks[3]);
    assert forall|t: int| 0 <= t < 4 implies !(#[trigger] p.tracks[t]).muted && !p.tracks[t].solo
        && !p.tracks[t].locked && (p.tracks[t].kind == project::TrackKind::Video <==> t < 2) by {
        assert(empty[t].muted == p.tracks[t].muted && empty[t].kind == p.tracks[t].kind);
    }
}

/// Whether the time falls into the clip: from its start on, for its length.
pub open spec fn plays_at(tc: TrackClipView, t: int) -> bool {
    tc.start_us <= t < tc.start_us + tc.clip.dur_us()
}

/// Two clips overlap where they have a moment in common.
pub proof fn lemma_overlap_is_a_common_moment(a: TrackClipView, b: TrackClipView)
    requires
        a.clip.dur_us() > 0,
        b.clip.dur_us() > 0,
    ensures
        project::overlaps(a.start_us as int, a.clip.dur_us() as int, b) <==> exists|t: int|
            #[trigger] plays_at(a, t) && plays_at(b, t),
{
    let t = if a.start_us < b.start_us {
        b.start_us as int
    } else {
        a.start_us as int
    };
    assert(plays_at(a, t) && plays_at(b, t) <==> project::overlaps(
        a.start_us as int,
        a.clip.dur_us() as int,
        b,
    ));
}

/// The length of a timeline is where its last clip ends: no clip is seen or
/// heard from there on, and one is until then.
pub proof fn lemma_timeline_ends_with_its_last_clip(clips: Seq<TrackClipView>, us: int)
    requires
        project::is_latest_end(clips, us),
    ensures
        forall|i: int|
            0 <= i < clips.len() ==> (#[trigger] clips[i]).start_us + clips[i].clip.dur_us() <= us,
        clips.len() > 0 ==> exists|i: int|
            0 <= i < clips.len() && (#[trigger] clips[i]).start_us + clips[i].clip.dur_us() == us,
        clips.len() == 0 ==> us == 0,
{
    if clips.len() > 0 {
        let i = choose|i: int| 0 <= i < clips.len() && (#[trigger] clips[i]).end() == us;
        assert(clips[i].start_us + clips[i].clip.dur_us() == us);
    }
}

/// A clip that is looked for by its identifier is found on the first track that
/// has it, and it is that clip.
pub proof fn lemma_found_clip_is_the_one(tracks: Seq<TrackView>, id: u128)
    ensures
        match project::find(tracks, id) {
            Some((ti, ci)) => 0 <= ti < tracks.len() && 0 <= ci < tracks[ti].clips.len()
                && tracks[ti].clips[ci].clip.id == id && forall|t: int, k: int|
                0 <= t < ti && 0 <= k < tracks[t].clips.len() ==> (
                #[trigger] tracks[t].clips[k]).clip.id != id,
            None => forall|t: int, k: int|
                0 <= t < tracks.len() && 0 <= k < tracks[t].clips.len() ==> (
                #[trigger] tracks[t].clips[k]).clip.id != id,
        },
{
    project::lemma_find(tracks, id);
    if project::find(tracks, id) is None {
        let holds_id = |t: TrackView| exists|k: int|
            0 <= k < t.clips.len() && (#[trigger] t.clips[k]).clip.id == id;
        seqs::lemma_first_where(tracks, holds_id);
        if let Some(ti) = seqs::first_where(tracks, holds_id) {
            let clips = tracks[ti].clips;
            let k = choose|k: int| 0 <= k < clips.len() && (#[trigger] clips[k]).clip.id == id;
            seqs::lemma_first_where(clips, project::is_clip(id));
            assert(project::is_clip(id)(clips[k]));
            let ci = seqs::first_where(clips, project::is_clip(id))->0;
            assert forall|t: int, c: int|
                0 <= t < ti && 0 <= c < tracks[t].clips.len() implies (
            #[trigger] tracks[t].clips[c]).clip.id != id by {
                assert(!holds_id(tracks[t]));
            }
            assert(project::found_at(tracks, id, ti, ci));
        }
        assert forall|t: int, k: int|
            0 <= t < tracks.len() && 0 <= k < tracks[t].clips.len() implies (
        #[trigger] tracks[t].clips[k]).clip.id != id by {
            assert(!holds_id(tracks[t]));
        }
    }
}

/// A look that changes nothing is opaque, unmoved, unturned, unflipped and uncut,
/// and leaves every colour alone; the plain look is one.
pub proof fn lemma_look_that_changes_nothing(t: ResolvedTransform)
    ensures
        ResolvedTransform::plain().changes_nothing(),
        t.changes_nothing() ==> {
            &&& !t.flip_h && !t.flip_v
            &&& t.position_x == 0 && t.position_y == 0
            &&& t.opacity.key() >= ONE_BITS
            &&& t.scale_x.near_one() && t.scale_y.near_one()
            &&& t.rotation_deg.near_zero() && t.brightness.near_zero()
            &&& t.contrast.near_one() && t.saturation.near_one()
            &&& (t.crop matches Some(c) ==> c.left == 0 && c.right == 0 && c.top == 0 && c.bottom
                == 0)
            &&& t.color_grading.leaves_colours()
        },
{
}

/// A grading that leaves the colours alone does so for each part of it; the
/// neutral one does.
pub proof fn lemma_grading_that_leaves_colours(g: ColorGrading)
    ensures
        ColorGrading::neutral().leaves_colours(),
        g.leaves_colours() ==> {
            &&& g.lift_r.near_zero() && g.lift_g.near_zero() && g.lift_b.near_zero()
            &&& g.gamma_r.near_one() && g.gamma_g.near_one() && g.gamma_b.near_one()
            &&& g.gain_r.near_one() && g.gain_g.near_one() && g.gain_b.near_one()
            &&& g.temperature.near_zero() && g.tint.near_zero() && g.vignette.near_zero()
        },
{
}

/// Zero is near zero, also with a minus sign, and one is near one; neither is near
/// the other, nor is one near minus one.
pub proof fn lemma_near_is_near(x: Scalar)
    ensures
        (Scalar { bits: 0 }).near_zero() && (Scalar { bits: 0x8000_0000 }).near_zero(),
        (Scalar { bits: ONE_BITS }).near_one() && !(Scalar { bits: ONE_BITS }).near_zero(),
        !(Scalar { bits: 0 }).near_one() && !(Scalar { bits: 0xbf80_0000 }).near_one(),
        x.near_zero() ==> !x.near_one() && !x.is_nan(),
        x.near_one() ==> !x.negative() && !x.is_nan(),
        !(Scalar { bits: 0x3e80_0000 }).near_zero() && !(Scalar { bits: 0x3f00_0000 }).near_one(),
{
}

/// Tracks are listed with their places, in their order, those of the kind and no
/// others.
pub proof fn lemma_tracks_are_listed(tracks: Seq<TrackView>, kind: TrackKind, i: int)
    ensures
        forall|k: int|
            0 <= k < project::numbered(tracks).filter(project::of_kind(kind)).len() ==> {
                let p = #[trigger] project::numbered(tracks).filter(project::of_kind(kind))[k];
                0 <= p.0 < tracks.len() && p.1 == tracks[p.0] && p.1.kind == kind
            },
        0 <= i < tracks.len() && tracks[i].kind == kind ==> project::numbered(tracks).filter(
            project::of_kind(kind),
        ).contains((i, tracks[i])),
{
    let all = project::numbered(tracks);
    let p = project::of_kind(kind);
    seqs::lemma_filtered(all, p);
    assert forall|k: int| 0 <= k < all.filter(p).len() implies {
        let x = #[trigger] all.filter(p)[k];
        0 <= x.0 < tracks.len() && x.1 == tracks[x.0] && x.1.kind == kind
    } by {
        let x = all.filter(p)[k];
        let m = all.index_of(x);
        assert(all[m] == x);
    }
    if 0 <= i < tracks.len() && tracks[i].kind == kind {
        assert(all[i] == (i, tracks[i]));
        assert(p(all[i]));
    }
}

/// The tracks of pictures are listed from the bottom up, each once: all but those
/// on top, and behind them those.
pub proof fn lemma_picture_tracks_are_layered(tracks: Seq<TrackView>, layer: usize, i: int)
    ensures
        forall|k: int|
            0 <= k < project::numbered(tracks).filter(project::of_layer(layer)).len() ==> {
                let p = #[trigger] project::numbered(tracks).filter(project::of_layer(layer))[k];
                0 <= p.0 < tracks.len() && p.1 == tracks[p.0] && p.1.kind == TrackKind::Video
            },
        0 <= i < tracks.len() && tracks[i].kind == TrackKind::Video && tracks[i].name == "V2"@
            ==> project::numbered(tracks).filter(project::of_layer(1)).contains((i, tracks[i])),
        0 <= i < tracks.len() && tracks[i].kind == TrackKind::Video && tracks[i].name == "V1"@
            ==> project::numbered(tracks).filter(project::of_layer(0)).contains((i, tracks[i])),
{
    let all = project::numbered(tracks);
    let p = project::of_layer(layer);
    seqs::lemma_filtered(all, p);
    seqs::lemma_filtered(all, project::of_layer(0));
    seqs::lemma_filtered(all, project::of_layer(1));
    assert forall|k: int| 0 <= k < all.filter(p).len() implies {
        let x = #[trigger] all.filter(p)[k];
        0 <= x.0 < tracks.len() && x.1 == tracks[x.0] && x.1.kind == TrackKind::Video
    } by {
        let x = all.filter(p)[k];
        let m = all.index_of(x);
        assert(all[m] == x);
    }
    if 0 <= i < tracks.len() && tracks[i].kind == TrackKind::Video {
        assert(all[i] == (i, tracks[i]));
        reveal_strlit("V1");
        reveal_strlit("V2");
        reveal_strlit("A2");
        assert("V1"@[1] == '1' && "V2"@[1] == '2' && "A2"@[1] == '2');
        if tracks[i].name == "V2"@ {
            assert(project::of_layer(1)(all[i]));
        }
        if tracks[i].name == "V1"@ {
            assert(project::of_layer(0)(all[i]));
        }
    }
}

/// A new project has two tracks of pictures and two of sound, all empty, heard and
/// unlocked, the upper track of pictures first.
pub proof fn lemma_new_project_is_empty(p: ProjectView, i: int)
    requires
        project::is_new_project(p),
        0 <= i < 4,
    ensures
        p.tracks.len() == 4,
        p.tracks[i].clips.len() == 0 && !p.tracks[i].muted && !p.tracks[i].solo
            && !p.tracks[i].locked,
        p.tracks[0].name == "V2"@ && p.tracks[1].name == "V1"@ && p.tracks[2].name == "A1"@
            && p.tracks[3].name == "A2"@,
        p.tracks[0].kind == TrackKind::Video && p.tracks[1].kind == TrackKind::Video,
        p.tracks[2].kind == TrackKind::Audio && p.tracks[3].kind == TrackKind::Audio,
        project::all_placed(p.tracks).len() == 0,
{
    reveal_with_fuel(project::all_placed, 5);
}

/// The clips of all tracks come track by track.
pub proof fn lemma_clips_come_track_by_track(a: Seq<TrackView>, t: TrackView)
    ensures
        project::all_placed(a.push(t)) == project::all_placed(a) + t.clips,
        project::all_placed(Seq::empty()).len() == 0,
{
    assert(a.push(t).drop_last() =~= a);
}

/// Two keyframes lie as far apart as their times, and at least one microsecond.
pub proof fn lemma_keyframes_lie_apart(a: Keyframe, b: Keyframe)
    ensures
        a.time_us < b.time_us ==> transform::span_between(a, b) == b.time_us - a.time_us,
        b.time_us <= a.time_us ==> transform::span_between(a, b) == 1,
{
}

} // verus!
