//! How a clip is placed and coloured, and how that changes over time.
//!
//! A property of a clip is either a fixed value or a channel of keyframes, an
//! [`AnimatedF32`]. Reading a channel at a time picks the keyframes that
//! matter and how far the time lies between them (a [`Sample`]); working out
//! the blend is arithmetic on the numbers themselves.

use vstd::prelude::*;

use crate::scalar::{Scalar, ONE_BITS, QUARTER_BITS, THREE_QUARTERS_BITS};
use crate::seqs;
use crate::sorting;
use crate::sorting::{sort_stable, Rank, Ranked};

verus! {

/// How the value runs from a keyframe to the next one.
#[derive(Clone, Copy, Debug, PartialEq, Eq, Structural)]
pub enum Interp {
    /// Keep the value until the next keyframe.
    Hold,
    /// A straight line.
    Linear,
    /// A Bezier curve.
    Bezier,
}

impl Default for Interp {
    fn default() -> (r: Self)
        ensures
            r == Interp::Linear,
    {
        Interp::Linear
    }
}

/// A value at a time. The time is counted from where the clip starts to be
/// visible on the timeline.
#[derive(Clone, Copy, Debug, PartialEq, Eq, Structural)]
pub struct Keyframe {
    pub time_us: i64,
    pub value: Scalar,
    pub interp: Interp,
    /// The control points of the Bezier curve to the next keyframe.
    pub cp_x1: Scalar,
    pub cp_y1: Scalar,
    pub cp_x2: Scalar,
    pub cp_y2: Scalar,
}

/// The keyframe that [`AnimatedF32::upsert`] makes: linear, with the default
/// control points (0.25, 0) and (0.75, 1).
pub open spec fn plain_key(time_us: i64, value: Scalar) -> Keyframe {
    Keyframe {
        time_us,
        value,
        interp: Interp::Linear,
        cp_x1: Scalar { bits: QUARTER_BITS },
        cp_y1: Scalar { bits: 0 },
        cp_x2: Scalar { bits: THREE_QUARTERS_BITS },
        cp_y2: Scalar { bits: ONE_BITS },
    }
}

impl Keyframe {
    pub fn plain(time_us: i64, value: Scalar) -> (k: Self)
        ensures
            k == plain_key(time_us, value),
    {
        Keyframe {
            time_us,
            value,
            interp: Interp::Linear,
            cp_x1: Scalar { bits: QUARTER_BITS },
            cp_y1: Scalar { bits: 0 },
            cp_x2: Scalar { bits: THREE_QUARTERS_BITS },
            cp_y2: Scalar { bits: ONE_BITS },
        }
    }
}

impl Default for Keyframe {
    fn default() -> (k: Self)
        ensures
            k == plain_key(0, Scalar { bits: 0 }),
    {
        Keyframe::plain(0, Scalar { bits: 0 })
    }
}

/// The order of keyframes: by time.
impl Ranked for Keyframe {
    open spec fn rank(&self) -> Rank {
        Rank { major: self.time_us as int, minor: 0 }
    }

    fn goes_after(&self, other: &Self) -> (r: bool) {
        other.time_us < self.time_us
    }
}

/// Whether a keyframe lies within `tol_us` of `time_us`.
pub open spec fn near(time_us: i64, tol_us: i64) -> spec_fn(Keyframe) -> bool {
    |k: Keyframe| -tol_us <= k.time_us - time_us <= tol_us
}

pub open spec fn not_near(time_us: i64, tol_us: i64) -> spec_fn(Keyframe) -> bool {
    |k: Keyframe| !near(time_us, tol_us)(k)
}

fn is_near(k: &Keyframe, time_us: i64, tol_us: i64) -> (r: bool)
    ensures
        r == near(time_us, tol_us)(*k),
{
    let d: i128 = k.time_us as i128 - time_us as i128;
    -(tol_us as i128) <= d && d <= tol_us as i128
}

/// What a channel says about its value at a time.
#[derive(Clone, Copy, Debug, PartialEq, Eq)]
pub enum Sample {
    /// This value.
    Held(Scalar),
    /// On the straight line between two values, `elapsed_us` of `span_us`
    /// after the first.
    Linear { from: Scalar, to: Scalar, elapsed_us: u64, span_us: u64 },
    /// On the Bezier curve between two values.
    Bezier {
        from: Scalar,
        to: Scalar,
        elapsed_us: u64,
        span_us: u64,
        cp_x1: Scalar,
        cp_y1: Scalar,
        cp_x2: Scalar,
        cp_y2: Scalar,
    },
}

/// A span of no length counts as one microsecond.
pub open spec fn span_between(a: Keyframe, b: Keyframe) -> int {
    if b.time_us - a.time_us > 1 {
        b.time_us - a.time_us
    } else {
        1
    }
}

/// The sample at `t_us`, which lies between the keyframes `a` and `b`.
pub open spec fn between(a: Keyframe, b: Keyframe, t_us: i64) -> Sample {
    match a.interp {
        Interp::Hold => Sample::Held(a.value),
        Interp::Linear => Sample::Linear {
            from: a.value,
            to: b.value,
            elapsed_us: (t_us - a.time_us) as u64,
            span_us: span_between(a, b) as u64,
        },
        Interp::Bezier => Sample::Bezier {
            from: a.value,
            to: b.value,
            elapsed_us: (t_us - a.time_us) as u64,
            span_us: span_between(a, b) as u64,
            cp_x1: a.cp_x1,
            cp_y1: a.cp_y1,
            cp_x2: a.cp_x2,
            cp_y2: a.cp_y2,
        },
    }
}

/// The neighbours in `keys`: each keyframe but the last with its successor.
pub open spec fn neighbours(keys: Seq<Keyframe>) -> Seq<(Keyframe, Keyframe)> {
    Seq::new((keys.len() - 1) as nat, |i: int| (keys[i], keys[i + 1]))
}

/// Whether a time lies between two keyframes. The time of the later one belongs
/// to what follows it.
pub open spec fn around(t_us: i64) -> spec_fn((Keyframe, Keyframe)) -> bool {
    |w: (Keyframe, Keyframe)| w.0.time_us <= t_us < w.1.time_us
}

/// What the channel `keys` says at `t_us`: the fallback without keyframes, the
/// first value until the first keyframe, the last value from the last keyframe
/// on, and in between what the first pair of neighbours around the time says.
pub open spec fn sample(keys: Seq<Keyframe>, t_us: i64, fallback: Scalar) -> Sample {
    if keys.len() == 0 {
        Sample::Held(fallback)
    } else if t_us <= keys[0].time_us {
        Sample::Held(keys[0].value)
    } else if t_us >= keys.last().time_us {
        Sample::Held(keys.last().value)
    } else {
        match seqs::first_where(neighbours(keys), around(t_us)) {
            Some(i) => between(keys[i], keys[i + 1], t_us),
            None => Sample::Held(keys.last().value),
        }
    }
}

/// The keyframes after setting `value` at `time_us`: the first one near it
/// takes the value; where none is near, a new one is put in order.
pub open spec fn upserted(
    new: Seq<Keyframe>,
    keys: Seq<Keyframe>,
    time_us: i64,
    value: Scalar,
    tol_us: i64,
) -> bool {
    match seqs::first_where(keys, near(time_us, tol_us)) {
        Some(i) => new == keys.update(i, Keyframe { value, ..keys[i] }),
        None => sorting::stably_sorted(new, keys.push(plain_key(time_us, value)), sorting::rank_of::<Keyframe>()),
    }
}

/// A property that may be animated: its keyframes. Without keyframes the
/// clip's own value holds.
#[derive(Debug, PartialEq, Eq)]
pub struct AnimatedF32 {
    keys: Vec<Keyframe>,
}

impl View for AnimatedF32 {
    type V = Seq<Keyframe>;

    closed spec fn view(&self) -> Seq<Keyframe> {
        self.keys@
    }
}

impl Clone for AnimatedF32 {
    fn clone(&self) -> (res: Self)
        ensures
            res@ == self@,
    {
        let mut keys: Vec<Keyframe> = Vec::new();
        let mut i: usize = 0;
        while i < self.keys.len()
            invariant
                i <= self.keys.len(),
                keys@ == self.keys@.take(i as int),
            decreases self.keys.len() - i,
        {
            keys.push(self.keys[i]);
            i = i + 1;
        }
        assert(keys@ =~= self.keys@);
        AnimatedF32 { keys }
    }
}

impl Default for AnimatedF32 {
    fn default() -> (res: Self)
        ensures
            res@ == Seq::<Keyframe>::empty(),
    {
        AnimatedF32 { keys: Vec::new() }
    }
}

impl AnimatedF32 {
    /// A channel with the given keyframes, in the order given.
    pub fn from_keys(keys: Vec<Keyframe>) -> (res: Self)
        ensures
            res@ == keys@,
    {
        AnimatedF32 { keys }
    }

    pub fn is_animated(&self) -> (r: bool)
        ensures
            r == (self@.len() > 0),
    {
        self.keys.len() > 0
    }

    pub fn keys(&self) -> (r: &[Keyframe])
        ensures
            r@ == self@,
    {
        self.keys.as_slice()
    }

    /// Read the channel at `t_us`.
    pub fn eval(&self, t_us: i64, fallback: Scalar) -> (r: Sample)
        ensures
            r == sample(self@, t_us, fallback),
    {
        let n: usize = self.keys.len();
        if n == 0 {
            return Sample::Held(fallback);
        }
        let first: Keyframe = self.keys[0];
        let last: Keyframe = self.keys[n - 1];
        if t_us <= first.time_us {
            return Sample::Held(first.value);
        }
        if t_us >= last.time_us {
            return Sample::Held(last.value);
        }
        let ghost pairs = neighbours(self.keys@);
        let mut i: usize = 0;
        while i + 1 < n
            invariant
                n == self.keys.len(),
                0 <= i < n,
                pairs == neighbours(self.keys@),
                self.keys@ == self@,
                self@[0].time_us < t_us < self@.last().time_us,
                forall|j: int| 0 <= j < i ==> !around(t_us)(#[trigger] pairs[j]),
            decreases n - i,
        {
            let a: Keyframe = self.keys[i];
            let b: Keyframe = self.keys[i + 1];
            if t_us >= a.time_us && t_us < b.time_us {
                proof {
                    assert(pairs[i as int] == (a, b));
                    seqs::lemma_first_where_found(pairs, around(t_us), i as int);
                }
                let elapsed_us: u64 = (t_us as i128 - a.time_us as i128) as u64;
                let gap: i128 = b.time_us as i128 - a.time_us as i128;
                let span_us: u64 = if gap > 1 {
                    gap as u64
                } else {
                    1
                };
                return match a.interp {
                    Interp::Hold => Sample::Held(a.value),
                    Interp::Linear => Sample::Linear {
                        from: a.value,
                        to: b.value,
                        elapsed_us,
                        span_us,
                    },
                    Interp::Bezier => Sample::Bezier {
                        from: a.value,
                        to: b.value,
                        elapsed_us,
                        span_us,
                        cp_x1: a.cp_x1,
                        cp_y1: a.cp_y1,
                        cp_x2: a.cp_x2,
                        cp_y2: a.cp_y2,
                    },
                };
            }
            assert(pairs[i as int] == (a, b));
            i = i + 1;
        }
        proof {
            seqs::lemma_first_where_none(pairs, around(t_us));
        }
        Sample::Held(last.value)
    }

    /// The place of the first keyframe near `time_us`.
    fn position_near(&self, time_us: i64, tol_us: i64) -> (r: Option<usize>)
        ensures
            match r {
                Some(i) => i < self@.len() && seqs::first_where(self@, near(time_us, tol_us)) == Some(
                    i as int,
                ) && seqs::is_first(self@, near(time_us, tol_us), i as int),
                None => seqs::first_where(self@, near(time_us, tol_us)) is None && forall|j: int|
                    0 <= j < self@.len() ==> !near(time_us, tol_us)(#[trigger] self@[j]),
            },
    {
        let mut i: usize = 0;
        while i < self.keys.len()
            invariant
                i <= self.keys.len(),
                forall|j: int| 0 <= j < i ==> !near(time_us, tol_us)(#[trigger] self.keys@[j]),
            decreases self.keys.len() - i,
        {
            if is_near(&self.keys[i], time_us, tol_us) {
                proof {
                    seqs::lemma_first_where_found(self.keys@, near(time_us, tol_us), i as int);
                }
                return Some(i);
            }
            i = i + 1;
        }
        proof {
            seqs::lemma_first_where_none(self.keys@, near(time_us, tol_us));
        }
        None
    }

    /// Set `value` at `time_us`: on a keyframe within `tol_us` where there is
    /// one, else on a new one. Keyframes that were in order stay so.
    pub fn upsert(&mut self, time_us: i64, value: Scalar, tol_us: i64)
        ensures
            upserted(final(self)@, old(self)@, time_us, value, tol_us),
            sorting::in_order(old(self)@, sorting::rank_of::<Keyframe>()) ==> sorting::in_order(
                final(self)@,
                sorting::rank_of::<Keyframe>(),
            ),
    {
        match self.position_near(time_us, tol_us) {
            Some(i) => {
                let k: Keyframe = self.keys[i];
                let changed: Keyframe = Keyframe { value, ..k };
                self.keys.set(i, changed);
                proof {
                    let (was, now) = (old(self)@, self.keys@);
                    let rank = sorting::rank_of::<Keyframe>();
                    if sorting::in_order(was, rank) {
                        assert forall|a: int, b: int|
                            #![trigger now[a], now[b]]
                            0 <= a <= b < now.len() implies !sorting::before(
                            rank(now[b]),
                            rank(now[a]),
                        ) by {
                            assert(!sorting::before(rank(was[b]), rank(was[a])));
                        }
                    }
                }
            },
            None => {
                self.keys.push(Keyframe::plain(time_us, value));
                sort_stable(&mut self.keys);
            },
        }
    }

    /// Remove the keyframes within `tol_us` of `time_us`. Tells whether there
    /// were any.
    pub fn remove_near(&mut self, time_us: i64, tol_us: i64) -> (removed: bool)
        ensures
            final(self)@ == old(self)@.filter(not_near(time_us, tol_us)),
            removed == exists|j: int|
                0 <= j < old(self)@.len() && near(time_us, tol_us)(#[trigger] old(self)@[j]),
            forall|j: int|
                0 <= j < final(self)@.len() ==> old(self)@.contains(#[trigger] final(self)@[j]) && (
                final(self)@[j].time_us < time_us - tol_us || final(self)@[j].time_us > time_us
                    + tol_us),
            forall|j: int|
                0 <= j < old(self)@.len() && ((#[trigger] old(self)@[j]).time_us < time_us - tol_us
                    || old(self)@[j].time_us > time_us + tol_us) ==> final(self)@.contains(
                    old(self)@[j],
                ),
    {
        proof {
            seqs::lemma_filtered(old(self)@, not_near(time_us, tol_us));
        }
        let ghost keep = not_near(time_us, tol_us);
        let mut kept: Vec<Keyframe> = Vec::new();
        let mut removed: bool = false;
        let mut i: usize = 0;
        while i < self.keys.len()
            invariant
                i <= self.keys.len(),
                keep == not_near(time_us, tol_us),
                self.keys@ == old(self).keys@,
                kept@ == self.keys@.take(i as int).filter(keep),
                removed == exists|j: int|
                    0 <= j < i && near(time_us, tol_us)(#[trigger] self.keys@[j]),
            decreases self.keys.len() - i,
        {
            let k: Keyframe = self.keys[i];
            proof {
                reveal(Seq::filter);
                assert(self.keys@.take(i + 1).drop_last() =~= self.keys@.take(i as int));
            }
            if is_near(&k, time_us, tol_us) {
                removed = true;
            } else {
                kept.push(k);
            }
            i = i + 1;
        }
        assert(self.keys@.take(i as int) =~= self.keys@);
        self.keys = kept;
        removed
    }

    pub fn has_key_near(&self, time_us: i64, tol_us: i64) -> (r: bool)
        ensures
            r == exists|j: int|
                0 <= j < self@.len() && near(time_us, tol_us)(#[trigger] self@[j]),
    {
        self.position_near(time_us, tol_us).is_some()
    }

    /// The interpolation of the first keyframe near `time_us`.
    pub fn keyframe_interp_near(&self, time_us: i64, tol_us: i64) -> (r: Option<Interp>)
        ensures
            r == match seqs::first_where(self@, near(time_us, tol_us)) {
                Some(i) => Some(self@[i].interp),
                None => None,
            },
    {
        match self.position_near(time_us, tol_us) {
            Some(i) => Some(self.keys[i].interp),
            None => None,
        }
    }

    /// Set the interpolation of the first keyframe near `time_us`.
    pub fn set_interp_near(&mut self, time_us: i64, interp: Interp, tol_us: i64)
        ensures
            final(self)@ == match seqs::first_where(old(self)@, near(time_us, tol_us)) {
                Some(i) => old(self)@.update(i, Keyframe { interp, ..old(self)@[i] }),
                None => old(self)@,
            },
            final(self)@.len() == old(self)@.len(),
            forall|j: int|
                0 <= j < old(self)@.len() ==> (#[trigger] final(self)@[j]).time_us
                    == old(self)@[j].time_us && final(self)@[j].value == old(self)@[j].value && (
                final(self)@[j].interp == old(self)@[j].interp || final(self)@[j].interp == interp
                    && time_us - tol_us <= old(self)@[j].time_us <= time_us + tol_us),
    {
        match self.position_near(time_us, tol_us) {
            Some(i) => {
                let k: Keyframe = self.keys[i];
                let changed: Keyframe = Keyframe { interp, ..k };
                self.keys.set(i, changed);
            },
            None => {},
        }
    }
}

/// Between the first and the last of keyframes that are in order, the sample is
/// taken from two neighbours around the time.
pub proof fn lemma_sample_is_taken_around(keys: Seq<Keyframe>, t_us: i64, fallback: Scalar)
    requires
        sorting::in_order(keys, sorting::rank_of::<Keyframe>()),
        keys.len() > 0,
        keys[0].time_us < t_us < keys.last().time_us,
    ensures
        exists|i: int|
            0 <= i < keys.len() - 1 && keys[i].time_us <= t_us < keys[i + 1].time_us && sample(
                keys,
                t_us,
                fallback,
            ) == #[trigger] between(keys[i], keys[i + 1], t_us),
{
    let pairs = neighbours(keys);
    seqs::lemma_first_where(pairs, around(t_us));
    if seqs::first_where(pairs, around(t_us)) is None {
        lemma_some_pair_is_around(keys, t_us, keys.len() - 1);
    } else {
        let i = seqs::first_where(pairs, around(t_us))->0;
        assert(pairs[i] == (keys[i], keys[i + 1]));
        assert(sample(keys, t_us, fallback) == between(keys[i], keys[i + 1], t_us));
    }
}

proof fn lemma_some_pair_is_around(keys: Seq<Keyframe>, t_us: i64, n: int)
    requires
        0 <= n < keys.len(),
        keys[0].time_us < t_us,
        t_us < keys[n].time_us,
    ensures
        exists|i: int|
            0 <= i < neighbours(keys).len() && around(t_us)(#[trigger] neighbours(keys)[i]),
    decreases n,
{
    if n > 0 {
        if keys[n - 1].time_us <= t_us {
            assert(around(t_us)(neighbours(keys)[n - 1]));
        } else {
            lemma_some_pair_is_around(keys, t_us, n - 1);
        }
    }
}

/// Keyframes at different times, in the order of time.
pub open spec fn one_after_another(keys: Seq<Keyframe>) -> bool {
    forall|i: int, j: int|
        0 <= i < j < keys.len() ==> (#[trigger] keys[i]).time_us < (#[trigger] keys[j]).time_us
}

/// Whether a sample is at `value`, from where it may go on to another.
pub open spec fn sets_out_from(s: Sample, value: Scalar) -> bool {
    match s {
        Sample::Held(v) => v == value,
        Sample::Linear { from, elapsed_us, .. } => from == value && elapsed_us == 0,
        Sample::Bezier { from, elapsed_us, .. } => from == value && elapsed_us == 0,
    }
}

/// At the time of a keyframe the channel is at the value of that keyframe,
/// whatever the keyframe before it says.
pub proof fn lemma_sample_at_a_keyframe(keys: Seq<Keyframe>, i: int, fallback: Scalar)
    requires
        one_after_another(keys),
        0 <= i < keys.len(),
    ensures
        sets_out_from(sample(keys, keys[i].time_us, fallback), keys[i].value),
{
    let t_us = keys[i].time_us;
    if 0 < i < keys.len() - 1 {
        let pairs = neighbours(keys);
        assert(keys[0].time_us < t_us < keys.last().time_us);
        assert forall|j: int| 0 <= j < i implies !around(t_us)(#[trigger] pairs[j]) by {
            assert(pairs[j] == (keys[j], keys[j + 1]));
            if j + 1 < i {
                assert(keys[j + 1].time_us < keys[i].time_us);
            }
        }
        assert(pairs[i] == (keys[i], keys[i + 1]));
        seqs::lemma_first_where_found(pairs, around(t_us), i);
    } else if i > 0 {
        assert(keys[0].time_us < t_us);
    }
}

/// The properties that can be animated.
#[derive(Clone, Copy, Debug, PartialEq, Eq, Structural)]
pub enum TransformChannel {
    Opacity,
    Scale,
    ScaleX,
    ScaleY,
    PositionX,
    PositionY,
    Rotation,
}

impl TransformChannel {
    /// The channel with the given number, counted from 0 in the order in which
    /// the channels are declared.
    pub fn from_id(id: i32) -> (r: Option<Self>)
        ensures
            r == (if id == 0 {
                Some(TransformChannel::Opacity)
            } else if id == 1 {
                Some(TransformChannel::Scale)
            } else if id == 2 {
                Some(TransformChannel::ScaleX)
            } else if id == 3 {
                Some(TransformChannel::ScaleY)
            } else if id == 4 {
                Some(TransformChannel::PositionX)
            } else if id == 5 {
                Some(TransformChannel::PositionY)
            } else if id == 6 {
                Some(TransformChannel::Rotation)
            } else {
                None
            }),
    {
        match id {
            0 => Some(TransformChannel::Opacity),
            1 => Some(TransformChannel::Scale),
            2 => Some(TransformChannel::ScaleX),
            3 => Some(TransformChannel::ScaleY),
            4 => Some(TransformChannel::PositionX),
            5 => Some(TransformChannel::PositionY),
            6 => Some(TransformChannel::Rotation),
            _ => None,
        }
    }
}

/// The keyframes of every channel.
#[derive(Debug, PartialEq, Eq)]
pub struct TransformKeys {
    pub opacity: AnimatedF32,
    pub scale: AnimatedF32,
    pub scale_x: AnimatedF32,
    pub scale_y: AnimatedF32,
    pub position_x: AnimatedF32,
    pub position_y: AnimatedF32,
    pub rotation_deg: AnimatedF32,
}

#[verifier::ext_equal]
pub struct TransformKeysView {
    pub opacity: Seq<Keyframe>,
    pub scale: Seq<Keyframe>,
    pub scale_x: Seq<Keyframe>,
    pub scale_y: Seq<Keyframe>,
    pub position_x: Seq<Keyframe>,
    pub position_y: Seq<Keyframe>,
    pub rotation_deg: Seq<Keyframe>,
}

impl TransformKeysView {
    pub open spec fn channel(self, ch: TransformChannel) -> Seq<Keyframe> {
        match ch {
            TransformChannel::Opacity => self.opacity,
            TransformChannel::Scale => self.scale,
            TransformChannel::ScaleX => self.scale_x,
            TransformChannel::ScaleY => self.scale_y,
            TransformChannel::PositionX => self.position_x,
            TransformChannel::PositionY => self.position_y,
            TransformChannel::Rotation => self.rotation_deg,
        }
    }

    pub open spec fn with_channel(self, ch: TransformChannel, keys: Seq<Keyframe>) -> Self {
        match ch {
            TransformChannel::Opacity => TransformKeysView { opacity: keys, ..self },
            TransformChannel::Scale => TransformKeysView { scale: keys, ..self },
            TransformChannel::ScaleX => TransformKeysView { scale_x: keys, ..self },
            TransformChannel::ScaleY => TransformKeysView { scale_y: keys, ..self },
            TransformChannel::PositionX => TransformKeysView { position_x: keys, ..self },
            TransformChannel::PositionY => TransformKeysView { position_y: keys, ..self },
            TransformChannel::Rotation => TransformKeysView { rotation_deg: keys, ..self },
        }
    }

    /// No channel has a keyframe.
    pub open spec fn still() -> Self {
        TransformKeysView {
            opacity: Seq::empty(),
            scale: Seq::empty(),
            scale_x: Seq::empty(),
            scale_y: Seq::empty(),
            position_x: Seq::empty(),
            position_y: Seq::empty(),
            rotation_deg: Seq::empty(),
        }
    }
}

impl View for TransformKeys {
    type V = TransformKeysView;

    open spec fn view(&self) -> TransformKeysView {
        TransformKeysView {
            opacity: self.opacity@,
            scale: self.scale@,
            scale_x: self.scale_x@,
            scale_y: self.scale_y@,
            position_x: self.position_x@,
            position_y: self.position_y@,
            rotation_deg: self.rotation_deg@,
        }
    }
}

impl Clone for TransformKeys {
    fn clone(&self) -> (res: Self)
        ensures
            res@ == self@,
    {
        TransformKeys {
            opacity: self.opacity.clone(),
            scale: self.scale.clone(),
            scale_x: self.scale_x.clone(),
            scale_y: self.scale_y.clone(),
            position_x: self.position_x.clone(),
            position_y: self.position_y.clone(),
            rotation_deg: self.rotation_deg.clone(),
        }
    }
}

impl Default for TransformKeys {
    fn default() -> (res: Self)
        ensures
            res@ == TransformKeysView::still(),
    {
        TransformKeys {
            opacity: AnimatedF32::default(),
            scale: AnimatedF32::default(),
            scale_x: AnimatedF32::default(),
            scale_y: AnimatedF32::default(),
            position_x: AnimatedF32::default(),
            position_y: AnimatedF32::default(),
            rotation_deg: AnimatedF32::default(),
        }
    }
}

impl TransformKeys {
    pub fn channel(&self, ch: TransformChannel) -> (r: &AnimatedF32)
        ensures
            r@ == self@.channel(ch),
    {
        match ch {
            TransformChannel::Opacity => &self.opacity,
            TransformChannel::Scale => &self.scale,
            TransformChannel::ScaleX => &self.scale_x,
            TransformChannel::ScaleY => &self.scale_y,
            TransformChannel::PositionX => &self.position_x,
            TransformChannel::PositionY => &self.position_y,
            TransformChannel::Rotation => &self.rotation_deg,
        }
    }

    pub fn channel_mut(&mut self, ch: TransformChannel) -> (r: &mut AnimatedF32)
        ensures
            r@ == old(self)@.channel(ch),
            final(self)@ == old(self)@.with_channel(ch, final(r)@),
    {
        match ch {
            TransformChannel::Opacity => &mut self.opacity,
            TransformChannel::Scale => &mut self.scale,
            TransformChannel::ScaleX => &mut self.scale_x,
            TransformChannel::ScaleY => &mut self.scale_y,
            TransformChannel::PositionX => &mut self.position_x,
            TransformChannel::PositionY => &mut self.position_y,
            TransformChannel::Rotation => &mut self.rotation_deg,
        }
    }

    /// Whether any channel has a keyframe.
    pub fn is_animated(&self) -> (r: bool)
        ensures
            r == exists|ch: TransformChannel| (#[trigger] self@.channel(ch)).len() > 0,
    {
        let r: bool = self.opacity.is_animated() || self.scale.is_animated()
            || self.scale_x.is_animated() || self.scale_y.is_animated()
            || self.position_x.is_animated() || self.position_y.is_animated()
            || self.rotation_deg.is_animated();
        proof {
            assert(self@.channel(TransformChannel::Opacity) == self.opacity@);
            assert(self@.channel(TransformChannel::Scale) == self.scale@);
            assert(self@.channel(TransformChannel::ScaleX) == self.scale_x@);
            assert(self@.channel(TransformChannel::ScaleY) == self.scale_y@);
            assert(self@.channel(TransformChannel::PositionX) == self.position_x@);
            assert(self@.channel(TransformChannel::PositionY) == self.position_y@);
            assert(self@.channel(TransformChannel::Rotation) == self.rotation_deg@);
        }
        r
    }
}

/// Pixels cut off the edges of the source picture before it is scaled.
#[derive(Clone, Copy, Debug, PartialEq, Eq, Structural)]
pub struct Crop {
    pub left: u32,
    pub top: u32,
    pub right: u32,
    pub bottom: u32,
}

impl Crop {
    pub open spec fn cuts_nothing(self) -> bool {
        self.left == 0 && self.top == 0 && self.right == 0 && self.bottom == 0
    }

    /// Whether the crop cuts nothing at all.
    pub fn is_noop(&self) -> (r: bool)
        ensures
            r == self.cuts_nothing(),
    {
        self.left == 0 && self.top == 0 && self.right == 0 && self.bottom == 0
    }
}

/// Lift, gamma and gain for each colour, temperature, tint and vignette.
#[derive(Clone, Copy, Debug, PartialEq, Eq, Structural)]
pub struct ColorGrading {
    pub lift_r: Scalar,
    pub lift_g: Scalar,
    pub lift_b: Scalar,
    pub gamma_r: Scalar,
    pub gamma_g: Scalar,
    pub gamma_b: Scalar,
    pub gain_r: Scalar,
    pub gain_g: Scalar,
    pub gain_b: Scalar,
    pub temperature: Scalar,
    pub tint: Scalar,
    pub vignette: Scalar,
}

impl ColorGrading {
    /// Gamma and gain one, everything else zero.
    pub open spec fn neutral() -> Self {
        let zero = Scalar { bits: 0 };
        let one = Scalar { bits: ONE_BITS };
        ColorGrading {
            lift_r: zero,
            lift_g: zero,
            lift_b: zero,
            gamma_r: one,
            gamma_g: one,
            gamma_b: one,
            gain_r: one,
            gain_g: one,
            gain_b: one,
            temperature: zero,
            tint: zero,
            vignette: zero,
        }
    }

    /// No colour is changed, to within a thousandth: gamma and gain are near
    /// one, everything else is near zero.
    pub open spec fn leaves_colours(self) -> bool {
        &&& self.lift_r.near_zero() && self.lift_g.near_zero() && self.lift_b.near_zero()
        &&& self.gamma_r.near_one() && self.gamma_g.near_one() && self.gamma_b.near_one()
        &&& self.gain_r.near_one() && self.gain_g.near_one() && self.gain_b.near_one()
        &&& self.temperature.near_zero()
        &&& self.tint.near_zero()
        &&& self.vignette.near_zero()
    }

    /// Whether the grading leaves every colour as it is.
    pub fn is_neutral(&self) -> (r: bool)
        ensures
            r == self.leaves_colours(),
    {
        self.lift_r.is_near_zero() && self.lift_g.is_near_zero() && self.lift_b.is_near_zero()
            && self.gamma_r.is_near_one() && self.gamma_g.is_near_one()
            && self.gamma_b.is_near_one() && self.gain_r.is_near_one()
            && self.gain_g.is_near_one() && self.gain_b.is_near_one()
            && self.temperature.is_near_zero() && self.tint.is_near_zero()
            && self.vignette.is_near_zero()
    }
}

impl Default for ColorGrading {
    fn default() -> (r: Self)
        ensures
            r == ColorGrading::neutral(),
    {
        let zero: Scalar = Scalar::zero();
        let one: Scalar = Scalar::one();
        ColorGrading {
            lift_r: zero,
            lift_g: zero,
            lift_b: zero,
            gamma_r: one,
            gamma_g: one,
            gamma_b: one,
            gain_r: one,
            gain_g: one,
            gain_b: one,
            temperature: zero,
            tint: zero,
            vignette: zero,
        }
    }
}

/// The place of a clip on one axis: the clip's own, or that of a channel.
#[derive(Clone, Copy, Debug, PartialEq, Eq)]
pub enum PositionSample {
    Static(i32),
    Animated(Sample),
}

/// Everything about a clip's look at one time. The scale on an axis is the
/// product of `scale` and that axis's own scale.
#[derive(Clone, Copy, Debug, PartialEq, Eq)]
pub struct TransformSamples {
    pub opacity: Sample,
    pub scale: Sample,
    pub scale_x: Sample,
    pub scale_y: Sample,
    pub position_x: PositionSample,
    pub position_y: PositionSample,
    pub rotation_deg: Sample,
    pub flip_h: bool,
    pub flip_v: bool,
    pub crop: Option<Crop>,
    pub brightness: Scalar,
    pub contrast: Scalar,
    pub saturation: Scalar,
    pub color_grading: ColorGrading,
}

/// The values that renderers place a clip by.
#[derive(Clone, Copy, Debug, PartialEq, Eq)]
pub struct ResolvedTransform {
    pub opacity: Scalar,
    pub scale_x: Scalar,
    pub scale_y: Scalar,
    pub position_x: i32,
    pub position_y: i32,
    pub rotation_deg: Scalar,
    pub flip_h: bool,
    pub flip_v: bool,
    pub crop: Option<Crop>,
    pub brightness: Scalar,
    pub contrast: Scalar,
    pub saturation: Scalar,
    pub color_grading: ColorGrading,
}

impl ResolvedTransform {
    /// The clip as it is, filling the canvas.
    pub open spec fn plain() -> Self {
        let zero = Scalar { bits: 0 };
        let one = Scalar { bits: ONE_BITS };
        ResolvedTransform {
            opacity: one,
            scale_x: one,
            scale_y: one,
            position_x: 0,
            position_y: 0,
            rotation_deg: zero,
            flip_h: false,
            flip_v: false,
            crop: None,
            brightness: zero,
            contrast: one,
            saturation: one,
            color_grading: ColorGrading::neutral(),
        }
    }

    /// Nothing visible is changed, to within a thousandth.
    pub open spec fn changes_nothing(self) -> bool {
        &&& self.opacity.at_least_one()
        &&& self.scale_x.near_one()
        &&& self.scale_y.near_one()
        &&& self.position_x == 0
        &&& self.position_y == 0
        &&& self.rotation_deg.near_zero()
        &&& !self.flip_h
        &&& !self.flip_v
        &&& (self.crop matches Some(c) ==> c.cuts_nothing())
        &&& self.brightness.near_zero()
        &&& self.contrast.near_one()
        &&& self.saturation.near_one()
        &&& self.color_grading.leaves_colours()
    }

    /// Whether the clip fills the canvas unchanged, so that a renderer can take
    /// it as it is.
    pub fn is_identity(&self) -> (r: bool)
        ensures
            r == self.changes_nothing(),
    {
        let crop_ok: bool = match self.crop {
            Some(c) => c.is_noop(),
            None => true,
        };
        self.opacity.is_at_least_one() && self.scale_x.is_near_one()
            && self.scale_y.is_near_one() && self.position_x == 0 && self.position_y == 0
            && self.rotation_deg.is_near_zero() && !self.flip_h && !self.flip_v && crop_ok
            && self.brightness.is_near_zero() && self.contrast.is_near_one()
            && self.saturation.is_near_one() && self.color_grading.is_neutral()
    }
}

impl Default for ResolvedTransform {
    fn default() -> (r: Self)
        ensures
            r == ResolvedTransform::plain(),
    {
        let zero: Scalar = Scalar::zero();
        let one: Scalar = Scalar::one();
        ResolvedTransform {
            opacity: one,
            scale_x: one,
            scale_y: one,
            position_x: 0,
            position_y: 0,
            rotation_deg: zero,
            flip_h: false,
            flip_v: false,
            crop: None,
            brightness: zero,
            contrast: one,
            saturation: one,
            color_grading: ColorGrading::default(),
        }
    }
}

} // verus!
