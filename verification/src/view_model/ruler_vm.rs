//! The ticks of the time ruler.

use vstd::prelude::*;
use vstd::string::*;

use crate::text;

verus! {

/// A tick at a whole second.
#[derive(Clone, Copy, Debug, PartialEq, Eq)]
pub struct Tick {
    pub label_secs: u32,
    /// Whether it has a label.
    pub major: bool,
}

/// No ruler has more ticks.
pub const MAX_TICKS: usize = 4000;

/// The steps between labels, in seconds.
pub open spec fn ladder() -> Seq<u32> {
    seq![1u32, 2, 5, 10, 15, 30, 60, 120, 300, 600, 1800, 3600]
}

/// `step` is the least step of the ladder that is at least `raw`, or its last
/// one where none is.
pub open spec fn is_step_for(step: u32, raw: u32) -> bool {
    if raw > 3600 {
        step == 3600
    } else {
        &&& ladder().contains(step)
        &&& step >= raw
        &&& forall|s: u32| #[trigger] ladder().contains(s) && s >= raw ==> step <= s
    }
}

/// The least step of the ladder that is at least `raw`.
pub fn snap_step(raw: u32) -> (step: u32)
    ensures
        is_step_for(step, raw),
        1 <= step <= 3600,
{
    let steps: [u32; 12] = [1, 2, 5, 10, 15, 30, 60, 120, 300, 600, 1800, 3600];
    assert(steps@ =~= ladder());
    let mut i: usize = 0;
    while i < 12
        invariant
            i <= 12,
            steps@ == ladder(),
            forall|j: int| 0 <= j < i ==> #[trigger] ladder()[j] < raw,
        decreases 12 - i,
    {
        if steps[i] >= raw {
            proof {
                let step = steps@[i as int];
                assert(ladder().contains(step));
                assert(ladder()[11] == 3600);
                assert forall|s: u32| #[trigger] ladder().contains(s) && s >= raw implies step
                    <= s by {
                    let j = choose|j: int| 0 <= j < ladder().len() && ladder()[j] == s;
                    assert(j >= i);
                }
            }
            return steps[i];
        }
        i = i + 1;
    }
    assert(ladder()[11] == 3600);
    3600
}

/// The step between ticks where labels are `step` seconds apart: a sixth of a
/// minute and more, a fifth of less, and at least a second.
pub open spec fn minor_step(step: u32) -> int {
    let part = if step >= 60 {
        step as int / 6
    } else {
        step as int / 5
    };
    if part < 1 {
        1
    } else {
        part
    }
}

/// How many ticks a ruler of `total_secs` has.
pub open spec fn tick_count(step: u32, total_secs: u32) -> int {
    let all = total_secs as int / minor_step(step) + 1;
    if all > MAX_TICKS {
        MAX_TICKS as int
    } else {
        all
    }
}

/// The `i`-th tick.
pub open spec fn tick_at(step: u32, i: int) -> Tick {
    Tick {
        label_secs: (i * minor_step(step)) as u32,
        major: (i * minor_step(step)) % (step as int) == 0,
    }
}

/// The ticks of a ruler of `total_secs` whose labels are `step` seconds apart.
pub open spec fn ruler(step: u32, total_secs: u32) -> Seq<Tick> {
    Seq::new(tick_count(step, total_secs) as nat, |i: int| tick_at(step, i))
}

/// The ticks of a ruler of `total_secs` seconds whose labels are to be at least
/// `step_at_least` seconds apart.
pub fn ticks(step_at_least: u32, total_secs: u32) -> (out: Vec<Tick>)
    ensures
        exists|step: u32|
            is_step_for(step, step_at_least) && out@ == #[trigger] ruler(step, total_secs),
        0 < out@.len() <= MAX_TICKS,
{
    let step: u32 = snap_step(step_at_least);
    let part: u32 = if step >= 60 {
        step / 6
    } else {
        step / 5
    };
    let minor: u32 = if part < 1 {
        1
    } else {
        part
    };
    assert(minor == minor_step(step));
    let all: u32 = total_secs / minor;
    let count: usize = if all as usize >= MAX_TICKS {
        MAX_TICKS
    } else {
        all as usize + 1
    };
    assert(count == tick_count(step, total_secs));
    let ghost expected = ruler(step, total_secs);
    let mut out: Vec<Tick> = Vec::new();
    let mut t: u32 = 0;
    let mut i: usize = 0;
    assert(out@ =~= expected.take(0));
    while i < count
        invariant
            i <= count <= MAX_TICKS,
            count == expected.len(),
            1 <= step <= 3600,
            1 <= minor <= 600,
            minor == minor_step(step),
            t == i * minor,
            expected == ruler(step, total_secs),
            out@ == expected.take(i as int),
        decreases count - i,
    {
        assert(t <= 4000 * 600) by (nonlinear_arith)
            requires
                t == i * minor,
                i <= 4000,
                minor <= 600,
        ;
        let tick: Tick = Tick { label_secs: t, major: t % step == 0 };
        out.push(tick);
        assert(expected[i as int] == tick);
        assert(expected.take(i + 1) =~= expected.take(i as int).push(tick));
        assert((i + 1) * minor == i * minor + minor) by (nonlinear_arith);
        t = t + minor;
        i = i + 1;
    }
    assert(expected.take(i as int) =~= expected);
    out
}

/// A time in seconds as `M:SS`, or as `H:MM:SS` from an hour on.
pub open spec fn label_of(s: int) -> Seq<char> {
    if s >= 3600 {
        text::dec((s / 3600) as nat) + ":"@ + text::dec_padded((s % 3600 / 60) as nat, 2) + ":"@
            + text::dec_padded((s % 60) as nat, 2)
    } else {
        text::dec((s % 3600 / 60) as nat) + ":"@ + text::dec_padded((s % 60) as nat, 2)
    }
}

/// The label of a tick.
pub fn format_label_secs(s: u32) -> (out: String)
    ensures
        out@ == label_of(s as int),
{
    let mut out: String = String::new();
    if s >= 3600 {
        text::push_dec(&mut out, (s / 3600) as u128);
        assert(out@ =~= text::dec((s / 3600) as nat));
        out.append(":");
        text::push_dec_padded(&mut out, (s % 3600 / 60) as u128, 2);
    } else {
        text::push_dec(&mut out, (s % 3600 / 60) as u128);
        assert(out@ =~= text::dec((s % 3600 / 60) as nat));
    }
    out.append(":");
    text::push_dec_padded(&mut out, (s % 60) as u128, 2);
    out
}

/// What is written at a tick: nothing where it has no label.
pub fn tick_label(tick: &Tick) -> (out: String)
    ensures
        out@ == if tick.major {
            label_of(tick.label_secs as int)
        } else {
            Seq::empty()
        },
{
    if tick.major {
        format_label_secs(tick.label_secs)
    } else {
        let out: String = String::new();
        assert(out@ =~= Seq::empty());
        out
    }
}

/// Ticks never come closer than their step, and every label stands at a
/// multiple of the label step.
pub proof fn lemma_ticks_are_evenly_spaced(step: u32, total_secs: u32, i: int)
    requires
        1 <= step <= 3600,
        0 <= i < tick_count(step, total_secs) - 1,
    ensures
        tick_at(step, i + 1).label_secs - tick_at(step, i).label_secs == minor_step(step),
        tick_at(step, 0).label_secs == 0 && tick_at(step, 0).major,
        tick_at(step, i + 1).label_secs <= total_secs,
{
    let m = minor_step(step);
    assert(1 <= m <= 600);
    let all = total_secs as int / m;
    assert(all * m <= total_secs) by (nonlinear_arith)
        requires
            all == total_secs as int / m,
            m >= 1,
    ;
    assert((i + 1) * m == i * m + m) by (nonlinear_arith);
    assert((i + 1) * m <= all * m) by (nonlinear_arith)
        requires
            i + 1 <= all,
            m >= 1,
    ;
    assert(0 <= i * m) by (nonlinear_arith)
        requires
            i >= 0,
            m >= 1,
    ;
    assert(0 * m == 0) by (nonlinear_arith);
}

} // verus!
