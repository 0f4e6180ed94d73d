//! Waveforms, and the samples that go to the sound device.

use vstd::prelude::*;
use vstd::string::*;

use crate::ident;
use crate::ident::ClipId;
use crate::paths;
use crate::scalar::Scalar;

verus! {

/// Samples a second.
pub const SAMPLE_RATE: u32 = 48_000;

pub const CHANNELS: u16 = 2;

/// So many samples make a peak of the waveform.
pub const BUCKET_SAMPLES: usize = 480;

/// How long a peak stands for, in microseconds.
pub const BUCKET_US: u32 = 10_000;

/// The bits of positive infinity.
pub const INFINITY_BITS: u32 = 0x7f80_0000;

/// The bits of negative infinity.
pub const NEG_INFINITY_BITS: u32 = 0xff80_0000;

/// The least and the greatest sample of a stretch of sound.
#[derive(Clone, Copy, Debug, PartialEq, Eq, Structural)]
pub struct Peak {
    pub min: Scalar,
    pub max: Scalar,
}

/// The waveform of a sound.
#[derive(Debug)]
pub struct WaveformPeaks {
    pub bucket_us: u32,
    pub peaks: Vec<Peak>,
}

#[verifier::ext_equal]
pub struct WaveformView {
    pub bucket_us: u32,
    pub peaks: Seq<Peak>,
}

impl View for WaveformPeaks {
    type V = WaveformView;

    open spec fn view(&self) -> WaveformView {
        WaveformView { bucket_us: self.bucket_us, peaks: self.peaks@ }
    }
}

/// The four bytes of a number, the least significant first.
pub open spec fn le4(x: u32) -> Seq<u8> {
    seq![
        (x % 256) as u8,
        (x / 256 % 256) as u8,
        (x / 65_536 % 256) as u8,
        (x / 16_777_216) as u8,
    ]
}

/// The number that four bytes from `at` on stand for.
pub open spec fn from_le4(s: Seq<u8>, at: int) -> u32 {
    (s[at] + 256 * s[at + 1] + 65_536 * s[at + 2] + 16_777_216 * s[at + 3]) as u32
}

/// What a waveform file begins with.
pub open spec fn magic() -> Seq<u8> {
    seq![67u8, 87u8, 86u8, 49u8]
}

/// The bytes of the first `n` peaks.
pub open spec fn peak_bytes(peaks: Seq<Peak>, n: int) -> Seq<u8>
    decreases n,
{
    if n <= 0 {
        Seq::empty()
    } else {
        peak_bytes(peaks, n - 1) + le4(peaks[n - 1].min.bits) + le4(peaks[n - 1].max.bits)
    }
}

/// The bytes of a waveform file: the magic, the length of a bucket, the number
/// of peaks, and of each peak its least and its greatest sample.
pub open spec fn file_bytes(w: WaveformView) -> Seq<u8> {
    magic() + le4(w.bucket_us) + le4(w.peaks.len() as u32) + peak_bytes(
        w.peaks,
        w.peaks.len() as int,
    )
}

/// The `i`-th peak of a waveform file.
pub open spec fn peak_in(s: Seq<u8>, i: int) -> Peak {
    Peak {
        min: Scalar { bits: from_le4(s, 12 + 8 * i) },
        max: Scalar { bits: from_le4(s, 16 + 8 * i) },
    }
}

/// What is wrong with a waveform file.
#[derive(Clone, Copy, Debug, PartialEq, Eq, Structural)]
pub enum WaveformError {
    /// It ends too early.
    Short,
    /// It is no waveform file.
    BadMagic,
}

/// What a waveform file holds. What follows the last peak does not count.
pub open spec fn waveform_in(s: Seq<u8>) -> Result<WaveformView, WaveformError> {
    if s.len() < 4 {
        Err(WaveformError::Short)
    } else if s.take(4) != magic() {
        Err(WaveformError::BadMagic)
    } else if s.len() < 12 || s.len() < 12 + 8 * from_le4(s, 8) {
        Err(WaveformError::Short)
    } else {
        Ok(
            WaveformView {
                bucket_us: from_le4(s, 4),
                peaks: Seq::new(from_le4(s, 8) as nat, |i: int| peak_in(s, i)),
            },
        )
    }
}

fn push_le4(out: &mut Vec<u8>, x: u32)
    ensures
        final(out)@ == old(out)@ + le4(x),
{
    out.push((x % 256) as u8);
    out.push((x / 256 % 256) as u8);
    out.push((x / 65_536 % 256) as u8);
    out.push((x / 16_777_216) as u8);
    assert(out@ =~= old(out)@ + le4(x));
}

fn read_le4(s: &[u8], at: usize) -> (x: u32)
    requires
        at + 4 <= s@.len(),
    ensures
        x == from_le4(s@, at as int),
{
    s[at] as u32 + 256 * (s[at + 1] as u32) + 65_536 * (s[at + 2] as u32) + 16_777_216 * (s[at
        + 3] as u32)
}

pub proof fn lemma_le4_round_trip(s: Seq<u8>, at: int, x: u32)
    requires
        0 <= at,
        at + 4 <= s.len(),
        s.subrange(at, at + 4) == le4(x),
    ensures
        from_le4(s, at) == x,
{
    let t = s.subrange(at, at + 4);
    assert(t[0] == s[at] && t[1] == s[at + 1] && t[2] == s[at + 2] && t[3] == s[at + 3]);
}

impl WaveformPeaks {
    /// The bytes of the waveform file.
    pub fn to_bytes(&self) -> (out: Vec<u8>)
        ensures
            out@ == file_bytes(self@),
    {
        let mut out: Vec<u8> = Vec::new();
        out.push(67);
        out.push(87);
        out.push(86);
        out.push(49);
        assert(out@ =~= magic());
        push_le4(&mut out, self.bucket_us);
        push_le4(&mut out, self.peaks.len() as u32);
        let ghost head = out@;
        let mut i: usize = 0;
        assert(out@ =~= head + peak_bytes(self.peaks@, 0));
        while i < self.peaks.len()
            invariant
                i <= self.peaks.len(),
                out@ == head + peak_bytes(self.peaks@, i as int),
            decreases self.peaks.len() - i,
        {
            let p: Peak = self.peaks[i];
            let ghost so_far = peak_bytes(self.peaks@, i as int);
            push_le4(&mut out, p.min.bits);
            push_le4(&mut out, p.max.bits);
            assert((head + so_far) + le4(p.min.bits) + le4(p.max.bits) =~= head + (so_far + le4(
                p.min.bits,
            ) + le4(p.max.bits)));
            i = i + 1;
        }
        out
    }

    /// What a waveform file holds.
    pub fn from_bytes(s: &[u8]) -> (r: Result<Self, WaveformError>)
        ensures
            match waveform_in(s@) {
                Ok(w) => r matches Ok(v) && v@ == w,
                Err(e) => r matches Err(x) && x == e,
            },
    {
        let n: usize = s.len();
        if n < 4 {
            return Err(WaveformError::Short);
        }
        if s[0] != 67 || s[1] != 87 || s[2] != 86 || s[3] != 49 {
            proof {
                let m = magic();
                let t = s@.take(4);
                assert(t[0] != m[0] || t[1] != m[1] || t[2] != m[2] || t[3] != m[3]);
            }
            return Err(WaveformError::BadMagic);
        }
        assert(s@.take(4) =~= magic());
        if n < 12 {
            return Err(WaveformError::Short);
        }
        let bucket_us: u32 = read_le4(s, 4);
        let count: u32 = read_le4(s, 8);
        if (n as u128) < 12 + 8 * (count as u128) {
            return Err(WaveformError::Short);
        }
        let mut peaks: Vec<Peak> = Vec::new();
        let mut i: u32 = 0;
        let ghost all = Seq::new(count as nat, |i: int| peak_in(s@, i));
        assert(peaks@ =~= all.take(0));
        while i < count
            invariant
                i <= count,
                n == s@.len(),
                n >= 12 + 8 * count,
                all == Seq::new(count as nat, |i: int| peak_in(s@, i)),
                peaks@ == all.take(i as int),
            decreases count - i,
        {
            let at: usize = 12 + 8 * (i as usize);
            let p: Peak = Peak {
                min: Scalar { bits: read_le4(s, at) },
                max: Scalar { bits: read_le4(s, at + 4) },
            };
            peaks.push(p);
            assert(all[i as int] == p);
            assert(all.take(i + 1) =~= all.take(i as int).push(p));
            i = i + 1;
        }
        assert(all.take(i as int) =~= all);
        Ok(WaveformPeaks { bucket_us, peaks })
    }
}

proof fn lemma_peak_bytes(peaks: Seq<Peak>, n: int, i: int)
    requires
        0 <= i < n <= peaks.len(),
    ensures
        peak_bytes(peaks, n).len() == 8 * n,
        peak_bytes(peaks, n).subrange(8 * i, 8 * i + 4) == le4(peaks[i].min.bits),
        peak_bytes(peaks, n).subrange(8 * i + 4, 8 * i + 8) == le4(peaks[i].max.bits),
    decreases n,
{
    let all = peak_bytes(peaks, n);
    let head = peak_bytes(peaks, n - 1);
    lemma_peak_bytes_len(peaks, n - 1);
    lemma_peak_bytes_len(peaks, n);
    if i == n - 1 {
        assert(all.subrange(8 * i, 8 * i + 4) =~= le4(peaks[i].min.bits));
        assert(all.subrange(8 * i + 4, 8 * i + 8) =~= le4(peaks[i].max.bits));
    } else {
        lemma_peak_bytes(peaks, n - 1, i);
        assert(all.subrange(8 * i, 8 * i + 4) =~= head.subrange(8 * i, 8 * i + 4));
        assert(all.subrange(8 * i + 4, 8 * i + 8) =~= head.subrange(8 * i + 4, 8 * i + 8));
    }
}

proof fn lemma_peak_bytes_len(peaks: Seq<Peak>, n: int)
    requires
        0 <= n <= peaks.len(),
    ensures
        peak_bytes(peaks, n).len() == 8 * n,
    decreases n,
{
    if n > 0 {
        lemma_peak_bytes_len(peaks, n - 1);
    }
}

/// Reading gives back the waveform that was written.
pub proof fn lemma_waveform_round_trip(w: WaveformView)
    requires
        w.peaks.len() <= u32::MAX,
    ensures
        waveform_in(file_bytes(w)) == Ok::<WaveformView, WaveformError>(w),
{
    let s = file_bytes(w);
    let n = w.peaks.len() as int;
    let body = peak_bytes(w.peaks, n);
    lemma_peak_bytes_len(w.peaks, n);
    assert(s.len() == 12 + 8 * n);
    assert(s.take(4) =~= magic());
    assert(s.subrange(4, 8) =~= le4(w.bucket_us));
    assert(s.subrange(8, 12) =~= le4(n as u32));
    lemma_le4_round_trip(s, 4, w.bucket_us);
    lemma_le4_round_trip(s, 8, n as u32);
    let read = Seq::new(from_le4(s, 8) as nat, |i: int| peak_in(s, i));
    assert forall|i: int| 0 <= i < n implies #[trigger] read[i] == w.peaks[i] by {
        lemma_peak_bytes(w.peaks, n, i);
        assert(s.subrange(12 + 8 * i, 16 + 8 * i) =~= body.subrange(8 * i, 8 * i + 4));
        assert(s.subrange(16 + 8 * i, 20 + 8 * i) =~= body.subrange(8 * i + 4, 8 * i + 8));
        lemma_le4_round_trip(s, 12 + 8 * i, w.peaks[i].min.bits);
        lemma_le4_round_trip(s, 16 + 8 * i, w.peaks[i].max.bits);
    }
    assert(read =~= w.peaks);
}

/// A number, or zero where it is infinite or no number.
pub open spec fn finite_or_zero(x: Scalar) -> Scalar {
    if x.magnitude() < INFINITY_BITS {
        x
    } else {
        Scalar { bits: 0 }
    }
}

/// The least of the samples, starting from positive infinity; what is no
/// number does not count.
pub open spec fn least(samples: Seq<Scalar>) -> Scalar
    decreases samples.len(),
{
    if samples.len() == 0 {
        Scalar { bits: INFINITY_BITS }
    } else if samples.last().lt(least(samples.drop_last())) {
        samples.last()
    } else {
        least(samples.drop_last())
    }
}

/// The greatest of the samples, starting from negative infinity; what is no
/// number does not count.
pub open spec fn greatest(samples: Seq<Scalar>) -> Scalar
    decreases samples.len(),
{
    if samples.len() == 0 {
        Scalar { bits: NEG_INFINITY_BITS }
    } else if greatest(samples.drop_last()).lt(samples.last()) {
        samples.last()
    } else {
        greatest(samples.drop_last())
    }
}

/// The peak of a bucket of samples.
pub open spec fn peak_of(samples: Seq<Scalar>) -> Peak {
    Peak { min: finite_or_zero(least(samples)), max: finite_or_zero(greatest(samples)) }
}

/// The samples of the `b`-th bucket.
pub open spec fn bucket(samples: Seq<Scalar>, b: int) -> Seq<Scalar> {
    samples.subrange(
        b * BUCKET_SAMPLES,
        if (b + 1) * BUCKET_SAMPLES <= samples.len() {
            (b + 1) * BUCKET_SAMPLES
        } else {
            samples.len() as int
        },
    )
}

/// How many buckets the samples fill, the last one perhaps not quite.
pub open spec fn bucket_count(n: int) -> int {
    (n + BUCKET_SAMPLES - 1) / (BUCKET_SAMPLES as int)
}

/// The peaks of a sound, bucket by bucket.
pub open spec fn peaks_of(samples: Seq<Scalar>) -> Seq<Peak> {
    Seq::new(bucket_count(samples.len() as int) as nat, |b: int| peak_of(bucket(samples, b)))
}

/// Collects the peaks of a sound, sample by sample.
pub struct PeakCollector {
    peaks: Vec<Peak>,
    min: Scalar,
    max: Scalar,
    in_bucket: usize,
    seen: Ghost<Seq<Scalar>>,
}

impl View for PeakCollector {
    type V = Seq<Scalar>;

    /// The samples so far.
    closed spec fn view(&self) -> Seq<Scalar> {
        self.seen@
    }
}

impl PeakCollector {
    /// The full buckets have their peaks, and the rest is on its way.
    pub closed spec fn wf(&self) -> bool {
        let full = self.peaks@.len() as int;
        let rest = self.seen@.skip(full * BUCKET_SAMPLES);
        &&& self.in_bucket < BUCKET_SAMPLES
        &&& self.seen@.len() == full * BUCKET_SAMPLES + self.in_bucket
        &&& self.min == least(rest)
        &&& self.max == greatest(rest)
        &&& forall|b: int|
            0 <= b < full ==> #[trigger] self.peaks@[b] == peak_of(bucket(self.seen@, b))
    }

    pub fn new() -> (c: Self)
        ensures
            c.wf(),
            c@ == Seq::<Scalar>::empty(),
    {
        let c: PeakCollector = PeakCollector {
            peaks: Vec::new(),
            min: Scalar { bits: INFINITY_BITS },
            max: Scalar { bits: NEG_INFINITY_BITS },
            in_bucket: 0,
            seen: Ghost(Seq::empty()),
        };
        assert(c.seen@.skip(0) =~= Seq::<Scalar>::empty());
        assert(0 * BUCKET_SAMPLES == 0) by (nonlinear_arith);
        c
    }

    /// Take one sample more.
    pub fn push(&mut self, sample: Scalar)
        requires
            old(self).wf(),
        ensures
            final(self).wf(),
            final(self)@ == old(self)@.push(sample),
    {
        let ghost full = self.peaks@.len() as int;
        let ghost was = self.seen@;
        let ghost rest = was.skip(full * BUCKET_SAMPLES);
        let ghost now = was.push(sample);
        proof {
            assert(0 <= full * BUCKET_SAMPLES) by (nonlinear_arith)
                requires
                    full >= 0,
            ;
            assert(now.skip(full * BUCKET_SAMPLES) =~= rest.push(sample));
            assert(rest.push(sample).drop_last() =~= rest);
        }
        if sample.less_than(&self.min) {
            self.min = sample;
        }
        if self.max.less_than(&sample) {
            self.max = sample;
        }
        self.in_bucket = self.in_bucket + 1;
        self.seen = Ghost(now);
        proof {
            assert forall|b: int| 0 <= b < full implies bucket(now, b) == bucket(was, b) by {
                assert((b + 1) * BUCKET_SAMPLES <= full * BUCKET_SAMPLES) by (nonlinear_arith)
                    requires
                        b + 1 <= full,
                ;
                assert(0 <= b * BUCKET_SAMPLES) by (nonlinear_arith)
                    requires
                        b >= 0,
                ;
                assert(bucket(now, b) =~= bucket(was, b));
            }
        }
        if self.in_bucket >= BUCKET_SAMPLES {
            let p: Peak = self.current();
            self.peaks.push(p);
            self.min = Scalar { bits: INFINITY_BITS };
            self.max = Scalar { bits: NEG_INFINITY_BITS };
            self.in_bucket = 0;
            proof {
                assert((full + 1) * BUCKET_SAMPLES == full * BUCKET_SAMPLES + BUCKET_SAMPLES)
                    by (nonlinear_arith);
                assert(now.skip((full + 1) * BUCKET_SAMPLES) =~= Seq::<Scalar>::empty());
                assert(bucket(now, full) =~= rest.push(sample));
            }
        }
    }

    fn current(&self) -> (p: Peak)
        ensures
            p == (Peak { min: finite_or_zero(self.min), max: finite_or_zero(self.max) }),
    {
        Peak { min: finite(self.min), max: finite(self.max) }
    }

    /// The waveform of the samples so far.
    pub fn finish(self) -> (w: WaveformPeaks)
        requires
            self.wf(),
        ensures
            w@ == (WaveformView { bucket_us: BUCKET_US, peaks: peaks_of(self@) }),
    {
        let ghost full = self.peaks@.len() as int;
        let ghost seen = self.seen@;
        let last: Option<Peak> = if self.in_bucket > 0 {
            Some(self.current())
        } else {
            None
        };
        let mut peaks: Vec<Peak> = self.peaks;
        match last {
            Some(p) => {
                peaks.push(p);
            },
            None => {},
        }
        proof {
            assert(0 <= full * BUCKET_SAMPLES) by (nonlinear_arith)
                requires
                    full >= 0,
            ;
            let n = seen.len() as int;
            assert(n == full * BUCKET_SAMPLES + self.in_bucket);
            assert((full + 1) * BUCKET_SAMPLES == full * BUCKET_SAMPLES + BUCKET_SAMPLES) by (
                nonlinear_arith);
            assert(bucket_count(n) == if self.in_bucket > 0 {
                full + 1
            } else {
                full
            });
            if self.in_bucket > 0 {
                assert(bucket(seen, full) =~= seen.skip(full * BUCKET_SAMPLES));
            }
            assert(peaks@ =~= peaks_of(seen));
        }
        WaveformPeaks { bucket_us: BUCKET_US, peaks }
    }
}

fn finite(x: Scalar) -> (r: Scalar)
    ensures
        r == finite_or_zero(x),
{
    let m: u32 = if x.bits >= 0x8000_0000 {
        x.bits - 0x8000_0000
    } else {
        x.bits
    };
    if m < INFINITY_BITS {
        x
    } else {
        Scalar { bits: 0 }
    }
}

/// How many bars show a waveform of `n` peaks.
pub open spec fn bar_count(n: int, bars: int) -> int {
    let fit = if bars < n {
        bars
    } else {
        n
    };
    if fit < 1 {
        1
    } else {
        fit
    }
}

/// The peaks from `.0` up to `.1` make the `i`-th of `bars` bars.
pub open spec fn bar_range(n: int, bars: int, i: int) -> (int, int) {
    let start = i * n / bars;
    let end = (i + 1) * n / bars;
    (
        start,
        if end > start {
            end
        } else {
            start + 1
        },
    )
}

/// The ranges of peaks that make the bars of a waveform of `n` peaks.
pub fn bar_ranges(n: usize, bars: usize) -> (r: Vec<(usize, usize)>)
    requires
        0 < n <= 0x1_0000_0000,
    ensures
        r@.len() == bar_count(n as int, bars as int),
        forall|i: int|
            0 <= i < r@.len() ==> ((#[trigger] r@[i]).0 as int, r@[i].1 as int) == bar_range(
                n as int,
                r@.len() as int,
                i,
            ) && r@[i].0 < r@[i].1 <= n,
{
    let fit: usize = if bars < n {
        bars
    } else {
        n
    };
    let count: usize = if fit < 1 {
        1
    } else {
        fit
    };
    let mut r: Vec<(usize, usize)> = Vec::new();
    let mut i: usize = 0;
    while i < count
        invariant
            i <= count,
            1 <= count <= n <= 0x1_0000_0000,
            r@.len() == i,
            forall|j: int|
                0 <= j < i ==> ((#[trigger] r@[j]).0 as int, r@[j].1 as int) == bar_range(
                    n as int,
                    count as int,
                    j,
                ) && r@[j].0 < r@[j].1 <= n,
        decreases count - i,
    {
        proof {
            lemma_bar_range(n as int, count as int, i as int);
            assert(0 <= (i + 1) * n <= 0x1_0000_0000 * 0x1_0000_0000) by (nonlinear_arith)
                requires
                    0 <= i < 0x1_0000_0000,
                    0 <= n <= 0x1_0000_0000,
            ;
            assert(0 <= i * n <= (i + 1) * n) by (nonlinear_arith)
                requires
                    0 <= i,
                    0 <= n,
            ;
        }
        let start: u128 = (i as u128) * (n as u128) / (count as u128);
        let stop: u128 = (i as u128 + 1) * (n as u128) / (count as u128);
        let end: u128 = if stop > start {
            stop
        } else {
            start + 1
        };
        r.push((start as usize, end as usize));
        i = i + 1;
    }
    r
}

/// No bar is empty, every bar lies within the peaks, and each begins no later
/// than the one before it ends.
pub proof fn lemma_bar_range(n: int, bars: int, i: int)
    requires
        1 <= bars <= n,
        0 <= i < bars,
    ensures
        0 <= bar_range(n, bars, i).0 < bar_range(n, bars, i).1 <= n,
        i + 1 < bars ==> bar_range(n, bars, i + 1).0 == bar_range(n, bars, i).1,
        bar_range(n, bars, 0).0 == 0,
        bar_range(n, bars, bars - 1).1 == n,
{
    let start = i * n / bars;
    let end = (i + 1) * n / bars;
    assert(0 <= start < end <= n) by (nonlinear_arith)
        requires
            start == i * n / bars,
            end == (i + 1) * n / bars,
            1 <= bars <= n,
            0 <= i < bars,
    ;
    assert(0 * n / bars == 0) by (nonlinear_arith)
        requires
            bars >= 1,
    ;
    assert((bars - 1) * n / bars < n) by (nonlinear_arith)
        requires
            1 <= bars <= n,
    ;
    assert((bars - 1 + 1) * n / bars == n) by (nonlinear_arith)
        requires
            1 <= bars,
    ;
}

/// One bar of a waveform on screen.
#[derive(Clone, Copy, Debug, PartialEq, Eq)]
pub struct Bar {
    pub peak: Scalar,
    pub min: Scalar,
    pub max: Scalar,
}

/// A number without its sign.
pub open spec fn unsigned(x: Scalar) -> Scalar {
    Scalar { bits: x.magnitude() as u32 }
}

/// The louder of `p` and the magnitude of `v`.
pub open spec fn louder(p: Scalar, v: Scalar) -> Scalar {
    if p.lt(unsigned(v)) {
        unsigned(v)
    } else {
        p
    }
}

/// The lowest of the peaks, and at most zero.
pub open spec fn lowest(peaks: Seq<Peak>) -> Scalar
    decreases peaks.len(),
{
    if peaks.len() == 0 {
        Scalar { bits: 0 }
    } else if peaks.last().min.lt(lowest(peaks.drop_last())) {
        peaks.last().min
    } else {
        lowest(peaks.drop_last())
    }
}

/// The highest of the peaks, and at least zero.
pub open spec fn highest(peaks: Seq<Peak>) -> Scalar
    decreases peaks.len(),
{
    if peaks.len() == 0 {
        Scalar { bits: 0 }
    } else if highest(peaks.drop_last()).lt(peaks.last().max) {
        peaks.last().max
    } else {
        highest(peaks.drop_last())
    }
}

/// The loudest of the peaks.
pub open spec fn loudest(peaks: Seq<Peak>) -> Scalar
    decreases peaks.len(),
{
    if peaks.len() == 0 {
        Scalar { bits: 0 }
    } else {
        louder(louder(loudest(peaks.drop_last()), peaks.last().min), peaks.last().max)
    }
}

/// The bits of `1.0` and of `-1.0`.
pub const FULL_BITS: u32 = 0x3f80_0000;

pub const NEG_FULL_BITS: u32 = 0xbf80_0000;

/// At most one.
pub open spec fn at_most_full(x: Scalar) -> Scalar {
    if (Scalar { bits: FULL_BITS }).lt(x) {
        Scalar { bits: FULL_BITS }
    } else {
        x
    }
}

/// At least minus one.
pub open spec fn at_least_neg_full(x: Scalar) -> Scalar {
    if x.lt(Scalar { bits: NEG_FULL_BITS }) {
        Scalar { bits: NEG_FULL_BITS }
    } else {
        x
    }
}

/// The bar that shows some peaks.
pub open spec fn bar_of(peaks: Seq<Peak>) -> Bar {
    Bar {
        peak: at_most_full(loudest(peaks)),
        min: at_least_neg_full(lowest(peaks)),
        max: at_most_full(highest(peaks)),
    }
}

fn without_sign(x: Scalar) -> (r: Scalar)
    ensures
        r == unsigned(x),
{
    if x.bits >= 0x8000_0000 {
        Scalar { bits: x.bits - 0x8000_0000 }
    } else {
        x
    }
}

fn louder_of(p: Scalar, v: Scalar) -> (r: Scalar)
    ensures
        r == louder(p, v),
{
    let m: Scalar = without_sign(v);
    if p.less_than(&m) {
        m
    } else {
        p
    }
}

/// The bar that shows the peaks from `from` up to `to`.
pub fn make_bar(peaks: &Vec<Peak>, from: usize, to: usize) -> (bar: Bar)
    requires
        from <= to <= peaks@.len(),
    ensures
        bar == bar_of(peaks@.subrange(from as int, to as int)),
{
    let mut peak: Scalar = Scalar { bits: 0 };
    let mut min: Scalar = Scalar { bits: 0 };
    let mut max: Scalar = Scalar { bits: 0 };
    let mut i: usize = from;
    while i < to
        invariant
            from <= i <= to <= peaks@.len(),
            peak == loudest(peaks@.subrange(from as int, i as int)),
            min == lowest(peaks@.subrange(from as int, i as int)),
            max == highest(peaks@.subrange(from as int, i as int)),
        decreases to - i,
    {
        let p: Peak = peaks[i];
        assert(peaks@.subrange(from as int, i + 1).drop_last() =~= peaks@.subrange(
            from as int,
            i as int,
        ));
        if p.min.less_than(&min) {
            min = p.min;
        }
        if max.less_than(&p.max) {
            max = p.max;
        }
        peak = louder_of(louder_of(peak, p.min), p.max);
        i = i + 1;
    }
    let full: Scalar = Scalar { bits: FULL_BITS };
    let neg_full: Scalar = Scalar { bits: NEG_FULL_BITS };
    Bar {
        peak: if full.less_than(&peak) {
            full
        } else {
            peak
        },
        min: if min.less_than(&neg_full) {
            neg_full
        } else {
            min
        },
        max: if full.less_than(&max) {
            full
        } else {
            max
        },
    }
}

/// The bars of a waveform: none without peaks, else at most `bars`, each
/// showing its share of the peaks.
pub fn waveform_to_bars(w: &WaveformPeaks, bars: usize) -> (r: Vec<Bar>)
    requires
        w@.peaks.len() <= 0x1_0000_0000,
    ensures
        w@.peaks.len() == 0 ==> r@.len() == 0,
        w@.peaks.len() > 0 ==> r@.len() == bar_count(w@.peaks.len() as int, bars as int),
        forall|i: int|
            0 <= i < r@.len() ==> #[trigger] r@[i] == bar_of(
                w@.peaks.subrange(
                    bar_range(w@.peaks.len() as int, r@.len() as int, i).0,
                    bar_range(w@.peaks.len() as int, r@.len() as int, i).1,
                ),
            ),
{
    let mut r: Vec<Bar> = Vec::new();
    let n: usize = w.peaks.len();
    if n == 0 {
        return r;
    }
    let ranges: Vec<(usize, usize)> = bar_ranges(n, bars);
    let count: usize = ranges.len();
    let mut i: usize = 0;
    while i < count
        invariant
            i <= count,
            count == ranges@.len(),
            n == w.peaks@.len(),
            forall|j: int|
                0 <= j < count ==> ((#[trigger] ranges@[j]).0 as int, ranges@[j].1 as int)
                    == bar_range(n as int, count as int, j) && ranges@[j].0 < ranges@[j].1 <= n,
            r@.len() == i,
            forall|j: int|
                0 <= j < i ==> #[trigger] r@[j] == bar_of(
                    w.peaks@.subrange(
                        bar_range(n as int, count as int, j).0,
                        bar_range(n as int, count as int, j).1,
                    ),
                ),
        decreases count - i,
    {
        let (from, to): (usize, usize) = ranges[i];
        assert((ranges@[i as int].0 as int, ranges@[i as int].1 as int) == bar_range(
            n as int,
            count as int,
            i as int,
        ));
        r.push(make_bar(&w.peaks, from, to));
        i = i + 1;
    }
    r
}

/// Take the next `n_samples` stereo samples out of `buffer`. Where there are
/// not enough of them, silence fills the rest.
pub fn take_samples(buffer: &mut Vec<Scalar>, n_samples: usize) -> (out: Vec<Scalar>)
    requires
        n_samples * 2 <= usize::MAX,
    ensures
        ({
            let want = n_samples as int * 2;
            let have = if want < old(buffer)@.len() {
                want
            } else {
                old(buffer)@.len() as int
            };
            &&& final(buffer)@ == old(buffer)@.skip(have)
            &&& out@ == old(buffer)@.take(have) + Seq::new(
                (want - have) as nat,
                |i: int| Scalar { bits: 0 },
            )
        }),
        out@.len() == 2 * n_samples,
        forall|i: int|
            0 <= i < out@.len() && i < old(buffer)@.len() ==> #[trigger] out@[i]
                == old(buffer)@[i],
        forall|i: int| old(buffer)@.len() <= i < out@.len() ==> (#[trigger] out@[i]).bits == 0,
        forall|i: int|
            0 <= i < final(buffer)@.len() ==> #[trigger] final(buffer)@[i] == old(buffer)@[2
                * n_samples + i],
{
    let want: usize = n_samples * 2;
    let ghost was = buffer@;
    let have: usize = if want < buffer.len() {
        want
    } else {
        buffer.len()
    };
    let rest: Vec<Scalar> = buffer.split_off(have);
    let mut out: Vec<Scalar> = Vec::new();
    let mut i: usize = 0;
    while i < have
        invariant
            i <= have <= was.len(),
            buffer@ == was.take(have as int),
            out@ == was.take(i as int),
        decreases have - i,
    {
        out.push(buffer[i]);
        i = i + 1;
        assert(was.take(i as int) =~= was.take(i - 1).push(was[i - 1]));
    }
    let ghost taken = out@;
    let mut k: usize = have;
    assert(out@ =~= taken + Seq::new(0, |i: int| Scalar { bits: 0 }));
    while k < want
        invariant
            have <= k <= want,
            out@ == taken + Seq::new((k - have) as nat, |i: int| Scalar { bits: 0 }),
        decreases want - k,
    {
        out.push(Scalar { bits: 0 });
        k = k + 1;
        assert(out@ =~= taken + Seq::new((k - have) as nat, |i: int| Scalar { bits: 0 }));
    }
    *buffer = rest;
    assert(buffer@ =~= was.skip(have as int));
    out
}

/// The file of a clip's waveform, under the folder of the program's data.
pub open spec fn waveform_of(data_dir: Seq<char>, id: ClipId) -> Seq<char> {
    paths::joined(paths::joined(data_dir, "waveforms"@), ident::hyphenated(id) + ".bin"@)
}

/// The file of a clip's waveform, under the folder of the program's data.
pub fn waveform_cache_path(data_dir: &str, clip_id: ClipId) -> (s: String)
    ensures
        s@ == waveform_of(data_dir@, clip_id),
{
    let mut name: String = ident::id_text(clip_id);
    name.append(".bin");
    paths::join(paths::join(data_dir, "waveforms").as_str(), name.as_str())
}

/// Why there is no sound.
#[derive(Debug)]
pub enum AudioOutputError {
    NoDevice,
    Config(String),
    Stream(String),
}

pub enum AudioOutputErrorView {
    NoDevice,
    Config(Seq<char>),
    Stream(Seq<char>),
}

impl View for AudioOutputError {
    type V = AudioOutputErrorView;

    open spec fn view(&self) -> AudioOutputErrorView {
        match *self {
            AudioOutputError::NoDevice => AudioOutputErrorView::NoDevice,
            AudioOutputError::Config(s) => AudioOutputErrorView::Config(s@),
            AudioOutputError::Stream(s) => AudioOutputErrorView::Stream(s@),
        }
    }
}

impl AudioOutputErrorView {
    /// The message shown to the user.
    pub open spec fn text(self) -> Seq<char> {
        match self {
            AudioOutputErrorView::NoDevice => "no default audio output device available"@,
            AudioOutputErrorView::Config(s) => "could not negotiate stream config: "@ + s,
            AudioOutputErrorView::Stream(s) => "cpal stream error: "@ + s,
        }
    }
}

impl AudioOutputError {
    /// The message shown to the user.
    pub fn message(&self) -> (s: String)
        ensures
            s@ == self@.text(),
    {
        match self {
            AudioOutputError::NoDevice => "no default audio output device available".to_owned(),
            AudioOutputError::Config(why) => {
                let mut s: String = "could not negotiate stream config: ".to_owned();
                s.append(why.as_str());
                s
            },
            AudioOutputError::Stream(why) => {
                let mut s: String = "cpal stream error: ".to_owned();
                s.append(why.as_str());
                s
            },
        }
    }
}

} // verus!
