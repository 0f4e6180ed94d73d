//! What waveforms, pictures and decoding promise.

use vstd::prelude::*;

use super::audio;
use super::audio::{Peak, FULL_BITS, INFINITY_BITS, NEG_FULL_BITS};
use super::decoder;
use super::decoder::SEEK_THRESHOLD_US;
use super::pixels;
use super::thumbnails;
use crate::scalar::Scalar;

verus! {

/// No sample lies below the least one, which is one of them where any is a
/// number below infinity; and so for the greatest.
pub proof fn lemma_least_and_greatest_are_bounds(samples: Seq<Scalar>)
    ensures
        forall|i: int|
            0 <= i < samples.len() ==> !(#[trigger] samples[i]).lt(audio::least(samples))
                && !audio::greatest(samples).lt(samples[i]),
        audio::least(samples).bits != INFINITY_BITS ==> samples.contains(audio::least(samples)),
        audio::greatest(samples).bits != 0xff80_0000 ==> samples.contains(
            audio::greatest(samples),
        ),
        !audio::least(samples).is_nan(),
        !audio::greatest(samples).is_nan(),
    decreases samples.len(),
{
    if samples.len() > 0 {
        let front = samples.drop_last();
        let last = samples.last();
        lemma_least_and_greatest_are_bounds(front);
        assert(samples[samples.len() - 1] == last);
        assert forall|i: int| 0 <= i < samples.len() implies !(#[trigger] samples[i]).lt(
            audio::least(samples),
        ) && !audio::greatest(samples).lt(samples[i]) by {
            if i < front.len() {
                assert(front[i] == samples[i]);
            }
        }
        if front.contains(audio::least(front)) {
            let k = front.index_of(audio::least(front));
            assert(samples[k] == audio::least(front));
        }
        if front.contains(audio::greatest(front)) {
            let k = front.index_of(audio::greatest(front));
            assert(samples[k] == audio::greatest(front));
        }
    }
}

/// The peak of finite samples is made of the least and the greatest of them.
pub proof fn lemma_peak_spans_its_samples(samples: Seq<Scalar>, i: int)
    requires
        0 <= i < samples.len(),
        forall|k: int|
            0 <= k < samples.len() ==> (#[trigger] samples[k]).magnitude() < INFINITY_BITS,
    ensures
        audio::peak_of(samples).min.key() <= samples[i].key(),
        samples[i].key() <= audio::peak_of(samples).max.key(),
        samples.contains(audio::peak_of(samples).min),
        samples.contains(audio::peak_of(samples).max),
{
    lemma_least_and_greatest_are_bounds(samples);
    assert(samples[i].magnitude() < INFINITY_BITS);
    let low = audio::least(samples);
    let high = audio::greatest(samples);
    assert(!samples[i].lt(low) && !high.lt(samples[i]));
    assert(low.bits != INFINITY_BITS);
    assert(high.bits != 0xff80_0000);
    let a = samples.index_of(low);
    let b = samples.index_of(high);
    assert(samples[a].magnitude() < INFINITY_BITS);
    assert(samples[b].magnitude() < INFINITY_BITS);
}

/// Every sample is in one bucket, at its place in it, and there are no more
/// buckets than are needed.
pub proof fn lemma_every_sample_has_its_bucket(samples: Seq<Scalar>, i: int)
    requires
        0 <= i < samples.len(),
    ensures
        0 <= i / 480 < audio::peaks_of(samples).len(),
        0 <= i % 480 < audio::bucket(samples, i / 480).len(),
        audio::bucket(samples, i / 480)[i % 480] == samples[i],
        audio::peaks_of(samples)[i / 480] == audio::peak_of(audio::bucket(samples, i / 480)),
        (audio::peaks_of(samples).len() - 1) * 480 < samples.len(),
        samples.len() <= audio::peaks_of(samples).len() * 480,
{
}

/// A bar is as loud as its loudest peak, on either side of zero.
proof fn lemma_loudest_is_a_bound(peaks: Seq<Peak>)
    ensures
        !audio::loudest(peaks).negative(),
        !audio::loudest(peaks).is_nan(),
        forall|i: int|
            0 <= i < peaks.len() ==> !audio::loudest(peaks).lt(
                audio::unsigned((#[trigger] peaks[i]).min),
            ) && !audio::loudest(peaks).lt(audio::unsigned(peaks[i].max)),
        !audio::lowest(peaks).is_nan() && !audio::highest(peaks).is_nan(),
        forall|i: int|
            0 <= i < peaks.len() ==> !(#[trigger] peaks[i]).min.lt(audio::lowest(peaks))
                && !audio::highest(peaks).lt(peaks[i].max),
        audio::lowest(peaks).key() <= 0 <= audio::highest(peaks).key(),
    decreases peaks.len(),
{
    if peaks.len() > 0 {
        let front = peaks.drop_last();
        lemma_loudest_is_a_bound(front);
        assert(peaks[peaks.len() - 1] == peaks.last());
        assert forall|i: int| 0 <= i < peaks.len() implies !audio::loudest(peaks).lt(
            audio::unsigned((#[trigger] peaks[i]).min),
        ) && !audio::loudest(peaks).lt(audio::unsigned(peaks[i].max)) && !peaks[i].min.lt(
            audio::lowest(peaks),
        ) && !audio::highest(peaks).lt(peaks[i].max) by {
            if i < front.len() {
                assert(front[i] == peaks[i]);
            }
        }
    }
}

/// No peak sticks out of the bar that is drawn for it, unless it is louder than a
/// bar can be.
pub proof fn lemma_bar_holds_its_peaks(peaks: Seq<Peak>, i: int)
    requires
        0 <= i < peaks.len(),
        !peaks[i].min.is_nan(),
        !peaks[i].max.is_nan(),
    ensures
        audio::bar_of(peaks).min.key() <= peaks[i].min.key() || audio::bar_of(peaks).min.bits
            == NEG_FULL_BITS,
        peaks[i].max.key() <= audio::bar_of(peaks).max.key() || audio::bar_of(peaks).max.bits
            == FULL_BITS,
        peaks[i].max.magnitude() <= audio::bar_of(peaks).peak.key() || audio::bar_of(peaks).peak.bits
            == FULL_BITS,
        peaks[i].min.magnitude() <= audio::bar_of(peaks).peak.key() || audio::bar_of(peaks).peak.bits
            == FULL_BITS,
        audio::bar_of(peaks).peak.key() <= 0x3f80_0000,
        audio::bar_of(peaks).max.key() <= 0x3f80_0000,
        -0x3f80_0000 <= audio::bar_of(peaks).min.key(),
{
    lemma_loudest_is_a_bound(peaks);
    let p = peaks[i];
    assert(!audio::loudest(peaks).lt(audio::unsigned(p.min)));
    assert(!audio::loudest(peaks).lt(audio::unsigned(p.max)));
    assert(!p.min.lt(audio::lowest(peaks)));
    assert(!audio::highest(peaks).lt(p.max));
}

/// Row by row, every byte of a picture is where it was in the rows that are
/// longer than the picture is wide.
pub proof fn lemma_packed_rows_keep_their_bytes(
    data: Seq<u8>,
    stride: int,
    row_bytes: int,
    rows: int,
    r: int,
    c: int,
)
    requires
        0 <= row_bytes <= stride,
        0 <= rows,
        rows * stride <= data.len(),
        0 <= r < rows,
        0 <= c < row_bytes,
    ensures
        pixels::packed(data, stride, row_bytes, rows).len() == rows * row_bytes,
        pixels::packed(data, stride, row_bytes, rows)[r * row_bytes + c] == data[r * stride + c],
    decreases rows,
{
    assert((rows - 1) * stride + stride == rows * stride) by (nonlinear_arith);
    assert((rows - 1) * stride + row_bytes <= rows * stride) by (nonlinear_arith)
        requires
            row_bytes <= stride,
    ;
    assert(0 <= (rows - 1) * stride) by (nonlinear_arith)
        requires
            0 <= stride,
            1 <= rows,
    ;
    lemma_packed_len(data, stride, row_bytes, rows);
    lemma_packed_len(data, stride, row_bytes, rows - 1);
    if r < rows - 1 {
        lemma_packed_rows_keep_their_bytes(data, stride, row_bytes, rows - 1, r, c);
        assert(0 <= r * row_bytes) by (nonlinear_arith)
            requires
                0 <= r,
                0 <= row_bytes,
        ;
        assert(r * row_bytes + c < (rows - 1) * row_bytes) by (nonlinear_arith)
            requires
                r < rows - 1,
                0 <= c < row_bytes,
        ;
    }
}

proof fn lemma_packed_len(data: Seq<u8>, stride: int, row_bytes: int, rows: int)
    requires
        0 <= row_bytes <= stride,
        0 <= rows,
        rows * stride <= data.len(),
    ensures
        pixels::packed(data, stride, row_bytes, rows).len() == rows * row_bytes,
    decreases rows,
{
    if rows > 0 {
        assert((rows - 1) * stride + stride == rows * stride) by (nonlinear_arith);
        assert((rows - 1) * row_bytes + row_bytes == rows * row_bytes) by (nonlinear_arith);
        assert(0 <= (rows - 1) * stride) by (nonlinear_arith)
            requires
                0 <= stride,
                1 <= rows,
        ;
        lemma_packed_len(data, stride, row_bytes, rows - 1);
    } else {
        assert(0 * row_bytes == 0);
    }
}

/// Rows are padded by less than one step, sizes are cut by one pixel at most, and
/// a black picture is opaque and has no colour.
pub proof fn lemma_sizes_change_little(n: int, x: u32, p: int, k: int)
    requires
        n >= 0,
        0 <= k < p,
    ensures
        n <= pixels::aligned(n) < n + 256,
        pixels::aligned(n) % 256 == 0,
        x >= 2 ==> x - 1 <= pixels::even_size(x) <= x,
        pixels::even_size(x) % 2 == 0 && pixels::even_size(x) >= 2,
        pixels::black(p).len() == 4 * p,
        pixels::black(p)[4 * k] == 0 && pixels::black(p)[4 * k + 1] == 0 && pixels::black(p)[4 * k
            + 2] == 0 && pixels::black(p)[4 * k + 3] == 255,
{
}

/// The pictures of a clip are taken as far apart as its length, in equal parts,
/// allows.
pub proof fn lemma_pictures_are_taken_evenly(duration_us: i64, i: int, count: int)
    requires
        0 <= i < count,
    ensures
        ({
            let t = thumbnails::picture_time(duration_us, i, count);
            let total = thumbnails::counted_us(duration_us);
            &&& t * count <= total * i < t * count + count
            &&& duration_us >= 1_000_000 ==> total == duration_us
            &&& duration_us < 1_000_000 ==> total == 1_000_000
        }),
{
    let total = thumbnails::counted_us(duration_us);
    let t = total * i / count;
    assert(t * count <= total * i < t * count + count) by (nonlinear_arith)
        requires
            count > 0,
            t == total * i / count,
    ;
}

/// A decoder goes back, and leaps far ahead, by seeking; a short way ahead it
/// goes on decoding.
pub proof fn lemma_decoder_goes_on_where_it_can(last: i64, target: i64)
    ensures
        decoder::must_seek(None, target),
        target < last ==> decoder::must_seek(Some(last), target),
        last <= target <= last + SEEK_THRESHOLD_US ==> !decoder::must_seek(Some(last), target),
        target > last + SEEK_THRESHOLD_US ==> decoder::must_seek(Some(last), target),
        SEEK_THRESHOLD_US == 200_000,
{
}

/// As many threads decode as there are processors, within reason.
pub proof fn lemma_threads_go_by_processors(cpus: int)
    ensures
        2 <= decoder::threads_for(cpus) <= 8,
        2 <= cpus <= 8 ==> decoder::threads_for(cpus) == cpus,
        cpus < 2 ==> decoder::threads_for(cpus) == 2,
        cpus > 8 ==> decoder::threads_for(cpus) == 8,
{
}

} // verus!
