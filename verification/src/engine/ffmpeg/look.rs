//! The look of a clip as filters of ffmpeg: crop, colours, flips, scale,
//! rotation, opacity and position, each over time where it is animated.
//!
//! Colour grading is not written: no formula for it is fixed here.

use vstd::prelude::*;
use vstd::string::*;

use crate::domain::transform;
use crate::domain::transform::{
    AnimatedF32, Crop, Interp, Keyframe, PositionSample, Sample, TransformKeys, TransformKeysView,
    TransformSamples,
};
use crate::scalar::{Scalar, ONE_BITS};
use crate::seqs;
use crate::text;

verus! {

/// A number as an expression: a whole number times a power of two, which is
/// exact.
pub open spec fn number(s: Scalar) -> Seq<char> {
    (if s.negative() {
        "(-"@
    } else {
        "("@
    }) + text::dec(s.mantissa()) + "*2^("@ + text::dec_signed(s.exponent()) + "))"@
}

/// A number as an expression.
pub fn number_text(s: Scalar) -> (r: String)
    ensures
        r@ == number(s),
{
    let (mantissa, exponent): (u32, i64) = s.parts();
    let mut r: String = if s.is_negative() {
        "(-".to_owned()
    } else {
        "(".to_owned()
    };
    text::push_dec(&mut r, mantissa as u128);
    r.append("*2^(");
    text::push_dec_signed(&mut r, exponent);
    r.append("))");
    r
}

/// The number that is as far from `from` to `to` as `ratio` says.
pub open spec fn way(from: Scalar, to: Scalar, ratio: Seq<char>) -> Seq<char> {
    number(from) + "+("@ + number(to) + "-"@ + number(from) + ")*"@ + ratio
}

fn way_text(from: Scalar, to: Scalar, ratio: &str) -> (r: String)
    ensures
        r@ == way(from, to, ratio@),
{
    let mut r: String = number_text(from);
    r.append("+(");
    r.append(number_text(to).as_str());
    r.append("-");
    r.append(number_text(from).as_str());
    r.append(")*");
    r.append(ratio);
    r
}

/// How much of a span has gone by.
pub open spec fn straight(elapsed: Seq<char>, span: nat) -> Seq<char> {
    "("@ + elapsed + ")/"@ + text::dec(span)
}

fn straight_text(elapsed: &str, span: u64) -> (r: String)
    ensures
        r@ == straight(elapsed@, span as nat),
{
    let mut r: String = "(".to_owned();
    r.append(elapsed);
    r.append(")/");
    text::push_dec(&mut r, span as u128);
    r
}

/// One coordinate of the Bezier curve from 0 to 1 with the control points `p1`
/// and `p2`, at the parameter `v`.
pub open spec fn curve(v: Seq<char>, p1: Scalar, p2: Scalar) -> Seq<char> {
    "3*(1-"@ + v + ")^2*"@ + v + "*"@ + number(p1) + "+3*(1-"@ + v + ")*"@ + v + "^2*"@ + number(
        p2,
    ) + "+"@ + v + "^3"@
}

fn curve_text(v: &str, p1: Scalar, p2: Scalar) -> (r: String)
    ensures
        r@ == curve(v@, p1, p2),
{
    let mut r: String = "3*(1-".to_owned();
    r.append(v);
    r.append(")^2*");
    r.append(v);
    r.append("*");
    r.append(number_text(p1).as_str());
    r.append("+3*(1-");
    r.append(v);
    r.append(")*");
    r.append(v);
    r.append("^2*");
    r.append(number_text(p2).as_str());
    r.append("+");
    r.append(v);
    r.append("^3");
    r
}

/// A ratio bent by a Bezier curve: the parameter is found where the curve has
/// the ratio on its first axis, and the second axis is read there.
pub open spec fn eased(
    ratio: Seq<char>,
    x1: Scalar,
    y1: Scalar,
    x2: Scalar,
    y2: Scalar,
) -> Seq<char> {
    "(st(1,root("@ + curve("ld(0)"@, x1, x2) + "-("@ + ratio + "),1));"@ + curve(
        "ld(1)"@,
        y1,
        y2,
    ) + ")"@
}

fn eased_text(ratio: &str, x1: Scalar, y1: Scalar, x2: Scalar, y2: Scalar) -> (r: String)
    ensures
        r@ == eased(ratio@, x1, y1, x2, y2),
{
    let mut r: String = "(st(1,root(".to_owned();
    r.append(curve_text("ld(0)", x1, x2).as_str());
    r.append("-(");
    r.append(ratio);
    r.append("),1));");
    r.append(curve_text("ld(1)", y1, y2).as_str());
    r.append(")");
    r
}

/// A sample as an expression.
pub open spec fn sampled(s: Sample) -> Seq<char> {
    match s {
        Sample::Held(v) => number(v),
        Sample::Linear { from, to, elapsed_us, span_us } => way(
            from,
            to,
            straight(text::dec(elapsed_us as nat), span_us as nat),
        ),
        Sample::Bezier { from, to, elapsed_us, span_us, cp_x1, cp_y1, cp_x2, cp_y2 } => way(
            from,
            to,
            eased(
                straight(text::dec(elapsed_us as nat), span_us as nat),
                cp_x1,
                cp_y1,
                cp_x2,
                cp_y2,
            ),
        ),
    }
}

fn dec_text(n: u64) -> (r: String)
    ensures
        r@ == text::dec(n as nat),
{
    let mut r: String = String::new();
    text::push_dec(&mut r, n as u128);
    assert(r@ =~= text::dec(n as nat));
    r
}

fn sampled_text(s: &Sample) -> (r: String)
    ensures
        r@ == sampled(*s),
{
    match *s {
        Sample::Held(v) => number_text(v),
        Sample::Linear { from, to, elapsed_us, span_us } => {
            let ratio: String = straight_text(dec_text(elapsed_us).as_str(), span_us);
            way_text(from, to, ratio.as_str())
        },
        Sample::Bezier { from, to, elapsed_us, span_us, cp_x1, cp_y1, cp_x2, cp_y2 } => {
            let ratio: String = straight_text(dec_text(elapsed_us).as_str(), span_us);
            let bent: String = eased_text(ratio.as_str(), cp_x1, cp_y1, cp_x2, cp_y2);
            way_text(from, to, bent.as_str())
        },
    }
}

/// What a channel says between the keyframes `a` and `b`, `elapsed` after the
/// first.
pub open spec fn on_the_way(a: Keyframe, b: Keyframe, elapsed: Seq<char>) -> Seq<char> {
    let ratio = straight(elapsed, transform::span_between(a, b) as nat);
    match a.interp {
        Interp::Hold => number(a.value),
        Interp::Linear => way(a.value, b.value, ratio),
        Interp::Bezier => way(
            a.value,
            b.value,
            eased(ratio, a.cp_x1, a.cp_y1, a.cp_x2, a.cp_y2),
        ),
    }
}

fn on_the_way_text(a: &Keyframe, b: &Keyframe, elapsed: &str) -> (r: String)
    ensures
        r@ == on_the_way(*a, *b, elapsed@),
{
    let gap: i128 = b.time_us as i128 - a.time_us as i128;
    let span: u64 = if gap > 1 {
        gap as u64
    } else {
        1
    };
    let ratio: String = straight_text(elapsed, span);
    match a.interp {
        Interp::Hold => number_text(a.value),
        Interp::Linear => way_text(a.value, b.value, ratio.as_str()),
        Interp::Bezier => {
            let bent: String = eased_text(ratio.as_str(), a.cp_x1, a.cp_y1, a.cp_x2, a.cp_y2);
            way_text(a.value, b.value, bent.as_str())
        },
    }
}

/// What the keyframes say from the `i`-th one on; `now` is the time in
/// microseconds.
pub open spec fn from_key(keys: Seq<Keyframe>, i: int, now: Seq<char>) -> Seq<char>
    decreases keys.len() - i,
{
    if i + 1 >= keys.len() {
        number(keys[i].value)
    } else {
        "if(lt("@ + now + ",("@ + text::dec_signed(keys[i + 1].time_us as int) + ")),"@
            + on_the_way(
            keys[i],
            keys[i + 1],
            now + "-("@ + text::dec_signed(keys[i].time_us as int) + ")"@,
        ) + ","@ + from_key(keys, i + 1, now) + ")"@
    }
}

fn from_key_text(keys: &[Keyframe], i: usize, now: &str) -> (r: String)
    requires
        i < keys@.len(),
    ensures
        r@ == from_key(keys@, i as int, now@),
    decreases keys@.len() - i,
{
    if i >= keys.len() - 1 {
        return number_text(keys[i].value);
    }
    let mut elapsed: String = now.to_owned();
    elapsed.append("-(");
    text::push_dec_signed(&mut elapsed, keys[i].time_us);
    elapsed.append(")");
    let mut r: String = "if(lt(".to_owned();
    r.append(now);
    r.append(",(");
    text::push_dec_signed(&mut r, keys[i + 1].time_us);
    r.append(")),");
    r.append(on_the_way_text(&keys[i], &keys[i + 1], elapsed.as_str()).as_str());
    r.append(",");
    r.append(from_key_text(keys, i + 1, now).as_str());
    r.append(")");
    r
}

/// A channel as an expression: its keyframes over time, or the sample `s`
/// where it has none.
pub open spec fn channel(keys: Seq<Keyframe>, s: Sample, now: Seq<char>) -> Seq<char> {
    if keys.len() == 0 {
        sampled(s)
    } else {
        "if(lt("@ + now + ",("@ + text::dec_signed(keys[0].time_us as int) + ")),"@ + number(
            keys[0].value,
        ) + ","@ + from_key(keys, 0, now) + ")"@
    }
}

fn channel_text(keys: &AnimatedF32, s: &Sample, now: &str) -> (r: String)
    ensures
        r@ == channel(keys@, *s, now@),
{
    let k: &[Keyframe] = keys.keys();
    if k.len() == 0 {
        return sampled_text(s);
    }
    let mut r: String = "if(lt(".to_owned();
    r.append(now);
    r.append(",(");
    text::push_dec_signed(&mut r, k[0].time_us);
    r.append(")),");
    r.append(number_text(k[0].value).as_str());
    r.append(",");
    r.append(from_key_text(k, 0, now).as_str());
    r.append(")");
    r
}

/// A channel that is always at the number with the given bits.
pub open spec fn is_still(keys: Seq<Keyframe>, s: Sample, bits: u32) -> bool {
    keys.len() == 0 && s == Sample::Held(Scalar { bits })
}

fn still(keys: &AnimatedF32, s: &Sample, bits: u32) -> (r: bool)
    ensures
        r == is_still(keys@, *s, bits),
{
    match *s {
        Sample::Held(v) => !keys.is_animated() && v.bits == bits,
        _ => false,
    }
}

/// The scale is always one on both axes.
pub open spec fn keeps_size(t: TransformSamples, k: TransformKeysView) -> bool {
    &&& is_still(k.scale, t.scale, ONE_BITS)
    &&& is_still(k.scale_x, t.scale_x, ONE_BITS)
    &&& is_still(k.scale_y, t.scale_y, ONE_BITS)
}

fn size_kept(t: &TransformSamples, k: &TransformKeys) -> (r: bool)
    ensures
        r == keeps_size(*t, k@),
{
    still(&k.scale, &t.scale, ONE_BITS) && still(&k.scale_x, &t.scale_x, ONE_BITS) && still(
        &k.scale_y,
        &t.scale_y,
        ONE_BITS,
    )
}

/// The filter that cuts off the edges of the source.
pub open spec fn cropping(crop: Option<Crop>) -> Seq<char> {
    match crop {
        None => Seq::empty(),
        Some(c) => "crop=iw-"@ + text::dec(c.left as nat) + "-"@ + text::dec(c.right as nat)
            + ":ih-"@ + text::dec(c.top as nat) + "-"@ + text::dec(c.bottom as nat) + ":"@
            + text::dec(c.left as nat) + ":"@ + text::dec(c.top as nat) + ","@,
    }
}

/// The filter that sets brightness, contrast and saturation.
pub open spec fn colouring(t: TransformSamples) -> Seq<char> {
    if t.brightness.bits == 0 && t.contrast.bits == ONE_BITS && t.saturation.bits == ONE_BITS {
        Seq::empty()
    } else {
        "eq=brightness="@ + number(t.brightness) + ":contrast="@ + number(t.contrast)
            + ":saturation="@ + number(t.saturation) + ","@
    }
}

/// The filters on the source as it is, before it is brought to size.
pub open spec fn on_source(t: TransformSamples) -> Seq<char> {
    cropping(t.crop) + colouring(t)
}

/// The filters on the source as it is, before it is brought to size.
pub fn on_source_text(t: &TransformSamples) -> (r: String)
    ensures
        r@ == on_source(*t),
{
    let mut r: String = match t.crop {
        None => String::new(),
        Some(c) => {
            let mut s: String = "crop=iw-".to_owned();
            text::push_dec(&mut s, c.left as u128);
            s.append("-");
            text::push_dec(&mut s, c.right as u128);
            s.append(":ih-");
            text::push_dec(&mut s, c.top as u128);
            s.append("-");
            text::push_dec(&mut s, c.bottom as u128);
            s.append(":");
            text::push_dec(&mut s, c.left as u128);
            s.append(":");
            text::push_dec(&mut s, c.top as u128);
            s.append(",");
            s
        },
    };
    assert(r@ =~= cropping(t.crop));
    if t.brightness.bits == 0 && t.contrast.bits == ONE_BITS && t.saturation.bits == ONE_BITS {
        assert(r@ =~= on_source(*t));
        return r;
    }
    let mut s: String = "eq=brightness=".to_owned();
    s.append(number_text(t.brightness).as_str());
    s.append(":contrast=");
    s.append(number_text(t.contrast).as_str());
    s.append(":saturation=");
    s.append(number_text(t.saturation).as_str());
    s.append(",");
    r.append(s.as_str());
    r
}

/// The filters that mirror the picture.
pub open spec fn flipping(t: TransformSamples) -> Seq<char> {
    (if t.flip_h {
        ",hflip"@
    } else {
        Seq::empty()
    }) + (if t.flip_v {
        ",vflip"@
    } else {
        Seq::empty()
    })
}

/// The filter that scales the picture.
pub open spec fn scaling(t: TransformSamples, k: TransformKeysView) -> Seq<char> {
    let now = "(t*1000000)"@;
    if keeps_size(t, k) {
        Seq::empty()
    } else {
        ",scale=w='max(2,trunc(iw*("@ + channel(k.scale, t.scale, now) + ")*("@ + channel(
            k.scale_x,
            t.scale_x,
            now,
        ) + ")/2)*2)':h='max(2,trunc(ih*("@ + channel(k.scale, t.scale, now) + ")*("@ + channel(
            k.scale_y,
            t.scale_y,
            now,
        ) + ")/2)*2)':eval=frame"@
    }
}

/// The filter that turns the picture about its middle.
pub open spec fn turning(t: TransformSamples, k: TransformKeysView) -> Seq<char> {
    if is_still(k.rotation_deg, t.rotation_deg, 0) {
        Seq::empty()
    } else {
        ",rotate=a='("@ + channel(k.rotation_deg, t.rotation_deg, "(t*1000000)"@)
            + ")*PI/180':ow='hypot(iw,ih)':oh=ow:c=black@0"@
    }
}

/// The filter that makes the picture transparent.
pub open spec fn fading(t: TransformSamples, k: TransformKeysView) -> Seq<char> {
    if is_still(k.opacity, t.opacity, ONE_BITS) {
        Seq::empty()
    } else {
        ",geq=lum='lum(X,Y)':cb='cb(X,Y)':cr='cr(X,Y)':a='alpha(X,Y)*("@ + channel(
            k.opacity,
            t.opacity,
            "(T*1000000)"@,
        ) + ")'"@
    }
}

/// The filters on the picture in its size, with an alpha channel.
pub open spec fn on_picture(t: TransformSamples, k: TransformKeysView) -> Seq<char> {
    flipping(t) + scaling(t, k) + turning(t, k) + fading(t, k)
}

fn flipping_text(t: &TransformSamples) -> (r: String)
    ensures
        r@ == flipping(*t),
{
    let mut r: String = String::new();
    if t.flip_h {
        r.append(",hflip");
    }
    assert(r@ =~= (if t.flip_h {
        ",hflip"@
    } else {
        Seq::empty()
    }));
    if t.flip_v {
        r.append(",vflip");
    }
    assert(r@ =~= flipping(*t));
    r
}

fn scaling_text(t: &TransformSamples, k: &TransformKeys) -> (r: String)
    ensures
        r@ == scaling(*t, k@),
{
    if size_kept(t, k) {
        let none: String = String::new();
        assert(none@ =~= scaling(*t, k@));
        return none;
    }
    let now: &str = "(t*1000000)";
    let both: String = channel_text(&k.scale, &t.scale, now);
    let mut r: String = ",scale=w='max(2,trunc(iw*(".to_owned();
    r.append(both.as_str());
    r.append(")*(");
    r.append(channel_text(&k.scale_x, &t.scale_x, now).as_str());
    r.append(")/2)*2)':h='max(2,trunc(ih*(");
    r.append(both.as_str());
    r.append(")*(");
    r.append(channel_text(&k.scale_y, &t.scale_y, now).as_str());
    r.append(")/2)*2)':eval=frame");
    r
}

fn turning_text(t: &TransformSamples, k: &TransformKeys) -> (r: String)
    ensures
        r@ == turning(*t, k@),
{
    if still(&k.rotation_deg, &t.rotation_deg, 0) {
        let none: String = String::new();
        assert(none@ =~= turning(*t, k@));
        return none;
    }
    let mut r: String = ",rotate=a='(".to_owned();
    r.append(channel_text(&k.rotation_deg, &t.rotation_deg, "(t*1000000)").as_str());
    r.append(")*PI/180':ow='hypot(iw,ih)':oh=ow:c=black@0");
    r
}

fn fading_text(t: &TransformSamples, k: &TransformKeys) -> (r: String)
    ensures
        r@ == fading(*t, k@),
{
    if still(&k.opacity, &t.opacity, ONE_BITS) {
        let none: String = String::new();
        assert(none@ =~= fading(*t, k@));
        return none;
    }
    let mut r: String =
        ",geq=lum='lum(X,Y)':cb='cb(X,Y)':cr='cr(X,Y)':a='alpha(X,Y)*(".to_owned();
    r.append(channel_text(&k.opacity, &t.opacity, "(T*1000000)").as_str());
    r.append(")'");
    r
}

/// The filters on the picture in its size, with an alpha channel.
pub fn on_picture_text(t: &TransformSamples, k: &TransformKeys) -> (r: String)
    ensures
        r@ == on_picture(*t, k@),
{
    let mut r: String = flipping_text(t);
    r.append(scaling_text(t, k).as_str());
    r.append(turning_text(t, k).as_str());
    r.append(fading_text(t, k).as_str());
    r
}

/// How far the picture lies from the middle on one axis.
pub open spec fn offset(keys: Seq<Keyframe>, p: PositionSample, now: Seq<char>) -> Seq<char> {
    match p {
        PositionSample::Static(x) => text::dec_signed(x as int),
        PositionSample::Animated(s) => "round("@ + channel(keys, s, now) + ")"@,
    }
}

fn offset_text(keys: &AnimatedF32, p: &PositionSample, now: &str) -> (r: String)
    ensures
        r@ == offset(keys@, *p, now@),
{
    match *p {
        PositionSample::Static(x) => {
            let mut r: String = String::new();
            text::push_dec_signed(&mut r, x as i64);
            assert(r@ =~= text::dec_signed(x as int));
            r
        },
        PositionSample::Animated(s) => {
            let mut r: String = "round(".to_owned();
            r.append(channel_text(keys, &s, now).as_str());
            r.append(")");
            r
        },
    }
}

/// Where the picture lies on the canvas: its middle is as far from the middle of
/// the canvas as its position says. A picture that keeps its size has the size
/// of the canvas, so that a position that does not move is the place itself.
pub open spec fn place(t: TransformSamples, k: TransformKeysView, now: Seq<char>) -> Seq<char> {
    if keeps_size(t, k) && is_still(k.rotation_deg, t.rotation_deg, 0) && t.position_x is Static
        && t.position_y is Static {
        offset(k.position_x, t.position_x, now) + ":"@ + offset(k.position_y, t.position_y, now)
    } else {
        "x='(W-w)/2+"@ + offset(k.position_x, t.position_x, now) + "':y='(H-h)/2+"@ + offset(
            k.position_y,
            t.position_y,
            now,
        ) + "'"@
    }
}

fn is_fixed(p: &PositionSample) -> (r: bool)
    ensures
        r == (*p is Static),
{
    match *p {
        PositionSample::Static(_) => true,
        PositionSample::Animated(_) => false,
    }
}

/// Where the picture lies on the canvas.
pub fn place_text(t: &TransformSamples, k: &TransformKeys, now: &str) -> (r: String)
    ensures
        r@ == place(*t, k@, now@),
{
    let x: String = offset_text(&k.position_x, &t.position_x, now);
    let y: String = offset_text(&k.position_y, &t.position_y, now);
    if size_kept(t, k) && still(&k.rotation_deg, &t.rotation_deg, 0) && is_fixed(&t.position_x)
        && is_fixed(&t.position_y) {
        let mut r: String = x;
        r.append(":");
        r.append(y.as_str());
        r
    } else {
        let mut r: String = "x='(W-w)/2+".to_owned();
        r.append(x.as_str());
        r.append("':y='(H-h)/2+");
        r.append(y.as_str());
        r.append("'");
        r
    }
}

/// A clip that nothing was changed about needs no filter for its look.
pub proof fn lemma_plain_look_needs_no_filter(t: TransformSamples, k: TransformKeysView)
    requires
        t.crop is None,
        t.brightness.bits == 0,
        t.contrast.bits == ONE_BITS,
        t.saturation.bits == ONE_BITS,
        !t.flip_h,
        !t.flip_v,
        keeps_size(t, k),
        is_still(k.rotation_deg, t.rotation_deg, 0),
        is_still(k.opacity, t.opacity, ONE_BITS),
    ensures
        on_source(t) == Seq::<char>::empty(),
        on_picture(t, k) == Seq::<char>::empty(),
{
    assert(on_source(t) =~= Seq::<char>::empty());
    assert(on_picture(t, k) =~= Seq::<char>::empty());
}

/// Clips that keep their size and do not move lie in different places of the
/// graph where their positions differ.
pub proof fn lemma_positions_tell_places_apart(
    t: TransformSamples,
    u: TransformSamples,
    k: TransformKeysView,
    now: Seq<char>,
)
    requires
        keeps_size(t, k),
        keeps_size(u, k),
        is_still(k.rotation_deg, t.rotation_deg, 0),
        is_still(k.rotation_deg, u.rotation_deg, 0),
        t.position_x is Static,
        t.position_y is Static,
        u.position_x is Static,
        u.position_y is Static,
        t.position_x != u.position_x || t.position_y != u.position_y,
    ensures
        place(t, k, now) != place(u, k, now),
{
    let (tx, ty) = (t.position_x->Static_0, t.position_y->Static_0);
    let (ux, uy) = (u.position_x->Static_0, u.position_y->Static_0);
    let a = text::dec_signed(tx as int);
    let b = text::dec_signed(ux as int);
    let c = text::dec_signed(ty as int);
    let d = text::dec_signed(uy as int);
    text::lemma_dec_signed_tells_apart(tx as int, ux as int);
    text::lemma_dec_signed_tells_apart(ux as int, tx as int);
    text::lemma_dec_signed_tells_apart(ty as int, uy as int);
    reveal_strlit(":");
    let p = place(t, k, now);
    let q = place(u, k, now);
    assert(p == a + ":"@ + c);
    assert(q == b + ":"@ + d);
    if p == q {
        assert(p[a.len() as int] == ':' && q[b.len() as int] == ':');
        if a.len() < b.len() {
            assert(q[a.len() as int] == b[a.len() as int]);
        } else if b.len() < a.len() {
            assert(p[b.len() as int] == a[b.len() as int]);
        }
        assert(a =~= p.take(a.len() as int));
        assert(b =~= q.take(b.len() as int));
        assert(c =~= p.skip(a.len() as int + 1));
        assert(d =~= q.skip(b.len() as int + 1));
    }
}

/// What the branch of [`from_key`] says that holds at `t_us`: the first one
/// whose end is not reached.
pub open spec fn branch_at(keys: Seq<Keyframe>, i: int, t_us: i64) -> Sample
    decreases keys.len() - i,
{
    if i + 1 >= keys.len() {
        Sample::Held(keys[i].value)
    } else if t_us < keys[i + 1].time_us {
        transform::between(keys[i], keys[i + 1], t_us)
    } else {
        branch_at(keys, i + 1, t_us)
    }
}

/// The branches of the expression of a channel are the samples of the channel:
/// each time falls into the branch that [`AnimatedF32::eval`] takes. At the
/// first keyframe the sample is held and the branch sets out from the same
/// value.
pub proof fn lemma_branches_are_samples(keys: Seq<Keyframe>, t_us: i64, fallback: Scalar)
    requires
        transform::one_after_another(keys),
        keys.len() > 0,
    ensures
        t_us < keys[0].time_us ==> transform::sample(keys, t_us, fallback) == Sample::Held(
            keys[0].value,
        ),
        t_us == keys[0].time_us ==> transform::sets_out_from(
            branch_at(keys, 0, t_us),
            keys[0].value,
        ) && transform::sample(keys, t_us, fallback) == Sample::Held(keys[0].value),
        t_us > keys[0].time_us ==> transform::sample(keys, t_us, fallback) == branch_at(
            keys,
            0,
            t_us,
        ),
{
    if t_us > keys[0].time_us {
        lemma_branch_from(keys, 0, t_us, fallback);
    }
}

proof fn lemma_branch_from(keys: Seq<Keyframe>, i: int, t_us: i64, fallback: Scalar)
    requires
        transform::one_after_another(keys),
        0 <= i < keys.len(),
        keys[0].time_us < t_us,
        keys[i].time_us <= t_us,
    ensures
        transform::sample(keys, t_us, fallback) == branch_at(keys, i, t_us),
    decreases keys.len() - i,
{
    if i + 1 < keys.len() {
        if t_us < keys[i + 1].time_us {
            let pairs = transform::neighbours(keys);
            if i + 1 < keys.len() - 1 {
                assert(keys[i + 1].time_us < keys[keys.len() - 1].time_us);
            }
            assert forall|j: int| 0 <= j < i implies !transform::around(t_us)(
                #[trigger] pairs[j],
            ) by {
                assert(pairs[j] == (keys[j], keys[j + 1]));
                if j + 1 < i {
                    assert(keys[j + 1].time_us < keys[i].time_us);
                }
            }
            assert(pairs[i] == (keys[i], keys[i + 1]));
            seqs::lemma_first_where_found(pairs, transform::around(t_us), i);
        } else {
            lemma_branch_from(keys, i + 1, t_us, fallback);
        }
    }
}

} // verus!
