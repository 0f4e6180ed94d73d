//! What paths, messages and times in words promise.

use vstd::prelude::*;

use crate::bridge::models;
use crate::domain::clip::ClipView;
use crate::domain::project;
use crate::engine::audio;
use crate::engine::errors::EngineErrorView;
use crate::engine::ffmpeg::command;
use crate::engine::thumbnails;
use crate::errors::CoreErrorView;
use crate::ident;
use crate::paths;
use crate::persistence::config;
use crate::persistence::project as file;
use crate::scalar::{Scalar, THOUSANDTH_BITS};
use crate::seqs;
use crate::text;
use crate::view_model::ruler_vm;
use crate::view_model::timeline_vm;

verus! {

proof fn lemma_last_dot(stem: Seq<char>, ext: Seq<char>)
    requires
        forall|i: int| 0 <= i < ext.len() ==> #[trigger] ext[i] != '.',
    ensures
        paths::last_dot(stem + seq!['.'] + ext) == stem.len(),
    decreases ext.len(),
{
    let name = stem + seq!['.'] + ext;
    if ext.len() == 0 {
        assert(name =~= stem.push('.'));
    } else {
        assert(name.last() == ext[ext.len() - 1]);
        assert(name.drop_last() =~= stem + seq!['.'] + ext.drop_last());
        lemma_last_dot(stem, ext.drop_last());
    }
}

/// The extension of a file is what stands behind the last dot of its name, in
/// whatever folder it is.
pub proof fn lemma_extension_is_behind_the_last_dot(
    dir: Seq<char>,
    stem: Seq<char>,
    ext: Seq<char>,
)
    requires
        paths::trim_tail(dir) == dir,
        stem.len() > 0,
        stem[0] != '.',
        forall|i: int| 0 <= i < stem.len() ==> #[trigger] stem[i] != '/',
        forall|i: int| 0 <= i < ext.len() ==> #[trigger] ext[i] != '/' && ext[i] != '.',
    ensures
        paths::extension_of(paths::joined(dir, stem + seq!['.'] + ext)) == Some(ext),
        paths::name_of(paths::joined(dir, stem + seq!['.'] + ext)) == Some(
            stem + seq!['.'] + ext,
        ),
        paths::is_video(paths::joined(dir, stem + seq!['.'] + ext)) == paths::is_video_extension(
            paths::lowered(ext),
        ),
{
    let name = stem + seq!['.'] + ext;
    reveal_strlit(".");
    reveal_strlit("..");
    assert(name[0] == stem[0]);
    assert forall|i: int| 0 <= i < name.len() implies name[i] != '/' by {
        if i < stem.len() {
            assert(name[i] == stem[i]);
        } else if i > stem.len() {
            assert(name[i] == ext[i - stem.len() - 1]);
        }
    }
    assert("."@[0] == '.' && ".."@[0] == '.');
    paths::lemma_join_taken_apart(dir, name);
    lemma_last_dot(stem, ext);
    assert(name.skip(stem.len() as int + 1) =~= ext);
}

/// These files are videos, in capital letters as in small ones, and others are
/// not.
pub proof fn lemma_videos_go_by_their_extension(ext: Seq<char>)
    ensures
        paths::is_video_extension("mp4"@) && paths::is_video_extension("mov"@)
            && paths::is_video_extension("mkv"@) && paths::is_video_extension("avi"@)
            && paths::is_video_extension("webm"@) && paths::is_video_extension("m4v"@),
        paths::is_video_extension(ext) ==> 3 <= ext.len() <= 4,
        paths::lowered(ext).len() == ext.len(),
        forall|i: int|
            0 <= i < ext.len() && 'A' <= ext[i] <= 'Z' ==> #[trigger] paths::lowered(ext)[i] as int
                == ext[i] as int + 32,
        forall|i: int|
            0 <= i < ext.len() && !('A' <= ext[i] <= 'Z') ==> #[trigger] paths::lowered(ext)[i]
                == ext[i],
{
    reveal_strlit("mp4");
    reveal_strlit("mov");
    reveal_strlit("mkv");
    reveal_strlit("avi");
    reveal_strlit("webm");
    reveal_strlit("m4v");
}

/// A name goes behind a folder, with one slash between them; a name that starts
/// at the root stands alone.
pub proof fn lemma_name_goes_into_its_folder(dir: Seq<char>, name: Seq<char>)
    ensures
        name.len() > 0 && name[0] == '/' ==> paths::joined(dir, name) == name,
        dir.len() > 0 && dir.last() != '/' && (name.len() == 0 || name[0] != '/')
            ==> paths::joined(dir, name) == dir + seq!['/'] + name,
        dir.len() > 0 && dir.last() == '/' && (name.len() == 0 || name[0] != '/')
            ==> paths::joined(dir, name) == dir + name,
{
}

/// A message names what went wrong: the clip, the place, the file or the reason.
pub proof fn lemma_message_names_the_fault(
    id: u128,
    index: usize,
    len: usize,
    why: Seq<char>,
    code: i32,
)
    ensures
        seqs::has_piece(CoreErrorView::ClipNotFound(id).text(), ident::hyphenated(id)),
        seqs::has_piece(CoreErrorView::UnsupportedFile(why).text(), why),
        seqs::has_piece(CoreErrorView::InvalidTrim(why).text(), why),
        seqs::has_piece(
            (CoreErrorView::InvalidReorder { index, len }).text(),
            "index "@ + text::dec(index as nat) + " out of bounds (len "@ + text::dec(len as nat)
                + ")"@,
        ),
        seqs::has_piece(EngineErrorView::BinaryMissing(why).text(), why),
        seqs::has_piece(EngineErrorView::Io(why).text(), why),
        seqs::has_piece(EngineErrorView::ProbeParse(why).text(), why),
        seqs::has_piece(
            EngineErrorView::NonZeroExit(code).text(),
            text::dec_signed(code as int),
        ),
{
    seqs::lemma_piece_at_end("clip not found: "@, ident::hyphenated(id));
    seqs::lemma_piece_at_end("unsupported file: "@, why);
    seqs::lemma_piece_at_end("invalid trim: "@, why);
    seqs::lemma_piece_at_end("media engine binary not found on PATH: "@, why);
    seqs::lemma_piece_at_end("io error: "@, why);
    seqs::lemma_piece_at_end("probe parse error: "@, why);
    seqs::lemma_piece_at_end("media engine exited with status "@, text::dec_signed(code as int));
    reveal_strlit("invalid reorder: index ");
    reveal_strlit("invalid reorder: ");
    reveal_strlit("index ");
    assert("invalid reorder: index "@ =~= "invalid reorder: "@ + "index "@);
    let d = text::dec(index as nat);
    let n = text::dec(len as nat);
    let own = "index "@ + d + " out of bounds (len "@ + n + ")"@;
    seqs::lemma_append_5("invalid reorder: "@, "index "@, d, " out of bounds (len "@, n, ")"@);
    seqs::lemma_piece_at_end("invalid reorder: "@, own);
    assert((CoreErrorView::InvalidReorder { index, len }).text() == "invalid reorder: "@ + own);
}

/// Times in the window read as hours, minutes and seconds; the hours show only
/// where there are some.
pub proof fn lemma_times_read_as_clock(h: nat, m: nat, s: nat, us: i64)
    requires
        m < 60,
        s < 60,
    ensures
        h > 0 ==> ruler_vm::label_of((h * 3600 + m * 60 + s) as int) == text::dec(h) + ":"@
            + text::dec_padded(m, 2) + ":"@ + text::dec_padded(s, 2),
        ruler_vm::label_of((m * 60 + s) as int) == text::dec(m) + ":"@ + text::dec_padded(s, 2),
        h > 0 ==> timeline_vm::length_text((h * 3600 + m * 60 + s) as int) == text::dec_padded(
            h,
            2,
        ) + ":"@ + text::dec_padded(m, 2) + ":"@ + text::dec_padded(s, 2),
        timeline_vm::length_text((m * 60 + s) as int) == text::dec_padded(m, 2) + ":"@
            + text::dec_padded(s, 2),
        us < 0 ==> timeline_vm::position_text(us) == timeline_vm::position_text(0),
        (m * 60 + s) * 1_000_000 <= us < (m * 60 + s + 1) * 1_000_000
            ==> timeline_vm::position_text(us) == timeline_vm::length_text((m * 60 + s) as int),
{
    let long = (h * 3600 + m * 60 + s) as int;
    let short = (m * 60 + s) as int;
    assert(long / 3600 == h);
    assert(long % 3600 == short);
    assert(short / 60 == m);
    assert(long % 60 == s);
    assert(short % 60 == s);
    if short * 1_000_000 <= us < (short + 1) * 1_000_000 {
        assert(us as int / 1_000_000 == short);
    }
}

/// The small ticks of the ruler divide the large ones evenly enough: five parts of
/// a step below a minute, six of a longer one, and never less than a second.
pub proof fn lemma_small_ticks_divide_the_step(step: u32)
    requires
        step >= 1,
    ensures
        ruler_vm::minor_step(step) >= 1,
        step >= 60 ==> ruler_vm::minor_step(step) * 6 <= step < ruler_vm::minor_step(step) * 6 + 6,
        5 <= step < 60 ==> ruler_vm::minor_step(step) * 5 <= step < ruler_vm::minor_step(step) * 5
            + 5,
        step < 5 ==> ruler_vm::minor_step(step) == 1,
{
}

/// The ruler goes on to the end of the timeline, unless it would have too many
/// ticks.
pub proof fn lemma_ruler_reaches_the_end(step: u32, total_secs: u32, i: int)
    requires
        1 <= step <= 3600,
        0 <= i < ruler_vm::ruler(step, total_secs).len(),
    ensures
        ({
            let n = ruler_vm::ruler(step, total_secs).len() as int;
            let small = ruler_vm::minor_step(step);
            &&& n < ruler_vm::MAX_TICKS ==> n * small > total_secs
            &&& n <= ruler_vm::MAX_TICKS && n >= 1
            &&& i * small <= total_secs
            &&& ruler_vm::ruler(step, total_secs)[i].label_secs == i * small
            &&& ruler_vm::ruler(step, total_secs)[i].major <==> (i * small) % (step as int) == 0
        }),
{
    let small = ruler_vm::minor_step(step);
    let all = total_secs as int / small;
    assert(all * small <= total_secs < (all + 1) * small) by (nonlinear_arith)
        requires
            small >= 1,
            all == total_secs as int / small,
    ;
    assert(0 <= i * small <= all * small) by (nonlinear_arith)
        requires
            small >= 1,
            0 <= i <= all,
    ;
}

/// Both programs lie in one folder; a program that is given by its name alone is
/// looked for like the other.
pub proof fn lemma_programs_lie_together(dir: Seq<char>, name: Seq<char>)
    requires
        paths::trim_tail(dir) == dir,
        dir.len() > 0,
        dir[0] == '/',
        name.len() > 0,
        forall|i: int| 0 <= i < name.len() ==> name[i] != '/',
        name != "."@,
        name != ".."@,
    ensures
        command::ffprobe_beside(paths::joined(dir, name)) == paths::joined(dir, "ffprobe"@),
        command::ffprobe_beside(name) == "ffprobe"@,
{
    paths::lemma_join_taken_apart(dir, name);
    assert(paths::joined(dir, name)[0] == '/');
    assert(name[0] != '/');
}

/// The folder of the last export is remembered, unless it is the same one.
pub proof fn lemma_last_folder_is_remembered(
    current: Option<Seq<char>>,
    dir: Seq<char>,
    name: Seq<char>,
)
    requires
        paths::trim_tail(dir) == dir,
        dir.len() > 0,
        name.len() > 0,
        forall|i: int| 0 <= i < name.len() ==> name[i] != '/',
        name != "."@,
        name != ".."@,
    ensures
        current is None ==> config::new_output_dir(current, paths::joined(dir, name)) == Some(dir),
        current == Some(dir) ==> config::new_output_dir(current, paths::joined(dir, name)) is None,
        config::new_output_dir(current, paths::joined(dir, name)) matches Some(now) ==> now == dir,
{
    paths::lemma_join_taken_apart(dir, name);
}

/// A waveform file begins with its mark, and what is kept of a clip lies under the
/// identifier of the clip.
pub proof fn lemma_files_are_named_for_their_clips(dir: Seq<char>, id: u128, i: int)
    ensures
        audio::magic() == seq!['C' as u8, 'W' as u8, 'V' as u8, '1' as u8],
        audio::waveform_of(dir, id) == paths::joined(
            paths::joined(dir, "waveforms"@),
            ident::hyphenated(id) + ".bin"@,
        ),
        models::thumbs_of(dir, id) == paths::joined(
            paths::joined(dir, "thumbs"@),
            ident::hyphenated(id),
        ),
        thumbnails::thumbnail_path_of(dir, i) == paths::joined(
            dir,
            text::dec(i as nat) + ".jpg"@,
        ),
{
}

/// The parts of a path are those of its folder, and behind them its name; the root
/// has one part, and an empty path none.
pub proof fn lemma_parts_of_a_path(dir: Seq<char>, name: Seq<char>)
    requires
        paths::trim_tail(dir) == dir,
        name.len() > 0,
        forall|i: int| 0 <= i < name.len() ==> name[i] != '/',
        name != "."@,
        name != ".."@,
    ensures
        paths::components(paths::joined(dir, name)) == paths::components(dir).push(name),
        paths::components(Seq::empty()).len() == 0,
        paths::components(seq!['/']) == seq![seq!['/']],
{
    let p = paths::joined(dir, name);
    paths::lemma_join_taken_apart(dir, name);
    let t = paths::trim_tail(p);
    let h = t.take(paths::last_start(t));
    assert(paths::trim_tail(h) == dir);
    reveal_with_fuel(paths::components, 2);
    reveal_with_fuel(paths::last_start, 2);
    assert(paths::components(h) == paths::components(dir));
    let root = seq!['/'];
    assert(paths::trim_tail(root) == root);
    assert(root.last() == '/');
    assert(root.skip(1).len() == 0);
}

/// The steps of the ruler are those that people count in: one, two, five, ten,
/// fifteen and thirty seconds, one, two, five, ten and thirty minutes, an hour.
pub proof fn lemma_steps_are_round()
    ensures
        ruler_vm::ladder().len() == 12,
        ruler_vm::ladder()[0] == 1 && ruler_vm::ladder()[1] == 2 && ruler_vm::ladder()[2] == 5
            && ruler_vm::ladder()[3] == 10 && ruler_vm::ladder()[4] == 15
            && ruler_vm::ladder()[5] == 30,
        ruler_vm::ladder()[6] == 60 && ruler_vm::ladder()[7] == 2 * 60 && ruler_vm::ladder()[8] == 5
            * 60 && ruler_vm::ladder()[9] == 10 * 60 && ruler_vm::ladder()[10] == 30 * 60
            && ruler_vm::ladder()[11] == 60 * 60,
{
}

/// A project file that was brought up to date keeps its clips and its zoom, and
/// holds the clips in its project alone.
pub proof fn lemma_current_file_holds_its_project(
    f: file::ProjectView,
    clips: Seq<ClipView>,
    zoom: Scalar,
)
    requires
        f.is_current_with(clips, zoom),
    ensures
        f.version == 3,
        f.playlist is None,
        f.zoom_px_per_sec == zoom,
        f.project matches Some(p) && p.tracks.len() == 4 && p.tracks[1].name == "V1"@
            && p.tracks[1].clips.len() == clips.len() && p.tracks[2].clips == p.tracks[1].clips,
        f.project matches Some(p) ==> f.gives(p),
{
    let p = f.project->0;
    assert(project::emptied(p.tracks)[1].name == p.tracks[1].name);
}

/// A step of the ruler is one of the round ones, the least that is not less than
/// was asked for, or the longest.
pub proof fn lemma_step_is_the_next_round_one(step: u32, raw: u32, k: int)
    requires
        ruler_vm::is_step_for(step, raw),
        0 <= k < ruler_vm::ladder().len(),
    ensures
        ruler_vm::ladder().contains(step),
        raw <= 3600 ==> step >= raw,
        raw <= ruler_vm::ladder()[k] ==> step <= ruler_vm::ladder()[k],
        raw > 3600 ==> step == 3600,
{
    assert(ruler_vm::ladder()[11] == 3600);
    assert(ruler_vm::ladder().contains(ruler_vm::ladder()[k]));
}

/// Numbers are ordered as their bits are, the negative ones the other way round;
/// what is no number is neither less nor more than any. Infinity is a number.
pub proof fn lemma_numbers_are_ordered(x: u32, y: u32, a: Scalar, b: Scalar)
    requires
        x < y <= 0x7f80_0000,
    ensures
        (Scalar { bits: x }).lt(Scalar { bits: y }),
        (Scalar { bits: (0x8000_0000 + y) as u32 }).lt(Scalar { bits: (0x8000_0000 + x) as u32 }),
        (Scalar { bits: (0x8000_0000 + y) as u32 }).lt(Scalar { bits: x }),
        !(Scalar { bits: 0x8000_0000 }).lt(Scalar { bits: 0 }) && !(Scalar { bits: 0 }).lt(
            Scalar { bits: 0x8000_0000 },
        ),
        !a.lt(a),
        a.lt(b) ==> !b.lt(a),
        (Scalar { bits: 0x7f80_0001 }).is_nan() && (Scalar { bits: 0xff80_0001 }).is_nan(),
        a.is_nan() ==> !a.lt(b) && !b.lt(a) && !a.at_least_one() && !a.near_one() && !a.near_zero(),
        a.at_least_one() <==> !a.is_nan() && !a.lt(Scalar { bits: 0x3f80_0000 }),
{
}

/// A number is near zero where it is less than a thousandth away from it, on either
/// side, and the thousandth itself is not.
pub proof fn lemma_a_thousandth_is_not_near_zero(m: u32)
    requires
        m <= 0x7f80_0000,
    ensures
        (Scalar { bits: m }).near_zero() <==> (Scalar { bits: m }).lt(
            Scalar { bits: THOUSANDTH_BITS },
        ),
        (Scalar { bits: (0x8000_0000 + m) as u32 }).near_zero() <==> (Scalar { bits: m }).near_zero(),
        !(Scalar { bits: THOUSANDTH_BITS }).near_zero(),
        THOUSANDTH_BITS == 0x3a83_126f,
{
}

/// A number is its mantissa times a power of two: one is two to the power of
/// twenty-three times two to the power of minus that, the next number is one part
/// more, and twice a number has the same parts one power higher.
pub proof fn lemma_numbers_have_parts(x: u32)
    requires
        0x80_0000 <= x < 0x7e80_0000,
    ensures
        (Scalar { bits: 0x3f80_0000 }).mantissa() == 0x80_0000,
        (Scalar { bits: 0x3f80_0000 }).exponent() == -23,
        (Scalar { bits: 0 }).mantissa() == 0,
        (Scalar { bits: (x + 0x80_0000) as u32 }).mantissa() == (Scalar { bits: x }).mantissa(),
        (Scalar { bits: (x + 0x80_0000) as u32 }).exponent() == (Scalar { bits: x }).exponent() + 1,
        0x80_0000 <= (Scalar { bits: x }).mantissa() < 0x100_0000,
        (Scalar { bits: (0x8000_0000 + x) as u32 }).mantissa() == (Scalar { bits: x }).mantissa(),
        (Scalar { bits: (0x8000_0000 + x) as u32 }).negative() && !(Scalar { bits: x }).negative(),
{
}

/// A number is near one where it is less than a thousandth away from it: below one
/// its steps are half as long as above.
pub proof fn lemma_near_one_is_within_a_thousandth(x: u32)
    ensures
        0x3f00_0000 <= x < 0x3f80_0000 ==> ((Scalar { bits: x }).near_one() <==> (0x3f80_0000 - x)
            * 1_000 < 16_777_216),
        0x3f80_0000 <= x < 0x4000_0000 ==> ((Scalar { bits: x }).near_one() <==> (x - 0x3f80_0000)
            * 1_000 < 8_388_608),
        x < 0x3f00_0000 || x >= 0x4000_0000 ==> !(Scalar { bits: x }).near_one(),
{
}

} // verus!
