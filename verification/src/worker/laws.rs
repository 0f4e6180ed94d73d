//! What the worker promises of what it is told.

use vstd::prelude::*;

use super::dispatcher;
use super::dispatcher::{ActionView, DispatcherView};
use super::job::CommandView;
use super::preview::PreviewCtrlView;
use crate::scalar::Scalar;

verus! {

/// What is asked of the worker is done with what was given for it.
pub proof fn lemma_commands_are_carried_out(
    s: DispatcherView,
    id: u128,
    path: Seq<char>,
    dir: Seq<char>,
    count: usize,
)
    ensures
        dispatcher::action_for(s, CommandView::Probe { id, path }) matches ActionView::Probe {
            id: i,
            path: p,
        } && i == id && p == path,
        dispatcher::action_for(
            s,
            CommandView::GenerateThumbnails { clip_id: id, path, out_dir: dir, count },
        ) matches ActionView::Thumbnails { clip_id, path: p, out_dir, count: n } && clip_id == id
            && p == path && out_dir == dir && n == count,
        dispatcher::action_for(
            s,
            CommandView::GenerateWaveform { clip_id: id, path, out_path: dir },
        ) matches ActionView::Waveform { clip_id, path: p, out_path } && clip_id == id && p == path
            && out_path == dir,
        dispatcher::action_for(s, CommandView::Shutdown) is Stop,
{
}

/// The preview hears of what is meant for it while there is one, and before that
/// it is passed over.
pub proof fn lemma_preview_hears_what_is_meant_for_it(
    s: DispatcherView,
    pts_us: i64,
    m: bool,
    v: Scalar,
)
    ensures
        !s.has_preview ==> dispatcher::action_for(s, CommandView::PlayPreview) is Ignore
            && dispatcher::action_for(s, CommandView::PausePreview) is Ignore
            && dispatcher::action_for(s, CommandView::SeekPreview { pts_us }) is Ignore
            && dispatcher::action_for(s, CommandView::SetMasterMuted(m)) is Ignore
            && dispatcher::action_for(s, CommandView::SetMasterVolume(v)) is Ignore,
        s.has_preview ==> dispatcher::action_for(s, CommandView::PlayPreview)
            == ActionView::Control(PreviewCtrlView::Play) && dispatcher::action_for(
            s,
            CommandView::PausePreview,
        ) == ActionView::Control(PreviewCtrlView::Pause) && dispatcher::action_for(
            s,
            CommandView::SeekPreview { pts_us },
        ) == ActionView::Control(PreviewCtrlView::Seek { pts_us }) && dispatcher::action_for(
            s,
            CommandView::SetMasterMuted(m),
        ) == ActionView::Control(PreviewCtrlView::SetMuted(m)) && dispatcher::action_for(
            s,
            CommandView::SetMasterVolume(v),
        ) == ActionView::Control(PreviewCtrlView::SetVolume(v)),
{
}

/// Jobs are remembered from when they start, one by one, and nothing but the start
/// of a job or of the preview changes what the worker remembers.
pub proof fn lemma_worker_remembers_jobs(s: DispatcherView, cmd: CommandView, other: u128)
    ensures
        cmd matches CommandView::Merge { id, .. } ==> dispatcher::state_after(
            s,
            cmd,
        ).jobs.contains(id) && (other != id ==> dispatcher::state_after(s, cmd).jobs.contains(other)
            == s.jobs.contains(other)) && dispatcher::state_after(s, cmd).has_preview
            == s.has_preview,
        cmd is OpenPreview ==> dispatcher::state_after(s, cmd).has_preview
            && dispatcher::state_after(s, cmd).jobs == s.jobs,
        !(cmd is Merge) && !(cmd is OpenPreview) ==> dispatcher::state_after(s, cmd) == s,
        cmd matches CommandView::Merge { id, project, spec } ==> dispatcher::action_for(s, cmd)
            == (ActionView::Merge { id, project, spec }),
{
}

} // verus!
