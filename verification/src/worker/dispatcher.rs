//! Which command starts what.

use vstd::prelude::*;

use super::job::{Command, CommandView};
use super::preview::{PreviewCtrl, PreviewCtrlView};
use crate::domain::export_spec::{ExportSpec, ExportSpecView};
use crate::domain::project::{Project, ProjectView};
use crate::ident::{ClipId, JobId};

verus! {

/// What the dispatcher knows: the exports that can be cancelled, and whether
/// there is a preview.
#[derive(Debug)]
pub struct DispatcherState {
    jobs: Vec<JobId>,
    has_preview: bool,
}

#[verifier::ext_equal]
pub struct DispatcherView {
    pub jobs: Set<JobId>,
    pub has_preview: bool,
}

impl View for DispatcherState {
    type V = DispatcherView;

    closed spec fn view(&self) -> DispatcherView {
        DispatcherView { jobs: self.jobs@.to_set(), has_preview: self.has_preview }
    }
}

/// What to do for a command.
#[derive(Debug)]
pub enum Action {
    /// Nothing.
    Ignore,
    /// Probe a file in the background.
    Probe { id: JobId, path: String },
    /// Export in the background, with a token to cancel it by.
    Merge { id: JobId, project: Project, spec: ExportSpec },
    /// Cancel an export by its token.
    Cancel { id: JobId },
    /// Start the preview threads.
    StartPreview { project: Project },
    /// Tell the preview threads.
    Control(PreviewCtrl),
    /// Make preview pictures in the background.
    Thumbnails { clip_id: ClipId, path: String, out_dir: String, count: usize },
    /// Make a waveform in the background.
    Waveform { clip_id: ClipId, path: String, out_path: String },
    /// Stop.
    Stop,
}

#[verifier::ext_equal]
pub enum ActionView {
    Ignore,
    Probe { id: JobId, path: Seq<char> },
    Merge { id: JobId, project: ProjectView, spec: ExportSpecView },
    Cancel { id: JobId },
    StartPreview { project: ProjectView },
    Control(PreviewCtrlView),
    Thumbnails { clip_id: ClipId, path: Seq<char>, out_dir: Seq<char>, count: usize },
    Waveform { clip_id: ClipId, path: Seq<char>, out_path: Seq<char> },
    Stop,
}

impl View for Action {
    type V = ActionView;

    open spec fn view(&self) -> ActionView {
        match *self {
            Action::Ignore => ActionView::Ignore,
            Action::Probe { id, path } => ActionView::Probe { id, path: path@ },
            Action::Merge { id, project, spec } => ActionView::Merge {
                id,
                project: project@,
                spec: spec@,
            },
            Action::Cancel { id } => ActionView::Cancel { id },
            Action::StartPreview { project } => ActionView::StartPreview { project: project@ },
            Action::Control(ctrl) => ActionView::Control(ctrl@),
            Action::Thumbnails { clip_id, path, out_dir, count } => ActionView::Thumbnails {
                clip_id,
                path: path@,
                out_dir: out_dir@,
                count,
            },
            Action::Waveform { clip_id, path, out_path } => ActionView::Waveform {
                clip_id,
                path: path@,
                out_path: out_path@,
            },
            Action::Stop => ActionView::Stop,
        }
    }
}

/// A message for the preview, if there is one.
pub open spec fn to_preview(s: DispatcherView, ctrl: PreviewCtrlView) -> ActionView {
    if s.has_preview {
        ActionView::Control(ctrl)
    } else {
        ActionView::Ignore
    }
}

/// What to do for a command.
pub open spec fn action_for(s: DispatcherView, cmd: CommandView) -> ActionView {
    match cmd {
        CommandView::Probe { id, path } => ActionView::Probe { id, path },
        CommandView::Merge { id, project, spec } => ActionView::Merge { id, project, spec },
        CommandView::Cancel { id } => if s.jobs.contains(id) {
            ActionView::Cancel { id }
        } else {
            ActionView::Ignore
        },
        CommandView::OpenPreview { project } => if s.has_preview {
            ActionView::Control(PreviewCtrlView::UpdateProject(project))
        } else {
            ActionView::StartPreview { project }
        },
        CommandView::PlayPreview => to_preview(s, PreviewCtrlView::Play),
        CommandView::PausePreview => to_preview(s, PreviewCtrlView::Pause),
        CommandView::SeekPreview { pts_us } => to_preview(s, PreviewCtrlView::Seek { pts_us }),
        CommandView::GenerateThumbnails { clip_id, path, out_dir, count } =>
        ActionView::Thumbnails { clip_id, path, out_dir, count },
        CommandView::GenerateWaveform { clip_id, path, out_path } => ActionView::Waveform {
            clip_id,
            path,
            out_path,
        },
        CommandView::SetMasterMuted(m) => to_preview(s, PreviewCtrlView::SetMuted(m)),
        CommandView::SetMasterVolume(v) => to_preview(s, PreviewCtrlView::SetVolume(v)),
        CommandView::Shutdown => ActionView::Stop,
    }
}

/// What the dispatcher knows after a command.
pub open spec fn state_after(s: DispatcherView, cmd: CommandView) -> DispatcherView {
    match cmd {
        CommandView::Merge { id, .. } => DispatcherView { jobs: s.jobs.insert(id), ..s },
        CommandView::OpenPreview { .. } => DispatcherView { has_preview: true, ..s },
        _ => s,
    }
}

impl DispatcherState {
    pub fn new() -> (s: Self)
        ensures
            s@ == (DispatcherView { jobs: Set::empty(), has_preview: false }),
    {
        let s: DispatcherState = DispatcherState { jobs: Vec::new(), has_preview: false };
        assert(s@.jobs =~= Set::empty());
        s
    }

    fn position(&self, id: JobId) -> (r: Option<usize>)
        ensures
            match r {
                Some(i) => i < self.jobs@.len() && self.jobs@[i as int] == id,
                None => !self.jobs@.contains(id),
            },
            r is Some == self@.jobs.contains(id),
    {
        let mut i: usize = 0;
        while i < self.jobs.len()
            invariant
                i <= self.jobs.len(),
                forall|j: int| 0 <= j < i ==> self.jobs@[j] != id,
            decreases self.jobs.len() - i,
        {
            if self.jobs[i] == id {
                assert(self.jobs@.contains(id));
                return Some(i);
            }
            i = i + 1;
        }
        None
    }

    fn control(&self, ctrl: PreviewCtrl) -> (a: Action)
        ensures
            a@ == to_preview(self@, ctrl@),
    {
        if self.has_preview {
            Action::Control(ctrl)
        } else {
            Action::Ignore
        }
    }

    /// Decide what to do for a command. The preview is opened once; after that
    /// it is told of the new project. Messages to a preview that was never
    /// opened come to nothing, and so does cancelling a job that is over.
    pub fn handle(&mut self, cmd: Command) -> (a: Action)
        ensures
            a@ == action_for(old(self)@, cmd@),
            final(self)@ == state_after(old(self)@, cmd@),
    {
        match cmd {
            Command::Probe { id, path } => Action::Probe { id, path },
            Command::Merge { id, project, spec } => {
                if self.position(id).is_none() {
                    self.jobs.push(id);
                    proof {
                        broadcast use vstd::seq_lib::group_seq_properties;

                        assert(self.jobs@.to_set() =~= old(self).jobs@.to_set().insert(id));
                    }
                } else {
                    assert(old(self)@.jobs.insert(id) =~= old(self)@.jobs);
                }
                Action::Merge { id, project, spec }
            },
            Command::Cancel { id } => if self.position(id).is_some() {
                Action::Cancel { id }
            } else {
                Action::Ignore
            },
            Command::OpenPreview { project } => {
                if self.has_preview {
                    Action::Control(PreviewCtrl::UpdateProject(project))
                } else {
                    self.has_preview = true;
                    Action::StartPreview { project }
                }
            },
            Command::PlayPreview => self.control(PreviewCtrl::Play),
            Command::PausePreview => self.control(PreviewCtrl::Pause),
            Command::SeekPreview { pts_us } => self.control(PreviewCtrl::Seek { pts_us }),
            Command::GenerateThumbnails { clip_id, path, out_dir, count } => Action::Thumbnails {
                clip_id,
                path,
                out_dir,
                count,
            },
            Command::GenerateWaveform { clip_id, path, out_path } => Action::Waveform {
                clip_id,
                path,
                out_path,
            },
            Command::SetMasterMuted(m) => self.control(PreviewCtrl::SetMuted(m)),
            Command::SetMasterVolume(v) => self.control(PreviewCtrl::SetVolume(v)),
            Command::Shutdown => Action::Stop,
        }
    }

    /// Forget an export that is over: it cannot be cancelled any more.
    pub fn job_done(&mut self, id: JobId)
        ensures
            final(self)@ == (DispatcherView { jobs: old(self)@.jobs.remove(id), ..old(self)@ }),
    {
        let ghost was = self.jobs@;
        let mut kept: Vec<JobId> = Vec::new();
        let mut i: usize = 0;
        while i < self.jobs.len()
            invariant
                i <= self.jobs.len(),
                self.jobs@ == was,
                self.has_preview == old(self).has_preview,
                forall|x: JobId|
                    #![trigger kept@.contains(x)]
                    kept@.contains(x) <==> x != id && was.take(i as int).contains(x),
            decreases self.jobs.len() - i,
        {
            let j: JobId = self.jobs[i];
            let ghost before = kept@;
            assert(was.take(i + 1) =~= was.take(i as int).push(j));
            if j != id {
                kept.push(j);
            }
            proof {
                broadcast use vstd::seq_lib::group_seq_properties;

                assert forall|x: JobId|
                    #![trigger kept@.contains(x)]
                    kept@.contains(x) <==> x != id && was.take(i + 1).contains(x) by {
                    assert(before.contains(x) <==> x != id && was.take(i as int).contains(x));
                    assert(was.take(i as int).push(j).contains(x) <==> x == j || was.take(
                        i as int,
                    ).contains(x));
                    if j != id {
                        assert(before.push(j).contains(x) <==> x == j || before.contains(x));
                    }
                }
            }
            i = i + 1;
        }
        proof {
            assert(was.take(i as int) =~= was);
            assert forall|x: JobId| #[trigger] kept@.to_set().contains(x) == was.to_set().remove(
                id,
            ).contains(x) by {
                assert(kept@.contains(x) <==> x != id && was.contains(x));
            }
            assert(kept@.to_set() =~= was.to_set().remove(id));
        }
        self.jobs = kept;
    }
}

/// An export can be cancelled from when it was asked for until it is over.
pub proof fn lemma_running_export_can_be_cancelled(
    s: DispatcherView,
    id: JobId,
    project: ProjectView,
    spec: ExportSpecView,
)
    ensures
        action_for(
            state_after(s, CommandView::Merge { id, project, spec }),
            CommandView::Cancel { id },
        ) == (ActionView::Cancel { id }),
        action_for(
            (DispatcherView { jobs: s.jobs.remove(id), ..s }),
            CommandView::Cancel { id },
        ) == ActionView::Ignore,
{
}

/// The preview threads are started once only.
pub proof fn lemma_preview_starts_once(s: DispatcherView, first: ProjectView, second: ProjectView)
    ensures
        action_for(
            state_after(s, CommandView::OpenPreview { project: first }),
            CommandView::OpenPreview { project: second },
        ) == ActionView::Control(PreviewCtrlView::UpdateProject(second)),
{
}

} // verus!
