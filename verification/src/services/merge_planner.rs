//! From a playlist to what a merge has to do.

use vstd::prelude::*;

use super::compatibility;
use super::compatibility::{CompatibilityAnalyzer, MergeStrategy, MergeStrategyView};
use crate::domain::clip::{Clip, ClipView};
use crate::domain::export_spec::{ExportSpec, ExportSpecView};
use crate::domain::playlist::Playlist;
use crate::errors::{CoreError, CoreErrorView, CoreResult};
use crate::time::Duration;

verus! {

/// A source file and the part of it to use.
#[derive(Debug)]
pub struct MergeInput {
    pub path: String,
    pub trim_in_us: i64,
    pub trim_out_us: i64,
}

#[verifier::ext_equal]
pub struct MergeInputView {
    pub path: Seq<char>,
    pub trim_in_us: i64,
    pub trim_out_us: i64,
}

impl View for MergeInput {
    type V = MergeInputView;

    open spec fn view(&self) -> MergeInputView {
        MergeInputView {
            path: self.path@,
            trim_in_us: self.trim_in_us,
            trim_out_us: self.trim_out_us,
        }
    }
}

impl Clone for MergeInput {
    fn clone(&self) -> (res: Self)
        ensures
            res@ == self@,
    {
        MergeInput {
            path: self.path.clone(),
            trim_in_us: self.trim_in_us,
            trim_out_us: self.trim_out_us,
        }
    }
}

pub open spec fn input_view() -> spec_fn(MergeInput) -> MergeInputView {
    |i: MergeInput| i@
}

pub open spec fn input_views(inputs: Seq<MergeInput>) -> Seq<MergeInputView> {
    inputs.map_values(input_view())
}

pub fn clone_inputs(inputs: &Vec<MergeInput>) -> (res: Vec<MergeInput>)
    ensures
        input_views(res@) == input_views(inputs@),
{
    let mut res: Vec<MergeInput> = Vec::new();
    let mut i: usize = 0;
    while i < inputs.len()
        invariant
            i <= inputs.len(),
            res@.len() == i,
            forall|j: int| 0 <= j < i ==> (#[trigger] res@[j])@ == inputs@[j]@,
        decreases inputs.len() - i,
    {
        res.push(inputs[i].clone());
        i = i + 1;
    }
    assert(input_views(res@) =~= input_views(inputs@));
    res
}

/// A merge job.
#[derive(Debug)]
pub struct MergePlan {
    pub inputs: Vec<MergeInput>,
    pub spec: ExportSpec,
    pub strategy: MergeStrategy,
    /// What progress is measured against.
    pub total_duration: Duration,
}

#[verifier::ext_equal]
pub struct MergePlanView {
    pub inputs: Seq<MergeInputView>,
    pub spec: ExportSpecView,
    pub strategy: MergeStrategyView,
    pub total_duration: Duration,
}

impl View for MergePlan {
    type V = MergePlanView;

    open spec fn view(&self) -> MergePlanView {
        MergePlanView {
            inputs: input_views(self.inputs@),
            spec: self.spec@,
            strategy: self.strategy@,
            total_duration: self.total_duration,
        }
    }
}

/// The part of its source that a clip shows.
pub open spec fn input_of(c: ClipView) -> MergeInputView {
    MergeInputView { path: c.path, trim_in_us: c.trim_in.us(), trim_out_us: c.trim_out.us() }
}

/// How long the sources of the first `n` clips are together, in nanoseconds.
pub open spec fn source_nanos(clips: Seq<ClipView>, n: int) -> int
    decreases n,
{
    if n <= 0 {
        0
    } else {
        source_nanos(clips, n - 1) + clips[n - 1].info.duration.nanos
    }
}

pub open spec fn plan_for(clips: Seq<ClipView>, spec: ExportSpecView) -> MergePlanView {
    MergePlanView {
        inputs: Seq::new(clips.len(), |i: int| input_of(clips[i])),
        spec,
        strategy: compatibility::strategy_for(clips),
        total_duration: Duration { nanos: source_nanos(clips, clips.len() as int) as u128 },
    }
}

pub proof fn lemma_source_nanos_grow(clips: Seq<ClipView>, n: int, m: int)
    requires
        n <= m,
    ensures
        source_nanos(clips, n) <= source_nanos(clips, m),
    decreases m,
{
    if n < m && m > 0 {
        lemma_source_nanos_grow(clips, n, m - 1);
    }
}

/// The part of its source that a clip shows.
pub fn merge_input(c: &Clip) -> (r: MergeInput)
    ensures
        r@ == input_of(c@),
{
    MergeInput {
        path: c.path.clone(),
        trim_in_us: c.trim_in_us(),
        trim_out_us: c.trim_out_us(),
    }
}

pub struct MergePlanner;

impl MergePlanner {
    /// Plan the merge of a playlist. There has to be a clip to merge.
    pub fn build(playlist: &Playlist, spec: ExportSpec) -> (r: CoreResult<MergePlan>)
        requires
            source_nanos(playlist@, playlist@.len() as int) <= u128::MAX,
        ensures
            match r {
                Ok(plan) => playlist@.len() > 0 && plan@ == plan_for(playlist@, spec@),
                Err(e) => playlist@.len() == 0 && e@ == CoreErrorView::EmptyPlaylist,
            },
    {
        let strategy: MergeStrategy = match CompatibilityAnalyzer::analyze(playlist) {
            Some(s) => s,
            None => return Err(CoreError::EmptyPlaylist),
        };
        let clips: &[Clip] = playlist.clips();
        let mut inputs: Vec<MergeInput> = Vec::new();
        let mut nanos: u128 = 0;
        let mut i: usize = 0;
        while i < clips.len()
            invariant
                i <= clips.len(),
                clips@.len() == playlist@.len(),
                forall|j: int| 0 <= j < clips@.len() ==> (#[trigger] clips@[j])@ == playlist@[j],
                source_nanos(playlist@, playlist@.len() as int) <= u128::MAX,
                nanos == source_nanos(playlist@, i as int),
                inputs@.len() == i,
                forall|j: int| 0 <= j < i ==> (#[trigger] inputs@[j])@ == input_of(playlist@[j]),
            decreases clips.len() - i,
        {
            proof {
                lemma_source_nanos_grow(playlist@, i + 1, playlist@.len() as int);
            }
            inputs.push(merge_input(&clips[i]));
            nanos = nanos + clips[i].info.duration.nanos;
            i = i + 1;
        }
        let plan: MergePlan = MergePlan {
            inputs,
            spec,
            strategy,
            total_duration: Duration { nanos },
        };
        assert(plan@.inputs =~= plan_for(playlist@, spec@).inputs);
        Ok(plan)
    }
}

} // verus!
