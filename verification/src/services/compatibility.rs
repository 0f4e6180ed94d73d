//! Whether clips can be joined as they are.

use vstd::prelude::*;

use crate::domain::clip::{Clip, ClipView};
use crate::domain::codec::{CodecProfile, CodecProfileView};
use crate::domain::playlist::Playlist;

verus! {

#[derive(Debug)]
pub enum MergeStrategy {
    /// All clips have one codec profile: join them without encoding.
    StreamCopy,
    /// Some clip differs: encode everything to the target profile.
    Reencode { target: CodecProfile },
}

#[verifier::ext_equal]
pub enum MergeStrategyView {
    StreamCopy,
    Reencode { target: CodecProfileView },
}

impl View for MergeStrategy {
    type V = MergeStrategyView;

    open spec fn view(&self) -> MergeStrategyView {
        match *self {
            MergeStrategy::StreamCopy => MergeStrategyView::StreamCopy,
            MergeStrategy::Reencode { target } => MergeStrategyView::Reencode {
                target: target@,
            },
        }
    }
}

impl Clone for MergeStrategy {
    fn clone(&self) -> (res: Self)
        ensures
            res@ == self@,
    {
        match self {
            MergeStrategy::StreamCopy => MergeStrategy::StreamCopy,
            MergeStrategy::Reencode { target } => MergeStrategy::Reencode {
                target: target.clone(),
            },
        }
    }
}

/// All clips have the profile of the first one.
pub open spec fn all_alike(clips: Seq<ClipView>) -> bool {
    forall|i: int|
        0 <= i < clips.len() ==> (#[trigger] clips[i]).info.profile == clips[0].info.profile
}

/// How to merge the clips. The first clip sets the target.
pub open spec fn strategy_for(clips: Seq<ClipView>) -> MergeStrategyView {
    if all_alike(clips) {
        MergeStrategyView::StreamCopy
    } else {
        MergeStrategyView::Reencode { target: clips[0].info.profile }
    }
}

pub struct CompatibilityAnalyzer;

impl CompatibilityAnalyzer {
    /// How to merge the clips of a playlist; nothing where there are none.
    pub fn analyze(playlist: &Playlist) -> (r: Option<MergeStrategy>)
        ensures
            match r {
                Some(s) => playlist@.len() > 0 && s@ == strategy_for(playlist@),
                None => playlist@.len() == 0,
            },
    {
        let clips: &[Clip] = playlist.clips();
        if clips.len() == 0 {
            return None;
        }
        let mut i: usize = 0;
        while i < clips.len()
            invariant
                i <= clips.len(),
                0 < clips.len(),
                clips@.len() == playlist@.len(),
                forall|j: int| 0 <= j < clips@.len() ==> (#[trigger] clips@[j])@ == playlist@[j],
                forall|j: int|
                    0 <= j < i ==> (#[trigger] playlist@[j]).info.profile
                        == playlist@[0].info.profile,
            decreases clips.len() - i,
        {
            if !clips[i].is_compatible_with(&clips[0]) {
                assert(playlist@[i as int].info.profile != playlist@[0].info.profile);
                return Some(MergeStrategy::Reencode { target: clips[0].info.profile.clone() });
            }
            i = i + 1;
        }
        Some(MergeStrategy::StreamCopy)
    }
}

} // verus!
