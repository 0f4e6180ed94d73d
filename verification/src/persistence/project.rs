//! Project files and their versions.
//!
//! Files of the first two versions hold a playlist. Since the third version
//! they hold a project with tracks.

use vstd::prelude::*;

use crate::domain::clip::ClipView;
use crate::domain::playlist::Playlist;
use crate::domain::project;
use crate::domain::project::{Project as CoreProject, ProjectView as CoreProjectView};
use crate::scalar::Scalar;

verus! {

pub const CURRENT_VERSION: u32 = 3;

/// The bits of the zoom of a file that names none: six pixels a second.
pub const DEFAULT_ZOOM_BITS: u32 = 0x40c0_0000;

/// What a project file holds.
#[derive(Debug)]
pub struct Project {
    pub version: u32,
    pub project: Option<CoreProject>,
    /// Only in files of the first two versions.
    pub playlist: Option<Playlist>,
    pub zoom_px_per_sec: Scalar,
}

#[verifier::ext_equal]
pub struct ProjectView {
    pub version: u32,
    pub project: Option<CoreProjectView>,
    pub playlist: Option<Seq<ClipView>>,
    pub zoom_px_per_sec: Scalar,
}

impl View for Project {
    type V = ProjectView;

    open spec fn view(&self) -> ProjectView {
        ProjectView {
            version: self.version,
            project: match self.project {
                Some(p) => Some(p@),
                None => None,
            },
            playlist: match self.playlist {
                Some(p) => Some(p@),
                None => None,
            },
            zoom_px_per_sec: self.zoom_px_per_sec,
        }
    }
}

/// The clips of a file that may hold a playlist.
pub open spec fn clips_or_none(playlist: Option<Seq<ClipView>>) -> Seq<ClipView> {
    match playlist {
        Some(clips) => clips,
        None => Seq::empty(),
    }
}

impl ProjectView {
    /// A file of the current version that holds the clips one after the other
    /// on V1.
    pub open spec fn is_current_with(self, clips: Seq<ClipView>, zoom: Scalar) -> bool {
        &&& self.version == CURRENT_VERSION
        &&& self.playlist is None
        &&& self.zoom_px_per_sec == zoom
        &&& (self.project matches Some(p) && project::holds_in_a_row(p, clips))
    }

    /// `p` is the project that the file holds, or one made of its playlist, or
    /// a new one.
    pub open spec fn gives(self, p: CoreProjectView) -> bool {
        match self.project {
            Some(own) => p == own,
            None => match self.playlist {
                Some(clips) => project::holds_in_a_row(p, clips),
                None => project::is_new_project(p),
            },
        }
    }

    /// The playlist of the file can be laid out in a row.
    pub open spec fn fits(self) -> bool {
        match self.playlist {
            Some(clips) => project::fits_in_a_row(clips),
            None => true,
        }
    }
}

impl Project {
    /// Whether the playlist of the file can be laid out in a row.
    pub fn can_be_opened(&self) -> (r: bool)
        ensures
            r == self@.fits(),
    {
        match &self.playlist {
            Some(playlist) => project::can_lie_in_a_row(playlist),
            None => true,
        }
    }

    /// A file of the current version.
    pub fn new(core_project: CoreProject, zoom_px_per_sec: Scalar) -> (res: Self)
        ensures
            res@ == (ProjectView {
                version: CURRENT_VERSION,
                project: Some(core_project@),
                playlist: None,
                zoom_px_per_sec,
            }),
    {
        Project {
            version: CURRENT_VERSION,
            project: Some(core_project),
            playlist: None,
            zoom_px_per_sec,
        }
    }

    /// A file of the current version with the clips of a playlist on V1.
    pub fn from_playlist(playlist: Playlist, zoom_px_per_sec: Scalar) -> (res: Self)
        requires
            project::fits_in_a_row(playlist@),
        ensures
            res@.is_current_with(playlist@, zoom_px_per_sec),
    {
        let core_project: CoreProject = CoreProject::from_playlist(&playlist);
        Project::new(core_project, zoom_px_per_sec)
    }

    /// The project that the file holds, made of its playlist where it holds
    /// one.
    pub fn core_project(&self) -> (res: CoreProject)
        requires
            self@.fits(),
        ensures
            self@.gives(res@),
    {
        match &self.project {
            Some(p) => p.clone(),
            None => match &self.playlist {
                Some(playlist) => CoreProject::from_playlist(playlist),
                None => CoreProject::with_default_tracks(),
            },
        }
    }

    /// The clips of V1 of the project that the file holds.
    pub fn playlist_compat(&self) -> (res: Playlist)
        requires
            self@.fits(),
        ensures
            exists|p: CoreProjectView|
                #[trigger] self@.gives(p) && project::is_playlist_of(res@, p.tracks),
    {
        let core: CoreProject = self.core_project();
        assert(self@.gives(core@));
        core.to_playlist()
    }

    /// The file as one of the current version: an older one is migrated, its
    /// playlist put on V1.
    pub fn upgraded(self) -> (res: Self)
        requires
            self@.fits(),
        ensures
            if self@.version < CURRENT_VERSION {
                res@.is_current_with(clips_or_none(self@.playlist), self@.zoom_px_per_sec)
            } else {
                res@ == self@
            },
    {
        if self.version < CURRENT_VERSION {
            migrate_to_v3(self)
        } else {
            self
        }
    }
}

/// Make a file of one of the first two versions one of the third: its playlist
/// is put on V1.
pub fn migrate_to_v3(old_file: Project) -> (res: Project)
    requires
        old_file@.fits(),
    ensures
        res@.is_current_with(clips_or_none(old_file@.playlist), old_file@.zoom_px_per_sec),
{
    let zoom: Scalar = old_file.zoom_px_per_sec;
    let playlist: Playlist = match old_file.playlist {
        Some(p) => p,
        None => Playlist::new(),
    };
    Project::from_playlist(playlist, zoom)
}

/// Migrating a file of an older version and taking its playlist gives back the
/// playlist of the file.
pub proof fn lemma_migration_keeps_playlist(
    clips: Seq<ClipView>,
    zoom: Scalar,
    migrated: ProjectView,
    p: CoreProjectView,
    out: Seq<ClipView>,
)
    requires
        project::fits_in_a_row(clips),
        forall|k: int| 0 <= k < clips.len() ==> (#[trigger] clips[k]).dur_us() >= 0,
        migrated.is_current_with(clips, zoom),
        migrated.gives(p),
        project::is_playlist_of(out, p.tracks),
    ensures
        out == clips,
{
    project::lemma_playlist_round_trip(out, clips, p.tracks);
}

} // verus!
