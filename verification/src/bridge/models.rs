//! Where the pictures and the waveform of a clip come from.

use vstd::prelude::*;

use crate::domain::clip::{Clip, ClipView};
use crate::engine::audio;
use crate::ident;
use crate::ident::ClipId;
use crate::paths;
use crate::text;

verus! {

/// Set the folder of the pictures and waveforms. Only the first one set counts.
pub fn set_data_dir(slot: &mut Option<String>, path: String)
    ensures
        text::opt_view(*final(slot)) == match text::opt_view(*old(slot)) {
            Some(first) => Some(first),
            None => Some(path@),
        },
{
    if slot.is_none() {
        *slot = Some(path);
    }
}

/// The folder of a clip's preview pictures.
pub open spec fn thumbs_of(data_dir: Seq<char>, id: ClipId) -> Seq<char> {
    paths::joined(paths::joined(data_dir, "thumbs"@), ident::hyphenated(id))
}

/// The folder of a clip's preview pictures.
pub fn thumbs_dir(data_dir: &str, clip_id: ClipId) -> (s: String)
    ensures
        s@ == thumbs_of(data_dir@, clip_id),
{
    let id: String = ident::id_text(clip_id);
    paths::join(paths::join(data_dir, "thumbs").as_str(), id.as_str())
}

/// The file of a clip's waveform.
pub fn waveform_path(data_dir: &str, clip_id: ClipId) -> (s: String)
    ensures
        s@ == audio::waveform_of(data_dir@, clip_id),
{
    audio::waveform_cache_path(data_dir, clip_id)
}

/// Where the preview pictures of a clip are.
#[derive(Debug)]
pub enum Thumbnails {
    /// These files.
    Files(Vec<String>),
    /// The JPEG files of this folder, by name.
    Folder(String),
    Nowhere,
}

#[verifier::ext_equal]
pub enum ThumbnailsView {
    Files(Seq<Seq<char>>),
    Folder(Seq<char>),
    Nowhere,
}

impl View for Thumbnails {
    type V = ThumbnailsView;

    open spec fn view(&self) -> ThumbnailsView {
        match *self {
            Thumbnails::Files(files) => ThumbnailsView::Files(text::views(files@)),
            Thumbnails::Folder(dir) => ThumbnailsView::Folder(dir@),
            Thumbnails::Nowhere => ThumbnailsView::Nowhere,
        }
    }
}

/// The pictures that the clip names, or else those in its folder. Both halves of
/// a split share the folder of the clip that they come from.
pub open spec fn thumbnails_of(c: ClipView, data_dir: Option<Seq<char>>) -> ThumbnailsView {
    if c.thumbnails.len() > 0 {
        ThumbnailsView::Files(c.thumbnails)
    } else {
        match data_dir {
            Some(dir) => ThumbnailsView::Folder(thumbs_of(dir, c.asset())),
            None => ThumbnailsView::Nowhere,
        }
    }
}

/// Where the preview pictures of a clip are.
pub fn asset_thumbnails(clip: &Clip, data_dir: &Option<String>) -> (r: Thumbnails)
    ensures
        r@ == thumbnails_of(clip@, text::opt_view(*data_dir)),
{
    assert(clip@.thumbnails.len() == clip.thumbnails@.len());
    if clip.thumbnails.len() > 0 {
        return Thumbnails::Files(text::clone_texts(&clip.thumbnails));
    }
    match data_dir {
        Some(dir) => Thumbnails::Folder(thumbs_dir(dir.as_str(), clip.asset_id())),
        None => Thumbnails::Nowhere,
    }
}

/// Where the waveform of a clip is.
#[derive(Debug)]
pub enum Waveform {
    /// In this file.
    File(String),
    /// In this file, if there is one.
    Cached(String),
    Nowhere,
}

#[verifier::ext_equal]
pub enum WaveformSourceView {
    File(Seq<char>),
    Cached(Seq<char>),
    Nowhere,
}

impl View for Waveform {
    type V = WaveformSourceView;

    open spec fn view(&self) -> WaveformSourceView {
        match *self {
            Waveform::File(path) => WaveformSourceView::File(path@),
            Waveform::Cached(path) => WaveformSourceView::Cached(path@),
            Waveform::Nowhere => WaveformSourceView::Nowhere,
        }
    }
}

/// The waveform that the clip names, or else the one kept for it. Both halves of
/// a split share the one of the clip that they come from.
pub open spec fn waveform_source(c: ClipView, data_dir: Option<Seq<char>>) -> WaveformSourceView {
    match c.waveform_path {
        Some(path) => WaveformSourceView::File(path),
        None => match data_dir {
            Some(dir) => WaveformSourceView::Cached(audio::waveform_of(dir, c.asset())),
            None => WaveformSourceView::Nowhere,
        },
    }
}

/// Where the waveform of a clip is.
pub fn asset_waveform(clip: &Clip, data_dir: &Option<String>) -> (r: Waveform)
    ensures
        r@ == waveform_source(clip@, text::opt_view(*data_dir)),
{
    match &clip.waveform_path {
        Some(path) => Waveform::File(path.clone()),
        None => match data_dir {
            Some(dir) => Waveform::Cached(waveform_path(dir.as_str(), clip.asset_id())),
            None => Waveform::Nowhere,
        },
    }
}

} // verus!
