//! What can go wrong with an edit.

use vstd::prelude::*;
use vstd::string::*;

use crate::ident;
use crate::ident::ClipId;
use crate::text;

verus! {

pub type CoreResult<T> = Result<T, CoreError>;

#[derive(Debug)]
pub enum CoreError {
    ClipNotFound(ClipId),
    InvalidReorder { index: usize, len: usize },
    EmptyPlaylist,
    UnsupportedFile(String),
    InvalidTrim(String),
}

#[verifier::ext_equal]
pub enum CoreErrorView {
    ClipNotFound(ClipId),
    InvalidReorder { index: usize, len: usize },
    EmptyPlaylist,
    UnsupportedFile(Seq<char>),
    InvalidTrim(Seq<char>),
}

impl View for CoreError {
    type V = CoreErrorView;

    open spec fn view(&self) -> CoreErrorView {
        match *self {
            CoreError::ClipNotFound(id) => CoreErrorView::ClipNotFound(id),
            CoreError::InvalidReorder { index, len } => CoreErrorView::InvalidReorder {
                index,
                len,
            },
            CoreError::EmptyPlaylist => CoreErrorView::EmptyPlaylist,
            CoreError::UnsupportedFile(path) => CoreErrorView::UnsupportedFile(path@),
            CoreError::InvalidTrim(why) => CoreErrorView::InvalidTrim(why@),
        }
    }
}

/// An edit did what was expected of it: on success the state is the new one,
/// on failure the error is the expected one and the state is as it was.
pub open spec fn edited<S>(
    r: CoreResult<()>,
    before: S,
    after: S,
    expected: Result<S, CoreErrorView>,
) -> bool {
    match expected {
        Ok(new) => r is Ok && after == new,
        Err(e) => r matches Err(x) && x@ == e && after == before,
    }
}

impl CoreErrorView {
    /// The message shown to the user.
    pub open spec fn text(self) -> Seq<char> {
        match self {
            CoreErrorView::ClipNotFound(id) => "clip not found: "@ + ident::hyphenated(id),
            CoreErrorView::InvalidReorder { index, len } => "invalid reorder: index "@ + text::dec(
                index as nat,
            ) + " out of bounds (len "@ + text::dec(len as nat) + ")"@,
            CoreErrorView::EmptyPlaylist => "empty playlist cannot be merged"@,
            CoreErrorView::UnsupportedFile(path) => "unsupported file: "@ + path,
            CoreErrorView::InvalidTrim(why) => "invalid trim: "@ + why,
        }
    }
}

impl CoreError {
    /// The message shown to the user.
    pub fn message(&self) -> (s: String)
        ensures
            s@ == self@.text(),
    {
        match self {
            CoreError::ClipNotFound(id) => {
                let mut s: String = "clip not found: ".to_owned();
                s.append(ident::id_text(*id).as_str());
                s
            },
            CoreError::InvalidReorder { index, len } => {
                let mut s: String = "invalid reorder: index ".to_owned();
                text::push_dec(&mut s, *index as u128);
                s.append(" out of bounds (len ");
                text::push_dec(&mut s, *len as u128);
                s.append(")");
                s
            },
            CoreError::EmptyPlaylist => "empty playlist cannot be merged".to_owned(),
            CoreError::UnsupportedFile(path) => {
                let mut s: String = "unsupported file: ".to_owned();
                s.append(path.as_str());
                s
            },
            CoreError::InvalidTrim(why) => {
                let mut s: String = "invalid trim: ".to_owned();
                s.append(why.as_str());
                s
            },
        }
    }
}

} // verus!
