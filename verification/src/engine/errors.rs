//! What can go wrong with an export or a probe.

use vstd::prelude::*;
use vstd::string::*;

use crate::text;

verus! {

pub type EngineResult<T> = Result<T, EngineError>;

#[derive(Debug)]
pub enum EngineError {
    BinaryMissing(String),
    NonZeroExit(i32),
    Io(String),
    ProbeParse(String),
    Cancelled,
}

#[verifier::ext_equal]
pub enum EngineErrorView {
    BinaryMissing(Seq<char>),
    NonZeroExit(i32),
    Io(Seq<char>),
    ProbeParse(Seq<char>),
    Cancelled,
}

impl View for EngineError {
    type V = EngineErrorView;

    open spec fn view(&self) -> EngineErrorView {
        match *self {
            EngineError::BinaryMissing(bin) => EngineErrorView::BinaryMissing(bin@),
            EngineError::NonZeroExit(code) => EngineErrorView::NonZeroExit(code),
            EngineError::Io(why) => EngineErrorView::Io(why@),
            EngineError::ProbeParse(why) => EngineErrorView::ProbeParse(why@),
            EngineError::Cancelled => EngineErrorView::Cancelled,
        }
    }
}

impl EngineErrorView {
    /// The message shown to the user.
    pub open spec fn text(self) -> Seq<char> {
        match self {
            EngineErrorView::BinaryMissing(bin) => "media engine binary not found on PATH: "@
                + bin,
            EngineErrorView::NonZeroExit(code) => "media engine exited with status "@
                + text::dec_signed(code as int),
            EngineErrorView::Io(why) => "io error: "@ + why,
            EngineErrorView::ProbeParse(why) => "probe parse error: "@ + why,
            EngineErrorView::Cancelled => "job was cancelled"@,
        }
    }
}

impl EngineError {
    /// The message shown to the user.
    pub fn message(&self) -> (s: String)
        ensures
            s@ == self@.text(),
    {
        match self {
            EngineError::BinaryMissing(bin) => {
                let mut s: String = "media engine binary not found on PATH: ".to_owned();
                s.append(bin.as_str());
                s
            },
            EngineError::NonZeroExit(code) => {
                let mut s: String = "media engine exited with status ".to_owned();
                text::push_dec_signed(&mut s, *code as i64);
                s
            },
            EngineError::Io(why) => {
                let mut s: String = "io error: ".to_owned();
                s.append(why.as_str());
                s
            },
            EngineError::ProbeParse(why) => {
                let mut s: String = "probe parse error: ".to_owned();
                s.append(why.as_str());
                s
            },
            EngineError::Cancelled => "job was cancelled".to_owned(),
        }
    }
}

} // verus!
