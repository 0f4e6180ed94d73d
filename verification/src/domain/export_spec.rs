//! What to export, and where to.

use vstd::prelude::*;

verus! {

#[derive(Clone, Copy, Debug, PartialEq, Eq, Structural)]
pub enum ContainerFormat {
    Mp4,
}

#[derive(Clone, Copy, Debug, PartialEq, Eq, Structural)]
pub enum Quality {
    Lossless,
    High,
    Balanced,
}

#[derive(Debug)]
pub struct ExportSpec {
    pub output_path: String,
    pub format: ContainerFormat,
    pub quality: Quality,
}

#[verifier::ext_equal]
pub struct ExportSpecView {
    pub output_path: Seq<char>,
    pub format: ContainerFormat,
    pub quality: Quality,
}

impl View for ExportSpec {
    type V = ExportSpecView;

    open spec fn view(&self) -> ExportSpecView {
        ExportSpecView {
            output_path: self.output_path@,
            format: self.format,
            quality: self.quality,
        }
    }
}

impl Clone for ExportSpec {
    fn clone(&self) -> (res: Self)
        ensures
            res@ == self@,
    {
        ExportSpec {
            output_path: self.output_path.clone(),
            format: self.format,
            quality: self.quality,
        }
    }
}

} // verus!
