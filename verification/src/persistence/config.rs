//! The settings.

use vstd::prelude::*;

use crate::paths;
use crate::text;

verus! {

#[derive(Clone, Copy, Debug, PartialEq, Eq, Structural)]
pub enum Theme {
    System,
    Light,
    Dark,
}

impl Default for Theme {
    fn default() -> (t: Self)
        ensures
            t == Theme::System,
    {
        Theme::System
    }
}

#[derive(Debug)]
pub struct AppConfig {
    pub theme: Theme,
    pub default_output_dir: Option<String>,
    pub ffmpeg_path: Option<String>,
}

#[verifier::ext_equal]
pub struct AppConfigView {
    pub theme: Theme,
    pub default_output_dir: Option<Seq<char>>,
    pub ffmpeg_path: Option<Seq<char>>,
}

impl View for AppConfig {
    type V = AppConfigView;

    open spec fn view(&self) -> AppConfigView {
        AppConfigView {
            theme: self.theme,
            default_output_dir: text::opt_view(self.default_output_dir),
            ffmpeg_path: text::opt_view(self.ffmpeg_path),
        }
    }
}

impl Clone for AppConfig {
    fn clone(&self) -> (res: Self)
        ensures
            res@ == self@,
    {
        AppConfig {
            theme: self.theme,
            default_output_dir: text::clone_opt(&self.default_output_dir),
            ffmpeg_path: text::clone_opt(&self.ffmpeg_path),
        }
    }
}

impl Default for AppConfig {
    fn default() -> (res: Self)
        ensures
            res@ == (AppConfigView {
                theme: Theme::System,
                default_output_dir: None,
                ffmpeg_path: None,
            }),
    {
        AppConfig { theme: Theme::System, default_output_dir: None, ffmpeg_path: None }
    }
}

/// The folder that an export to `output` makes the default one, if it makes one
/// so. It does not where that folder is the default one already, in whatever way
/// its path is written.
pub open spec fn new_output_dir(
    current: Option<Seq<char>>,
    output: Seq<char>,
) -> Option<Seq<char>> {
    match paths::parent_of(output) {
        Some(dir) => if dir.len() == 0 || (current matches Some(have) && paths::components(have)
            == paths::components(dir)) {
            None
        } else {
            Some(dir)
        },
        None => None,
    }
}

impl AppConfig {
    /// Remember the folder of an export as the default one. Tells whether the
    /// settings changed and have to be saved.
    pub fn update_default_output_dir(&mut self, output_path: &str) -> (changed: bool)
        ensures
            match new_output_dir(old(self)@.default_output_dir, output_path@) {
                Some(dir) => changed && final(self)@ == (AppConfigView {
                    default_output_dir: Some(dir),
                    ..old(self)@
                }),
                None => !changed && final(self)@ == old(self)@,
            },
    {
        let dir: String = match paths::parent(output_path) {
            Some(dir) => dir,
            None => return false,
        };
        let chars: Vec<char> = text::chars_of(dir.as_str());
        if chars.len() == 0 {
            return false;
        }
        let same: bool = match &self.default_output_dir {
            Some(current) => paths::same_path(current.as_str(), dir.as_str()),
            None => false,
        };
        if same {
            return false;
        }
        self.default_output_dir = Some(dir);
        true
    }
}

} // verus!
