//! Where the files are kept.

use vstd::prelude::*;

use crate::paths;

verus! {

#[derive(Debug)]
pub struct Storage {
    pub config_dir: String,
    pub data_dir: String,
}

impl Storage {
    pub fn config_file(&self) -> (s: String)
        ensures
            s@ == paths::joined(self.config_dir@, "config.toml"@),
    {
        paths::join(self.config_dir.as_str(), "config.toml")
    }

    pub fn history_file(&self) -> (s: String)
        ensures
            s@ == paths::joined(self.data_dir@, "history.json"@),
    {
        paths::join(self.data_dir.as_str(), "history.json")
    }
}

} // verus!
