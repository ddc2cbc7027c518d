use vstd::prelude::*;

verus! {

/// The launcher's configuration: the ordered list of root directories whose
/// immediate children are offered as projects.
#[derive(Debug)]
pub struct Config {
    pub paths: Vec<String>,
}

/// Why a configuration could not be loaded.
#[derive(PartialEq, Eq, Structural, Debug, Clone, Copy)]
pub enum ConfigLoadErrors {
    /// The file was read but its contents are not a valid configuration.
    ParseFailed,
    /// The file could not be opened or read.
    OpenConfigFailed,
}

impl Default for Config {
    /// The empty configuration: no roots at all.
    fn default() -> (r: Config)
        ensures
            r.paths@.len() == 0,
    {
        Config { paths: Vec::new() }
    }
}

} // verus!
