//! The window configuration accessor, with its values built in.

use vstd::prelude::*;
use vstd::string::*;

verus! {

/// The window title that the configuration holds.
pub open spec fn default_title() -> Seq<char> {
    "AlmostRusty"@
}

/// The window configuration.
#[derive(Clone, Debug)]
pub struct Config {
    pub title: String,
}

impl Config {
    /// The configuration as it was generated.
    pub fn load() -> (r: Config)
        ensures
            r.title@ == default_title(),
    {
        Config { title: String::from_str("AlmostRusty") }
    }

    /// The configuration as it was generated; the values are built in, so the
    /// file at `filepath` is not read.
    pub fn load_from(filepath: &str) -> (r: Result<Config, String>)
        ensures
            r matches Ok(c) && c.title@ == default_title(),
    {
        Ok(Self::load())
    }
}

} // verus!
