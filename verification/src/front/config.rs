//! Limits and switches of the front end.
use vstd::prelude::*;

verus! {

/// Limits and switches of the front end.
#[derive(Debug, Clone)]
pub struct Config {
    pub max_errors: usize,
    pub enable_unicode: bool,
    pub tab_width: usize,
    pub max_source_lines: usize,
}

impl Default for Config {
    fn default() -> (c: Self)
        ensures
            c.max_errors == 100,
            c.enable_unicode,
            c.tab_width == 4,
            c.max_source_lines == 10000,
    {
        Config { max_errors: 100, enable_unicode: true, tab_width: 4, max_source_lines: 10000 }
    }
}

} // verus!
