//! `cetest.toml`: which test suites there are, and where each is to run.
//!
//! A suite says what to run (a repository and, if need be, a cargo test target) and where, never
//! how it gets there. `where = "local"` runs it here; any other place means that the platform
//! places it over the mesh.

use crate::text;
use vstd::prelude::*;

verus! {

/// The whole `cetest.toml`.
#[derive(Debug, Clone)]
pub struct Config {
    /// Values for every suite that does not override them.
    pub defaults: Defaults,
    /// The `[[suite]]` blocks, in the order of the file.
    pub suites: Vec<Suite>,
}

/// Values applied to every suite unless the suite overrides them.
#[derive(Debug, Clone)]
pub struct Defaults {
    /// The binary that the harness spawns, exported as `$CE_BIN`; without it, `ce` on `PATH`.
    pub ce_bin: Option<String>,
    /// Pass `--ignored`: suites that spawn nodes are `#[ignore]`.
    pub ignored: Option<bool>,
    /// Run `tools/ce-dev-link` at the root before the suites.
    pub dev_link: Option<bool>,
}

/// One test suite.
#[derive(Debug, Clone)]
pub struct Suite {
    /// The name that is shown.
    pub name: String,
    /// The directory of the repository, relative to that of the configuration.
    pub path: String,
    /// The testing tier (`T1`, `T2`, `T3`).
    pub tier: Option<String>,
    /// The package for `-p`; without it, the repository's own.
    pub package: Option<String>,
    /// The integration test for `--test`; without it, the unit tests.
    pub test: Option<String>,
    /// The list for `--features`.
    pub features: Option<String>,
    /// Overrides [`Defaults::ignored`].
    pub ignored: Option<bool>,
    /// Where to run: `local`, `relay`, `fleet`, `org:<x>` or `node:<id>`; `local` without it.
    pub location: Option<String>,
}

impl Default for Defaults {
    fn default() -> (r: Self)
        ensures
            r.ce_bin is None,
            r.ignored is None,
            r.dev_link is None,
    {
        Defaults { ce_bin: None, ignored: None, dev_link: None }
    }
}

impl Default for Config {
    fn default() -> (r: Self)
        ensures
            r.defaults.ce_bin is None,
            r.defaults.ignored is None,
            r.defaults.dev_link is None,
            r.suites@.len() == 0,
    {
        Config { defaults: Defaults::default(), suites: Vec::new() }
    }
}

impl Config {
    /// The path of the configuration, given the value of `$CE_TEST_CONFIG`: that value, or
    /// `cetest.toml` in the working directory where it is not set.
    pub fn default_path(configured: Option<String>) -> (r: String)
        ensures
            r@ == match text::opt(configured) {
                Some(path) => path,
                None => "cetest.toml"@,
            },
    {
        match configured {
            Some(path) => path,
            None => "cetest.toml".to_owned(),
        }
    }
}

impl Suite {
    /// Where the suite says it runs, `local` where it says nothing.
    pub open spec fn place(self) -> Seq<char> {
        match self.location {
            Some(location) => location@,
            None => "local"@,
        }
    }

    /// Effective location, defaulting to `local`.
    pub fn location(&self) -> (r: &str)
        ensures
            r@ == self.place(),
    {
        match &self.location {
            Some(location) => location.as_str(),
            None => "local",
        }
    }
}

/// A suite that says where it runs, runs there; one that says nothing is local.
pub proof fn law_place_of_a_suite(s: Suite)
    ensures
        s.location is Some ==> s.place() == s.location->0@,
        s.location is None ==> s.place() == "local"@,
{
}

} // verus!
