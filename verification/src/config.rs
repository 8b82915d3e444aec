//! The optional `~/.config/klinit/config.toml`, once read.

use vstd::prelude::*;
use crate::path::{join, join_spec};

verus! {

#[derive(Debug, PartialEq)]
pub struct Config {
    /// Paths klinit must never touch, in addition to the built-in protected set.
    /// Relative paths are resolved against the home directory.
    pub exclude: Vec<String>,
    /// Categories `klinit clean` uses when none are given.
    pub default_categories: Vec<String>,
}

impl Default for Config {
    fn default() -> (r: Self)
        ensures
            r.exclude@.len() == 0,
            r.default_categories@.len() == 0,
    {
        Config { exclude: Vec::new(), default_categories: Vec::new() }
    }
}

/// Where the configuration file of a home directory is.
pub fn path(home: &str) -> (r: String)
    ensures
        r@ == join_spec(home@, ".config/klinit/config.toml"@),
{
    join(home, ".config/klinit/config.toml")
}

impl Config {
    /// The categories `clean` works on: those given, or the configured defaults when none are.
    pub fn categories(&self, given: Vec<String>) -> (r: Vec<String>)
        ensures
            given@.len() > 0 ==> r@ == given@,
            given@.len() == 0 ==> r@ == self.default_categories@,
    {
        if given.len() > 0 {
            given
        } else {
            let mut out: Vec<String> = Vec::new();
            let mut i: usize = 0;
            while i < self.default_categories.len()
                invariant
                    i <= self.default_categories@.len(),
                    out@ == self.default_categories@.take(i as int),
                decreases self.default_categories@.len() - i,
            {
                out.push(self.default_categories[i].clone());
                proof {
                    assert(self.default_categories@.take(i + 1) =~= self.default_categories@.take(i as int).push(
                        self.default_categories@[i as int],
                    ));
                }
                i = i + 1;
            }
            proof {
                assert(self.default_categories@.take(i as int) =~= self.default_categories@);
            }
            out
        }
    }

    /// The exclusions as paths: each joined to `home`, which keeps absolute ones as they are.
    pub fn exclude_paths(&self, home: &str) -> (r: Vec<String>)
        ensures
            r@.map_values(|s: String| s@) == self.exclude@.map_values(|e: String| join_spec(home@, e@)),
    {
        let mut out: Vec<String> = Vec::new();
        let mut i: usize = 0;
        while i < self.exclude.len()
            invariant
                i <= self.exclude@.len(),
                out@.map_values(|s: String| s@) == self.exclude@.take(i as int).map_values(
                    |e: String| join_spec(home@, e@),
                ),
            decreases self.exclude@.len() - i,
        {
            let p = join(home, self.exclude[i].as_str());
            let ghost before = out@;
            out.push(p);
            proof {
                assert(out@.map_values(|s: String| s@) =~= before.map_values(|s: String| s@).push(p@));
                assert(self.exclude@.take(i + 1).map_values(|e: String| join_spec(home@, e@)) =~= self.exclude@.take(
                    i as int,
                ).map_values(|e: String| join_spec(home@, e@)).push(join_spec(home@, self.exclude@[i as int]@)));
            }
            i = i + 1;
        }
        proof {
            assert(self.exclude@.take(self.exclude@.len() as int) =~= self.exclude@);
        }
        out
    }
}

} // verus!
