//! Command-line options, as plain data.
//!
//! The binary parses its arguments into `Cli`; the library only reads the
//! resolved values. `log_level` maps the `--verbose` count to the tracing
//! filter directive the binary installs at startup.

use vstd::prelude::*;

verus! {

/// Options resolved from the command line.
pub struct Cli {
    /// Seconds before a clipboard entry is purged.
    pub item_expiry_seconds: Option<u64>,
    /// How often to refetch the clipboard history, in seconds.
    pub update_interval_seconds: Option<u64>,
    /// Never expire entries matching one of these patterns.
    pub never_expire_regex: Vec<String>,
    /// Drop entries matching one of these patterns on sight.
    pub exclude_regex: Vec<String>,
    /// How many times `--verbose` was given.
    pub verbose: u8,
}

impl Cli {
    /// The `--verbose` count.
    pub fn verbosity(&self) -> (v: u8)
        ensures
            v == self.verbose,
    {
        self.verbose
    }
}

/// The log filter directive that a `--verbose` count selects.
pub open spec fn log_level_spec(verbose: u8) -> Seq<char> {
    if verbose == 0 {
        "warn"@
    } else if verbose == 1 {
        "info"@
    } else if verbose == 2 {
        "debug"@
    } else {
        "trace"@
    }
}

/// Maps the `--verbose` count to a log filter directive: silent by default,
/// one step more verbose per repetition, saturating at trace.
pub fn log_level(verbose: u8) -> (r: &'static str)
    ensures
        r@ == log_level_spec(verbose),
{
    match verbose {
        0 => "warn",
        1 => "info",
        2 => "debug",
        _ => "trace",
    }
}

} // verus!
