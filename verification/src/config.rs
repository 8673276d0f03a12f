//! Runtime configuration: merged from command line and configuration file,
//! validated once at startup, immutable afterwards.
//!
//! Command-line values win over file values, which win over the defaults of
//! 600 s expiry and 30 s resync. Zero durations and patterns that do not
//! compile are rejected.

use vstd::prelude::*;
use vstd::string::StringExecFns;

use crate::cli::Cli;
use crate::pattern::{Pattern, pattern_compiles, pattern_matches};

verus! {

/// Default expiry in seconds when neither source sets one.
pub const DEFAULT_EXPIRY_SECONDS: u64 = 600;

/// Default resync interval in seconds when neither source sets one.
pub const DEFAULT_RESYNC_SECONDS: u64 = 30;

/// Raw values read from the configuration file, before merging.
pub struct FileConfig {
    /// Seconds before a clipboard entry is purged.
    pub item_expiry_seconds: Option<u64>,
    /// How often to refetch the clipboard history, in seconds.
    pub update_interval_seconds: Option<u64>,
    /// Never expire entries matching one of these patterns.
    pub never_expire_regex: Vec<String>,
    /// Drop entries matching one of these patterns on sight.
    pub exclude_regex: Vec<String>,
}

/// Why configuration validation failed.
#[derive(Debug)]
pub enum ConfigError {
    /// The resolved expiry was zero seconds.
    ZeroExpiry,
    /// The resolved resync interval was zero seconds.
    ZeroResync,
    /// An always-remove pattern does not compile; holds the pattern text.
    InvalidAlwaysRemovePattern(String),
    /// A never-remove pattern does not compile; holds the pattern text.
    InvalidNeverRemovePattern(String),
}

impl ConfigError {
    /// A diagnostic message for the failure.
    pub fn message(&self) -> (r: String)
        ensures
            self is ZeroExpiry ==> r@ == "expiry_seconds must be greater than zero"@,
            self is ZeroResync ==> r@ == "resync_interval_seconds must be greater than zero"@,
            self matches ConfigError::InvalidAlwaysRemovePattern(p) ==> r@ == "invalid exclude_regex pattern: "@ + p@,
            self matches ConfigError::InvalidNeverRemovePattern(p) ==> r@ == "invalid never_expire_regex pattern: "@ + p@,
    {
        match self {
            ConfigError::ZeroExpiry => String::from_str("expiry_seconds must be greater than zero"),
            ConfigError::ZeroResync => String::from_str("resync_interval_seconds must be greater than zero"),
            ConfigError::InvalidAlwaysRemovePattern(p) => String::from_str("invalid exclude_regex pattern: ").concat(p.as_str()),
            ConfigError::InvalidNeverRemovePattern(p) => String::from_str("invalid never_expire_regex pattern: ").concat(p.as_str()),
        }
    }
}

/// The mathematical content of a `Config`: durations in seconds and the two
/// pattern lists as pattern texts.
pub ghost struct ConfigView {
    pub expiry: u64,
    pub resync: u64,
    pub always_remove: Seq<Seq<char>>,
    pub never_remove: Seq<Seq<char>>,
}

/// Validated runtime parameters. Produced once by `from_sources`; immutable
/// afterwards.
#[derive(Debug)]
pub struct Config {
    expiry: u64,
    resync: u64,
    always_remove: Vec<Pattern>,
    never_remove: Vec<Pattern>,
}

/// The pattern texts of a sequence of strings.
pub open spec fn strings_view(v: Seq<String>) -> Seq<Seq<char>> {
    v.map_values(|s: String| s@)
}

/// Whether any pattern of the list matches the text.
pub open spec fn matches_any(patterns: Seq<Seq<char>>, text: Seq<char>) -> bool {
    exists|i: int| 0 <= i < patterns.len() && pattern_matches(patterns[i], text)
}

/// Whether every pattern of the list compiles.
pub open spec fn all_compile(patterns: Seq<Seq<char>>) -> bool {
    forall|i: int| 0 <= i < patterns.len() ==> pattern_compiles(patterns[i])
}

/// `p` is the first pattern of the list that does not compile.
pub open spec fn first_bad_pattern(patterns: Seq<Seq<char>>, p: Seq<char>) -> bool {
    exists|i: int|
        0 <= i < patterns.len() && patterns[i] == p && !pattern_compiles(p)
            && (forall|j: int| 0 <= j < i ==> pattern_compiles(patterns[j]))
}

/// A value from the command line wins over one from the file, which wins
/// over the default.
pub open spec fn resolved_seconds(cli_value: Option<u64>, file_value: Option<u64>, default: u64) -> u64 {
    match cli_value {
        Some(v) => v,
        None => match file_value {
            Some(v) => v,
            None => default,
        },
    }
}

/// The always-remove pattern texts that `from_sources` resolves: command-line
/// patterns first, then file patterns.
pub open spec fn spec_always_patterns(file: Option<FileConfig>, cli: Cli) -> Seq<Seq<char>> {
    strings_view(cli.exclude_regex@) + match file {
        Some(f) => strings_view(f.exclude_regex@),
        None => Seq::<Seq<char>>::empty(),
    }
}

/// The never-remove pattern texts that `from_sources` resolves.
pub open spec fn spec_never_patterns(file: Option<FileConfig>, cli: Cli) -> Seq<Seq<char>> {
    strings_view(cli.never_expire_regex@) + match file {
        Some(f) => strings_view(f.never_expire_regex@),
        None => Seq::<Seq<char>>::empty(),
    }
}

/// The expiry seconds that `from_sources` resolves.
pub open spec fn spec_expiry_seconds(file: Option<FileConfig>, cli: Cli) -> u64 {
    resolved_seconds(
        cli.item_expiry_seconds,
        match file {
            Some(f) => f.item_expiry_seconds,
            None => None,
        },
        DEFAULT_EXPIRY_SECONDS,
    )
}

/// The resync seconds that `from_sources` resolves.
pub open spec fn spec_resync_seconds(file: Option<FileConfig>, cli: Cli) -> u64 {
    resolved_seconds(
        cli.update_interval_seconds,
        match file {
            Some(f) => f.update_interval_seconds,
            None => None,
        },
        DEFAULT_RESYNC_SECONDS,
    )
}

impl View for Config {
    type V = ConfigView;

    closed spec fn view(&self) -> ConfigView {
        ConfigView {
            expiry: self.expiry,
            resync: self.resync,
            always_remove: self.always_remove@.map_values(|p: Pattern| p@),
            never_remove: self.never_remove@.map_values(|p: Pattern| p@),
        }
    }
}

/// Clones the strings of `a` and then of `b` into one list.
fn concat_strings(a: &Vec<String>, b: &Vec<String>) -> (r: Vec<String>)
    ensures
        r@ == a@ + b@,
{
    let mut r: Vec<String> = Vec::new();
    let mut i: usize = 0;
    while i < a.len()
        invariant
            i <= a.len(),
            r@ == a@.take(i as int),
        decreases a.len() - i,
    {
        r.push(a[i].clone());
        proof {
            assert(r@ =~= a@.take(i + 1));
        }
        i = i + 1;
    }
    proof {
        assert(a@.take(a@.len() as int) =~= a@);
    }
    let mut i: usize = 0;
    while i < b.len()
        invariant
            i <= b.len(),
            r@ == a@ + b@.take(i as int),
        decreases b.len() - i,
    {
        r.push(b[i].clone());
        proof {
            assert(r@ =~= a@ + b@.take(i + 1));
        }
        i = i + 1;
    }
    proof {
        assert(a@ + b@.take(b@.len() as int) =~= a@ + b@);
    }
    r
}

/// Compiles each pattern in order; on failure reports the index of the first
/// pattern that does not compile.
fn compile_patterns(patterns: &Vec<String>) -> (r: Result<Vec<Pattern>, usize>)
    ensures
        r is Ok <==> all_compile(strings_view(patterns@)),
        r matches Ok(ps) ==> ps@.map_values(|p: Pattern| p@) == strings_view(patterns@),
        r matches Err(i) ==> i < patterns@.len()
            && !pattern_compiles(strings_view(patterns@)[i as int])
            && (forall|j: int| 0 <= j < i ==> pattern_compiles(
                #[trigger] strings_view(patterns@)[j])),
{
    let mut compiled: Vec<Pattern> = Vec::new();
    let mut i: usize = 0;
    while i < patterns.len()
        invariant
            i <= patterns.len(),
            compiled@.len() == i,
            forall|j: int| 0 <= j < i ==> pattern_compiles(#[trigger] patterns@[j]@),
            forall|j: int| 0 <= j < i ==> #[trigger] compiled@[j]@ == patterns@[j]@,
        decreases patterns.len() - i,
    {
        match Pattern::compile(patterns[i].as_str()) {
            Ok(p) => {
                compiled.push(p);
            },
            Err(_) => {
                proof {
                    assert(strings_view(patterns@)[i as int] == patterns@[i as int]@);
                    assert(!all_compile(strings_view(patterns@)));
                    assert(forall|j: int| 0 <= j < i ==> pattern_compiles(
                        #[trigger] strings_view(patterns@)[j]));
                }
                return Err(i);
            },
        }
        i = i + 1;
    }
    proof {
        assert(compiled@.map_values(|p: Pattern| p@) =~= strings_view(patterns@));
    }
    Ok(compiled)
}

impl Config {
    /// Merges the file and command-line sources and validates the result:
    /// command-line values win, defaults fill the gaps, zero durations and
    /// malformed patterns are rejected. Patterns are checked first
    /// (always-remove, then never-remove), then the expiry, then the resync
    /// interval.
    pub fn from_sources(file: Option<FileConfig>, cli: &Cli) -> (r: Result<Config, ConfigError>)
        ensures
            ({
                let ap = spec_always_patterns(file, *cli);
                let np = spec_never_patterns(file, *cli);
                let ex = spec_expiry_seconds(file, *cli);
                let rs = spec_resync_seconds(file, *cli);
                &&& (r is Ok <==> all_compile(ap) && all_compile(np) && ex != 0 && rs != 0)
                &&& (r matches Ok(c) ==> c@.always_remove == ap && c@.never_remove == np
                    && c@.expiry == ex && c@.resync == rs)
                &&& (r matches Err(e) ==> match e {
                    ConfigError::InvalidAlwaysRemovePattern(p) => first_bad_pattern(ap, p@),
                    ConfigError::InvalidNeverRemovePattern(p) => all_compile(ap) && first_bad_pattern(np, p@),
                    ConfigError::ZeroExpiry => all_compile(ap) && all_compile(np) && ex == 0,
                    ConfigError::ZeroResync => all_compile(ap) && all_compile(np) && ex != 0 && rs == 0,
                })
            }),
    {
        let ghost file0 = file;
        let empty_file = FileConfig {
            item_expiry_seconds: None,
            update_interval_seconds: None,
            never_expire_regex: Vec::new(),
            exclude_regex: Vec::new(),
        };
        let file_cfg = match file {
            Some(f) => f,
            None => empty_file,
        };

        let always_sources = concat_strings(&cli.exclude_regex, &file_cfg.exclude_regex);
        let never_sources = concat_strings(&cli.never_expire_regex, &file_cfg.never_expire_regex);
        proof {
            lemma_strings_view_add(cli.exclude_regex@, file_cfg.exclude_regex@);
            lemma_strings_view_add(cli.never_expire_regex@, file_cfg.never_expire_regex@);
            assert(strings_view(Seq::<String>::empty()) =~= Seq::<Seq<char>>::empty());
            assert(strings_view(always_sources@) == spec_always_patterns(file0, *cli));
            assert(strings_view(never_sources@) == spec_never_patterns(file0, *cli));
        }

        let always_remove = match compile_patterns(&always_sources) {
            Ok(ps) => ps,
            Err(i) => {
                proof {
                    let ap = spec_always_patterns(file0, *cli);
                    assert(strings_view(always_sources@)[i as int] == always_sources@[i as int]@);
                    assert(first_bad_pattern(ap, always_sources@[i as int]@));
                }
                return Err(ConfigError::InvalidAlwaysRemovePattern(always_sources[i].clone()));
            },
        };
        let never_remove = match compile_patterns(&never_sources) {
            Ok(ps) => ps,
            Err(i) => {
                proof {
                    let np = spec_never_patterns(file0, *cli);
                    assert(strings_view(never_sources@)[i as int] == never_sources@[i as int]@);
                    assert(first_bad_pattern(np, never_sources@[i as int]@));
                }
                return Err(ConfigError::InvalidNeverRemovePattern(never_sources[i].clone()));
            },
        };

        let expiry = match cli.item_expiry_seconds {
            Some(v) => v,
            None => match file_cfg.item_expiry_seconds {
                Some(v) => v,
                None => DEFAULT_EXPIRY_SECONDS,
            },
        };
        if expiry == 0 {
            return Err(ConfigError::ZeroExpiry);
        }

        let resync = match cli.update_interval_seconds {
            Some(v) => v,
            None => match file_cfg.update_interval_seconds {
                Some(v) => v,
                None => DEFAULT_RESYNC_SECONDS,
            },
        };
        if resync == 0 {
            return Err(ConfigError::ZeroResync);
        }

        Ok(Config { expiry, resync, always_remove, never_remove })
    }

    /// True when the content matches an always-remove pattern, so that it is
    /// dropped during reconciliation and never tracked.
    pub fn should_always_remove(&self, content: &str) -> (r: bool)
        ensures
            r == matches_any(self@.always_remove, content@),
    {
        let mut i: usize = 0;
        while i < self.always_remove.len()
            invariant
                i <= self.always_remove.len(),
                forall|j: int| 0 <= j < i ==> !pattern_matches(#[trigger] self@.always_remove[j], content@),
            decreases self.always_remove.len() - i,
        {
            if self.always_remove[i].is_match(content) {
                proof {
                    assert(self@.always_remove[i as int] == self.always_remove@[i as int]@);
                    assert(matches_any(self@.always_remove, content@));
                }
                return true;
            }
            i = i + 1;
        }
        false
    }

    /// True when the content matches a never-remove pattern, so that it is
    /// exempt from expiry.
    pub fn should_never_remove(&self, content: &str) -> (r: bool)
        ensures
            r == matches_any(self@.never_remove, content@),
    {
        let mut i: usize = 0;
        while i < self.never_remove.len()
            invariant
                i <= self.never_remove.len(),
                forall|j: int| 0 <= j < i ==> !pattern_matches(#[trigger] self@.never_remove[j], content@),
            decreases self.never_remove.len() - i,
        {
            if self.never_remove[i].is_match(content) {
                proof {
                    assert(self@.never_remove[i as int] == self.never_remove@[i as int]@);
                    assert(matches_any(self@.never_remove, content@));
                }
                return true;
            }
            i = i + 1;
        }
        false
    }

    /// The expiry threshold in seconds.
    pub fn expiry_seconds(&self) -> (r: u64)
        ensures
            r == self@.expiry,
    {
        self.expiry
    }

    /// The resync interval in seconds.
    pub fn resync_seconds(&self) -> (r: u64)
        ensures
            r == self@.resync,
    {
        self.resync
    }
}

/// Mapping the strings of two concatenated lists to their texts is the
/// concatenation of the mapped lists.
proof fn lemma_strings_view_add(a: Seq<String>, b: Seq<String>)
    ensures
        strings_view(a + b) == strings_view(a) + strings_view(b),
{
    assert(strings_view(a + b) =~= strings_view(a) + strings_view(b));
}

} // verus!
