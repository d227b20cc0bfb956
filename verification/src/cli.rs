//! The command line's shape, and the rewriting of single-dash long flags.

use vstd::prelude::*;
use crate::catalog::Kind;

verus! {

/// The whole command line.
#[derive(Debug)]
pub struct Cli {
    /// A subcommand; when present it wins over the system name.
    pub command: Option<Command>,
    /// System name to download, e.g. win11 / ubuntu / uefi-shell.
    pub system: Option<String>,
    pub download: DownloadArgs,
}

/// The subcommands.
#[derive(Debug)]
pub enum Command {
    /// Manage configuration.
    Config(ConfigArgs),
    /// Search available systems from the catalog.
    Search(SearchArgs),
}

/// Arguments of `config`.
#[derive(Debug)]
pub struct ConfigArgs {
    pub action: ConfigAction,
}

/// What `config` does.
#[derive(Debug)]
pub enum ConfigAction {
    /// Set a config value.
    SetKey { key: String, value: String },
    /// Print a config value.
    Get { key: String },
    /// List all config values.
    List,
    /// Print the config file path.
    Path,
}

/// Arguments of `search`.
#[derive(Debug)]
pub struct SearchArgs {
    pub query: Option<String>,
    pub kind: Option<KindArg>,
    pub json: bool,
}

/// The `--kind` values of `search`.
#[derive(Debug, Clone, Copy, PartialEq, Eq, Structural)]
pub enum KindArg {
    Windows,
    Linux,
    Tools,
}

/// The catalog family a `--kind` value names.
pub open spec fn kind_of(k: KindArg) -> Kind {
    match k {
        KindArg::Windows => Kind::Windows,
        KindArg::Linux => Kind::Linux,
        KindArg::Tools => Kind::Tools,
    }
}

impl From<KindArg> for Kind {
    fn from(k: KindArg) -> (r: Kind) {
        match k {
            KindArg::Windows => Kind::Windows,
            KindArg::Linux => Kind::Linux,
            KindArg::Tools => Kind::Tools,
        }
    }
}

impl vstd::std_specs::convert::FromSpecImpl<KindArg> for Kind {
    open spec fn obeys_from_spec() -> bool {
        true
    }

    open spec fn from_spec(k: KindArg) -> Kind {
        kind_of(k)
    }
}

/// Download options: release, edition, language, architecture, output and modes.
#[derive(Debug)]
pub struct DownloadArgs {
    pub release: Option<String>,
    pub edition: Option<String>,
    pub lang: Option<String>,
    pub arch: Option<String>,
    pub output: Option<String>,
    pub print_url: bool,
    pub dry_run: bool,
    pub progress: bool,
}

/// One argument after rewriting: `-lang` becomes `--lang`, `-type` becomes
/// `--type`, anything else stays.
pub open spec fn normalized(a: Seq<char>) -> Seq<char> {
    if a == "-lang"@ {
        "--lang"@
    } else if a == "-type"@ {
        "--type"@
    } else {
        a
    }
}

fn normalize_one(a: &String) -> (r: String)
    ensures
        r@ == normalized(a@),
{
    if crate::text::same(a.as_str(), "-lang") {
        String::from_str("--lang")
    } else if crate::text::same(a.as_str(), "-type") {
        String::from_str("--type")
    } else {
        a.clone()
    }
}

/// Rewrites the single-dash multi-character compatibility flags (`-lang`,
/// `-type`) into their long form before the arguments are parsed.
pub fn normalize_args(args: Vec<String>) -> (r: Vec<String>)
    ensures
        r@.len() == args@.len(),
        forall|i: int| 0 <= i < args@.len() ==> #[trigger] r@[i]@ == normalized(args@[i]@),
{
    let mut out: Vec<String> = Vec::new();
    let mut i: usize = 0;
    while i < args.len()
        invariant
            i <= args@.len(),
            out@.len() == i,
            forall|k: int| 0 <= k < i ==> #[trigger] out@[k]@ == normalized(args@[k]@),
        decreases args.len() - i,
    {
        out.push(normalize_one(&args[i]));
        i += 1;
    }
    out
}

} // verus!
