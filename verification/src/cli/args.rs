use vstd::prelude::*;
use crate::peek_core::config::PeekConfig;
use crate::peek_core::CollectOptions;
use crate::text::{lowercase, str_eq, string_from, to_lowercase};

verus! {

/// Command-line options of `peek` (see the `--help` text for each flag).
#[derive(Debug, Clone)]
pub struct Cli {
    /// PID or process name to inspect
    pub target: Option<String>,
    pub resources: bool,
    pub kernel: bool,
    pub network: bool,
    pub resolve: bool,
    pub files: bool,
    pub env: bool,
    pub tree: bool,
    /// Live-updating mode, with an optional interval in ms.
    pub watch: Option<Option<u64>>,
    pub kill: bool,
    pub all: bool,
    /// Export report format: json | html | md
    pub export: Option<String>,
    pub json: bool,
    pub json_snapshot: bool,
    pub no_color: bool,
    pub diff: Option<i32>,
    pub history: bool,
    pub alert_list: bool,
    pub alert_add: Option<Vec<String>>,
    pub alert_remove: Option<String>,
    pub sudo: bool,
    pub verbose: bool,
    pub net_sample_ms: Option<u64>,
    pub port: Option<u16>,
}

/// What a default output format (already in lower case) selects.
pub enum FormatDefault {
    Json,
    JsonSnapshot,
    Export(&'static str),
    Nothing,
}

pub open spec fn format_default_of(lower: Seq<char>) -> Option<(u8, Seq<char>)> {
    if lower == "json"@ {
        Some((0, seq![]))
    } else if lower == "json-snapshot"@ || lower == "json_snapshot"@ {
        Some((1, seq![]))
    } else if lower == "md"@ || lower == "markdown"@ {
        Some((2, "md"@))
    } else if lower == "html"@ {
        Some((2, "html"@))
    } else if lower == "pdf"@ {
        Some((2, "pdf"@))
    } else {
        None
    }
}

/// The output a format name selects: `json`, `json-snapshot`/`json_snapshot`,
/// or an export format (`md`/`markdown` → md, `html`, `pdf`).
pub fn format_default(lower: &str) -> (r: FormatDefault)
    ensures
        match r {
            FormatDefault::Json => format_default_of(lower@) == Some((0u8, Seq::<char>::empty())),
            FormatDefault::JsonSnapshot => format_default_of(lower@) == Some((1u8, Seq::<char>::empty())),
            FormatDefault::Export(f) => format_default_of(lower@) == Some((2u8, f@)),
            FormatDefault::Nothing => format_default_of(lower@).is_none(),
        },
{
    if str_eq(lower, "json") {
        FormatDefault::Json
    } else if str_eq(lower, "json-snapshot") || str_eq(lower, "json_snapshot") {
        FormatDefault::JsonSnapshot
    } else if str_eq(lower, "md") || str_eq(lower, "markdown") {
        FormatDefault::Export("md")
    } else if str_eq(lower, "html") {
        FormatDefault::Export("html")
    } else if str_eq(lower, "pdf") {
        FormatDefault::Export("pdf")
    } else {
        FormatDefault::Nothing
    }
}

/// Whether no output format was chosen on the command line.
pub open spec fn no_output_chosen(c: Cli) -> bool {
    c.export.is_none() && !c.json && !c.json_snapshot
}

/// `b` is `a` with at most the output fields (`json`, `json_snapshot`,
/// `export`) changed as the default format `lower` says, when `a` chose none.
pub open spec fn with_format_default(a: Cli, b: Cli, lower: Seq<char>) -> bool {
    &&& b.target == a.target && b.resources == a.resources && b.kernel == a.kernel
    &&& b.network == a.network && b.resolve == a.resolve && b.files == a.files
    &&& b.env == a.env && b.tree == a.tree && b.watch == a.watch && b.kill == a.kill
    &&& b.all == a.all && b.no_color == a.no_color && b.diff == a.diff
    &&& b.history == a.history && b.alert_list == a.alert_list && b.alert_add == a.alert_add
    &&& b.alert_remove == a.alert_remove && b.sudo == a.sudo && b.verbose == a.verbose
    &&& b.net_sample_ms == a.net_sample_ms && b.port == a.port
    &&& if no_output_chosen(a) {
        match format_default_of(lower) {
            Some((0, _)) => b.json && !b.json_snapshot && b.export.is_none(),
            Some((1, _)) => !b.json && b.json_snapshot && b.export.is_none(),
            Some((_, f)) => !b.json && !b.json_snapshot && (b.export matches Some(e) && e@ == f),
            None => b.json == a.json && b.json_snapshot == a.json_snapshot && b.export == a.export,
        }
    } else {
        b.json == a.json && b.json_snapshot == a.json_snapshot && b.export == a.export
    }
}

/// Applies a default output format `fmt` (from the config file or
/// `PEEK_DEFAULT_FORMAT`) when the command line chose no output format.
#[verifier::rlimit(50)]
pub fn apply_default_format(cli: &mut Cli, fmt: &str)
    ensures
        with_format_default(*old(cli), *final(cli), lowercase(fmt@)),
{
    if !(cli.export.is_none() && !cli.json && !cli.json_snapshot) {
        return;
    }
    let lower = to_lowercase(fmt);
    match format_default(lower.as_str()) {
        FormatDefault::Json => {
            cli.json = true;
        },
        FormatDefault::JsonSnapshot => {
            cli.json_snapshot = true;
        },
        FormatDefault::Export(f) => {
            cli.export = Some(string_from(f));
        },
        FormatDefault::Nothing => {},
    }
}

/// Applies config file defaults to the command line: `no-color` and
/// `resolve` switch those flags on; the default format applies when no
/// output format was chosen.
pub fn apply_config_defaults(cli: &mut Cli, cfg: &Option<PeekConfig>)
    ensures
        match cfg {
            None => *final(cli) == *old(cli),
            Some(c) => {
                &&& final(cli).no_color == (old(cli).no_color || c.defaults.no_color)
                &&& final(cli).resolve == (old(cli).resolve || c.defaults.resolve)
                &&& match c.export.default_format {
                    Some(f) => with_format_default(
                        Cli { no_color: final(cli).no_color, resolve: final(cli).resolve, ..*old(cli) },
                        *final(cli),
                        lowercase(f@),
                    ),
                    None => *final(cli) == (Cli { no_color: final(cli).no_color, resolve: final(cli).resolve, ..*old(cli) }),
                }
            },
        },
{
    match cfg {
        None => {},
        Some(c) => {
            if c.defaults.no_color {
                cli.no_color = true;
            }
            if c.defaults.resolve {
                cli.resolve = true;
            }
            match &c.export.default_format {
                Some(f) => apply_default_format(cli, f.as_str()),
                None => {},
            }
        },
    }
}

/// Sections to collect: each flag, or `--all` for every section and GPU.
pub open spec fn opts_of(cli: Cli) -> CollectOptions {
    CollectOptions {
        resources: cli.resources || cli.all,
        kernel: cli.kernel || cli.all,
        network: cli.network || cli.all,
        files: cli.files || cli.all,
        env: cli.env || cli.all,
        tree: cli.tree || cli.all,
        gpu: cli.all,
    }
}

pub fn make_opts(cli: &Cli) -> (o: CollectOptions)
    ensures
        o == opts_of(*cli),
{
    CollectOptions {
        resources: cli.resources || cli.all,
        kernel: cli.kernel || cli.all,
        network: cli.network || cli.all,
        files: cli.files || cli.all,
        env: cli.env || cli.all,
        tree: cli.tree || cli.all,
        gpu: cli.all,
    }
}

/// Whether an export format (in lower case) is a document report that includes the process tree.
pub open spec fn is_document_format(lower: Seq<char>) -> bool {
    lower == "md"@ || lower == "markdown"@ || lower == "html"@
}

/// Sections to collect for a report: those of `make_opts`, with the process
/// tree for a Markdown or HTML export.
pub fn report_opts(cli: &Cli) -> (o: CollectOptions)
    ensures
        o == (CollectOptions {
            tree: cli.tree || cli.all || (cli.export matches Some(e) && is_document_format(
                lowercase(e@),
            )),
            ..opts_of(*cli)
        }),
{
    let mut o = make_opts(cli);
    match &cli.export {
        Some(e) => {
            let lower = to_lowercase(e.as_str());
            if str_eq(lower.as_str(), "md") || str_eq(lower.as_str(), "markdown") || str_eq(
                lower.as_str(),
                "html",
            ) {
                o.tree = true;
            }
        },
        None => {},
    }
    o
}

/// `--all` switches every section on.
pub fn expand_all(cli: &mut Cli)
    ensures
        *final(cli) == (if old(cli).all {
            Cli {
                resources: true,
                kernel: true,
                network: true,
                files: true,
                env: true,
                tree: true,
                ..*old(cli)
            }
        } else {
            *old(cli)
        }),
{
    if cli.all {
        cli.resources = true;
        cli.kernel = true;
        cli.network = true;
        cli.files = true;
        cli.env = true;
        cli.tree = true;
    }
}

} // verus!
