use vstd::prelude::*;
use crate::cli::args::Cli;
use crate::text::{dec, dec_string, lowercase, push_str, str_eq, string_from, to_lowercase};

verus! {

/// The first decision of a run, before a target is resolved.
pub enum FirstStep {
    /// `--port`: search for processes on the port.
    PortSearch(u16),
    /// `--alert-list`.
    AlertList,
    /// `--alert-remove RULE_ID`.
    AlertRemove(String),
    /// Go on and resolve the target.
    Continue,
}

/// Port search takes precedence, then listing alerts, then removing one.
pub fn first_step(cli: &Cli) -> (r: FirstStep)
    ensures
        match cli.port {
            Some(p) => r == FirstStep::PortSearch(p),
            None => if cli.alert_list {
                r == FirstStep::AlertList
            } else {
                match cli.alert_remove {
                    Some(id) => r matches FirstStep::AlertRemove(x) && x@ == id@,
                    None => r == FirstStep::Continue,
                }
            },
        },
{
    match cli.port {
        Some(p) => FirstStep::PortSearch(p),
        None => {
            if cli.alert_list {
                FirstStep::AlertList
            } else {
                match &cli.alert_remove {
                    Some(id) => FirstStep::AlertRemove(crate::text::string_from(id.as_str())),
                    None => FirstStep::Continue,
                }
            }
        },
    }
}

/// The decision once the target PID is known.
pub enum TargetStep {
    /// Live TUI with this refresh interval (ms).
    Tui(u64),
    /// `--alert-add METRIC OP THRESHOLD`.
    AlertAdd,
    /// `--diff PID2`.
    Diff(i32),
    /// `--history`.
    History,
    /// `--watch [INTERVAL_MS]`.
    Watch(u64),
    /// Collect a snapshot and output it.
    Collect,
}

/// Whether a run picked its process interactively and asked for nothing
/// else: then it opens the live TUI.
pub open spec fn plain_interactive(cli: Cli, had_no_target: bool) -> bool {
    had_no_target && cli.watch.is_none() && cli.export.is_none() && !cli.kill && !cli.json
        && !cli.json_snapshot && !cli.history && cli.diff.is_none() && cli.alert_add.is_none()
}

/// Interactive picking opens the TUI (2000 ms); otherwise alert-add, diff,
/// history and watch (2000 ms by default) are tried in that order, else a
/// snapshot is collected.
pub fn target_step(cli: &Cli, had_no_target: bool) -> (r: TargetStep)
    ensures
        r == (if plain_interactive(*cli, had_no_target) {
            TargetStep::Tui(2000)
        } else if cli.alert_add.is_some() {
            TargetStep::AlertAdd
        } else if cli.diff.is_some() {
            TargetStep::Diff(cli.diff.unwrap())
        } else if cli.history {
            TargetStep::History
        } else if cli.watch.is_some() {
            TargetStep::Watch(
                match cli.watch.unwrap() {
                    Some(ms) => ms,
                    None => 2000,
                },
            )
        } else {
            TargetStep::Collect
        }),
{
    if had_no_target && cli.watch.is_none() && cli.export.is_none() && !cli.kill && !cli.json
        && !cli.json_snapshot && !cli.history && cli.diff.is_none() && cli.alert_add.is_none() {
        return TargetStep::Tui(2000);
    }
    if cli.alert_add.is_some() {
        return TargetStep::AlertAdd;
    }
    match cli.diff {
        Some(p) => {
            return TargetStep::Diff(p);
        },
        None => {},
    }
    if cli.history {
        return TargetStep::History;
    }
    match cli.watch {
        Some(iv) => TargetStep::Watch(
            match iv {
                Some(ms) => ms,
                None => 2000,
            },
        ),
        None => TargetStep::Collect,
    }
}

/// How a collected snapshot is output.
pub enum Output {
    /// `--export FORMAT`.
    Export(String),
    /// `--kill`: the interactive control panel.
    Kill,
    /// `--json-snapshot`.
    JsonSnapshot,
    /// `--json`.
    Json,
    /// The plain-text report.
    Report,
}

/// Export first, then the kill panel, the JSON snapshot, raw JSON, and else the report.
pub fn output_step(cli: &Cli) -> (r: Output)
    ensures
        match cli.export {
            Some(f) => r matches Output::Export(x) && x@ == f@,
            None => r == (if cli.kill {
                Output::Kill
            } else if cli.json_snapshot {
                Output::JsonSnapshot
            } else if cli.json {
                Output::Json
            } else {
                Output::Report
            }),
        },
{
    match &cli.export {
        Some(f) => Output::Export(crate::text::string_from(f.as_str())),
        None => {
            if cli.kill {
                Output::Kill
            } else if cli.json_snapshot {
                Output::JsonSnapshot
            } else if cli.json {
                Output::Json
            } else {
                Output::Report
            }
        },
    }
}

/// Whether colours are off: `--no-color` or `PEEK_NO_COLOR` turn them off;
/// else a set `NO_COLOR` decides (it counts only when its value is readable
/// text); else they are off when standard output is not a terminal.
pub open spec fn colors_off(
    cli_no_color: bool,
    peek_no_color_set: bool,
    no_color_set: bool,
    no_color_readable: bool,
    stdout_is_terminal: bool,
) -> bool {
    if cli_no_color || peek_no_color_set {
        true
    } else if no_color_set {
        no_color_readable
    } else {
        !stdout_is_terminal
    }
}

pub fn color_disabled(
    cli_no_color: bool,
    peek_no_color_set: bool,
    no_color_set: bool,
    no_color_readable: bool,
    stdout_is_terminal: bool,
) -> (r: bool)
    ensures
        r == colors_off(cli_no_color, peek_no_color_set, no_color_set, no_color_readable, stdout_is_terminal),
{
    if cli_no_color || peek_no_color_set {
        true
    } else if no_color_set {
        no_color_readable
    } else {
        !stdout_is_terminal
    }
}

/// The value `PEEK_NET_SAMPLE_MS` is set to for this run, if any: the
/// `--net-sample-ms` value, else 0 when the variable is unset and the run
/// does not watch.
pub fn net_sample_setting(env_set: bool, watching: bool, cli_ms: Option<u64>) -> (r: Option<String>)
    ensures
        match cli_ms {
            Some(ms) => r matches Some(v) && v@ == dec(ms as nat),
            None => if !env_set && !watching {
                r matches Some(v) && v@ == "0"@
            } else {
                r is None
            },
        },
{
    match cli_ms {
        Some(ms) => Some(dec_string(ms)),
        None => if !env_set && !watching {
            Some(string_from("0"))
        } else {
            None
        },
    }
}

/// The arguments of the `sudo` re-run: this program's path, then the
/// original arguments after the program name without `--sudo`.
pub open spec fn sudo_args_of(exe: Seq<char>, args: Seq<Seq<char>>) -> Seq<Seq<char>>
    decreases args.len(),
{
    if args.len() <= 1 {
        seq![exe]
    } else {
        let prev = sudo_args_of(exe, args.drop_last());
        if args.last() == "--sudo"@ {
            prev
        } else {
            prev.push(args.last())
        }
    }
}

pub fn sudo_args(exe: &str, args: &Vec<String>) -> (r: Vec<String>)
    requires
        args.len() >= 1,
    ensures
        r@.map_values(|s: String| s@) == sudo_args_of(exe@, args@.map_values(|s: String| s@)),
{
    let ghost all = args@.map_values(|s: String| s@);
    let mut out: Vec<String> = Vec::new();
    out.push(string_from(exe));
    let mut i: usize = 1;
    assert(out@.map_values(|s: String| s@) =~= sudo_args_of(exe@, all.take(1)));
    while i < args.len()
        invariant
            1 <= i <= args.len(),
            all == args@.map_values(|s: String| s@),
            out@.map_values(|s: String| s@) == sudo_args_of(exe@, all.take(i as int)),
        decreases args.len() - i,
    {
        assert(all.take(i + 1).drop_last() =~= all.take(i as int));
        assert(all.take(i + 1).last() == args@[i as int]@);
        if !str_eq(args[i].as_str(), "--sudo") {
            let a = string_from(args[i].as_str());
            let ghost before = out@.map_values(|s: String| s@);
            out.push(a);
            assert(out@.map_values(|s: String| s@) =~= before.push(args@[i as int]@));
        }
        i = i + 1;
    }
    assert(all.take(args.len() as int) =~= all);
    out
}

/// The report format named by `--export`, in any case.
#[derive(Debug)]
pub enum ExportFormat {
    Json,
    Markdown,
    Html,
    Pdf,
    /// Not a known format: the error message.
    Unknown(String),
}

pub fn export_format(fmt: &str) -> (r: ExportFormat)
    ensures
        ({
            let l = lowercase(fmt@);
            if l == "json"@ {
                r is Json
            } else if l == "md"@ || l == "markdown"@ {
                r is Markdown
            } else if l == "html"@ {
                r is Html
            } else if l == "pdf"@ {
                r is Pdf
            } else {
                r matches ExportFormat::Unknown(m) && m@ == "unknown format '"@ + l
                    + "' (json | html | md | pdf)"@
            }
        }),
{
    let l = to_lowercase(fmt);
    if str_eq(l.as_str(), "json") {
        ExportFormat::Json
    } else if str_eq(l.as_str(), "md") || str_eq(l.as_str(), "markdown") {
        ExportFormat::Markdown
    } else if str_eq(l.as_str(), "html") {
        ExportFormat::Html
    } else if str_eq(l.as_str(), "pdf") {
        ExportFormat::Pdf
    } else {
        let mut m = string_from("unknown format '");
        push_str(&mut m, l.as_str());
        push_str(&mut m, "' (json | html | md | pdf)");
        ExportFormat::Unknown(m)
    }
}

} // verus!
