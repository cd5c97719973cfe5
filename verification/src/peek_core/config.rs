//! Config file contents: `~/.config/peek/config.toml` (or
//! `XDG_CONFIG_HOME/peek/config.toml`). Reading and parsing the file is the
//! caller's; environment variables override its values.

use vstd::prelude::*;
use crate::text::{join, joined};

verus! {

#[derive(Debug, Clone)]
pub struct PeekConfig {
    pub defaults: DefaultsSection,
    pub peekd: PeekdSection,
    pub export: ExportSection,
}

#[derive(Debug, Clone, Copy, PartialEq, Eq, Structural)]
pub struct DefaultsSection {
    /// Default for --no-color (disable colored output).
    pub no_color: bool,
    /// Default for --resolve (resolve remote addresses).
    pub resolve: bool,
}

#[derive(Debug, Clone)]
pub struct PeekdSection {
    /// Unix socket path for peekd. Overridden by PEEK_PEEKD_SOCKET.
    pub socket_path: Option<String>,
    /// Directory for history JSONL files.
    pub history_dir: Option<String>,
}

#[derive(Debug, Clone)]
pub struct ExportSection {
    /// Default export/output format: json | json_snapshot | md | html | pdf.
    pub default_format: Option<String>,
}

impl Default for PeekConfig {
    fn default() -> (r: Self)
        ensures
            !r.defaults.no_color && !r.defaults.resolve && r.peekd.socket_path.is_none()
                && r.peekd.history_dir.is_none() && r.export.default_format.is_none(),
    {
        PeekConfig {
            defaults: DefaultsSection { no_color: false, resolve: false },
            peekd: PeekdSection { socket_path: None, history_dir: None },
            export: ExportSection { default_format: None },
        }
    }
}

/// Where the config file is: `$XDG_CONFIG_HOME/peek/config.toml`, else
/// `$HOME/.config/peek/config.toml`, else `.config/peek/config.toml`.
pub open spec fn config_path_of(xdg: Option<Seq<char>>, home: Option<Seq<char>>) -> Seq<char> {
    match xdg {
        Some(x) => joined(joined(x, "peek"@), "config.toml"@),
        None => match home {
            Some(h) => joined(joined(joined(h, ".config"@), "peek"@), "config.toml"@),
            None => joined(joined(".config"@, "peek"@), "config.toml"@),
        },
    }
}

pub open spec fn opt_text(o: Option<&str>) -> Option<Seq<char>> {
    match o {
        Some(s) => Some(s@),
        None => None,
    }
}

/// The config file's path, given the values of `XDG_CONFIG_HOME` and `HOME`.
pub fn config_path(xdg: Option<&str>, home: Option<&str>) -> (r: String)
    ensures
        r@ == config_path_of(opt_text(xdg), opt_text(home)),
{
    let dir = match xdg {
        Some(x) => join(x, "peek"),
        None => match home {
            Some(h) => {
                let c = join(h, ".config");
                join(c.as_str(), "peek")
            },
            None => join(".config", "peek"),
        },
    };
    join(dir.as_str(), "config.toml")
}

} // verus!
