//! Colored terminal text. A color is applied unless coloring is disabled
//! (the caller passes whether `NO_COLOR` is set).

use vstd::prelude::*;
use owo_colors::OwoColorize;

verus! {

/// `s` between an opening escape sequence and a closing one.
pub open spec fn styled(open: Seq<char>, s: Seq<char>, close: Seq<char>) -> Seq<char> {
    open + s + close
}

/// Trusted: `owo_colors::OwoColorize::red` displayed with `to_string`; the
/// contract claims the text is `s` between `ESC[31m` and `ESC[39m`.
#[verifier::external_body]
fn paint_red(s: &str) -> (r: String)
    ensures
        r@ == styled("\x1b[31m"@, s@, "\x1b[39m"@),
{
    s.red().to_string()
}

/// Trusted: `owo_colors::OwoColorize::yellow` displayed with `to_string`; the
/// contract claims the text is `s` between `ESC[33m` and `ESC[39m`.
#[verifier::external_body]
fn paint_yellow(s: &str) -> (r: String)
    ensures
        r@ == styled("\x1b[33m"@, s@, "\x1b[39m"@),
{
    s.yellow().to_string()
}

/// Trusted: `owo_colors::OwoColorize::green` displayed with `to_string`; the
/// contract claims the text is `s` between `ESC[32m` and `ESC[39m`.
#[verifier::external_body]
fn paint_green(s: &str) -> (r: String)
    ensures
        r@ == styled("\x1b[32m"@, s@, "\x1b[39m"@),
{
    s.green().to_string()
}

/// Trusted: `owo_colors::OwoColorize::cyan` displayed with `to_string`; the
/// contract claims the text is `s` between `ESC[36m` and `ESC[39m`.
#[verifier::external_body]
fn paint_cyan(s: &str) -> (r: String)
    ensures
        r@ == styled("\x1b[36m"@, s@, "\x1b[39m"@),
{
    s.cyan().to_string()
}

/// Trusted: `owo_colors::OwoColorize::bold` displayed with `to_string`; the
/// contract claims the text is `s` between `ESC[1m` and `ESC[0m`.
#[verifier::external_body]
fn paint_bold(s: &str) -> (r: String)
    ensures
        r@ == styled("\x1b[1m"@, s@, "\x1b[0m"@),
{
    s.bold().to_string()
}

/// Trusted: `owo_colors::OwoColorize::dimmed` displayed with `to_string`; the
/// contract claims the text is `s` between `ESC[2m` and `ESC[0m`.
#[verifier::external_body]
fn paint_dimmed(s: &str) -> (r: String)
    ensures
        r@ == styled("\x1b[2m"@, s@, "\x1b[0m"@),
{
    s.dimmed().to_string()
}

pub open spec fn colored(s: Seq<char>, open: Seq<char>, close: Seq<char>, disabled: bool) -> Seq<char> {
    if disabled {
        s
    } else {
        styled(open, s, close)
    }
}

fn plain(s: &str) -> (r: String)
    ensures
        r@ == s@,
{
    crate::text::string_from(s)
}

pub fn red(s: &str, disabled: bool) -> (r: String)
    ensures
        r@ == colored(s@, "\x1b[31m"@, "\x1b[39m"@, disabled),
{
    if disabled {
        plain(s)
    } else {
        paint_red(s)
    }
}

pub fn bold(s: &str, disabled: bool) -> (r: String)
    ensures
        r@ == colored(s@, "\x1b[1m"@, "\x1b[0m"@, disabled),
{
    if disabled {
        plain(s)
    } else {
        paint_bold(s)
    }
}

pub fn yellow(s: &str, disabled: bool) -> (r: String)
    ensures
        r@ == colored(s@, "\x1b[33m"@, "\x1b[39m"@, disabled),
{
    if disabled {
        plain(s)
    } else {
        paint_yellow(s)
    }
}

pub fn green(s: &str, disabled: bool) -> (r: String)
    ensures
        r@ == colored(s@, "\x1b[32m"@, "\x1b[39m"@, disabled),
{
    if disabled {
        plain(s)
    } else {
        paint_green(s)
    }
}

pub fn cyan(s: &str, disabled: bool) -> (r: String)
    ensures
        r@ == colored(s@, "\x1b[36m"@, "\x1b[39m"@, disabled),
{
    if disabled {
        plain(s)
    } else {
        paint_cyan(s)
    }
}

pub fn dimmed(s: &str, disabled: bool) -> (r: String)
    ensures
        r@ == colored(s@, "\x1b[2m"@, "\x1b[0m"@, disabled),
{
    if disabled {
        plain(s)
    } else {
        paint_dimmed(s)
    }
}

/// Red and bold: the bold style around the red text.
pub fn red_bold(s: &str, disabled: bool) -> (r: String)
    ensures
        r@ == colored(s@, "\x1b[1m"@ + "\x1b[31m"@, "\x1b[39m"@ + "\x1b[0m"@, disabled),
{
    if disabled {
        plain(s)
    } else {
        let inner = paint_red(s);
        let r = paint_bold(inner.as_str());
        assert(r@ =~= styled("\x1b[1m"@ + "\x1b[31m"@, s@, "\x1b[39m"@ + "\x1b[0m"@));
        r
    }
}

/// Yellow and bold.
pub fn yellow_bold(s: &str, disabled: bool) -> (r: String)
    ensures
        r@ == colored(s@, "\x1b[1m"@ + "\x1b[33m"@, "\x1b[39m"@ + "\x1b[0m"@, disabled),
{
    if disabled {
        plain(s)
    } else {
        let inner = paint_yellow(s);
        let r = paint_bold(inner.as_str());
        assert(r@ =~= styled("\x1b[1m"@ + "\x1b[33m"@, s@, "\x1b[39m"@ + "\x1b[0m"@));
        r
    }
}

/// Cyan and bold.
pub fn cyan_bold(s: &str, disabled: bool) -> (r: String)
    ensures
        r@ == colored(s@, "\x1b[1m"@ + "\x1b[36m"@, "\x1b[39m"@ + "\x1b[0m"@, disabled),
{
    if disabled {
        plain(s)
    } else {
        let inner = paint_cyan(s);
        let r = paint_bold(inner.as_str());
        assert(r@ =~= styled("\x1b[1m"@ + "\x1b[36m"@, s@, "\x1b[39m"@ + "\x1b[0m"@));
        r
    }
}

/// With colour off, every helper hands the text back unchanged.
pub proof fn lemma_colors_off_is_plain(s: Seq<char>, open: Seq<char>, close: Seq<char>)
    ensures
        colored(s, open, close, true) == s,
{
}

} // verus!
