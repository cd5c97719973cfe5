use vstd::prelude::*;
use crate::text::{all_digits, chars_of, digits_value, parse_unsigned, unsigned_body};

verus! {

/// The value of a numeric setting taken from an environment variable: `raw`
/// read as an unsigned decimal (`usize::from_str`), kept when it lies in
/// `lo..=hi`, and `default` otherwise (unset, not a number, or out of range).
pub open spec fn setting_value(raw: Option<Seq<char>>, lo: nat, hi: nat, default: nat) -> nat {
    match raw {
        Some(s) => {
            let body = unsigned_body(s);
            if body.len() > 0 && all_digits(body, 10) && lo <= digits_value(body, 10) <= hi {
                digits_value(body, 10)
            } else {
                default
            }
        },
        None => default,
    }
}

pub open spec fn opt_view(raw: Option<&str>) -> Option<Seq<char>> {
    match raw {
        Some(s) => Some(s@),
        None => None,
    }
}

/// Reads a bounded setting; see [`setting_value`].
pub fn bounded_setting(raw: Option<&str>, lo: u64, hi: u64, default: u64) -> (r: u64)
    requires
        lo <= hi,
        lo <= default <= hi,
    ensures
        r as nat == setting_value(opt_view(raw), lo as nat, hi as nat, default as nat),
        lo <= r <= hi,
{
    match raw {
        None => default,
        Some(s) => {
            let cs = chars_of(s);
            match parse_unsigned(&cs, 10, hi) {
                Some(n) => {
                    if lo <= n {
                        n
                    } else {
                        default
                    }
                },
                None => default,
            }
        },
    }
}

/// `PEEKD_RING_SIZE`: samples kept per PID, 1..=3600, default 300.
pub fn ring_size(raw: Option<&str>) -> (r: usize)
    ensures
        r as nat == setting_value(opt_view(raw), 1, 3600, 300),
        1 <= r <= 3600,
{
    bounded_setting(raw, 1, 3600, 300) as usize
}

/// `PEEKD_MAX_WATCHED_PIDS`: 1..=10000, default 256.
pub fn max_watched_pids(raw: Option<&str>) -> (r: usize)
    ensures
        r as nat == setting_value(opt_view(raw), 1, 10_000, 256),
        1 <= r <= 10_000,
{
    bounded_setting(raw, 1, 10_000, 256) as usize
}

/// `PEEKD_MAX_CONNECTIONS`: concurrent clients, 1..=1000, default 20.
pub fn max_connections(raw: Option<&str>) -> (r: usize)
    ensures
        r as nat == setting_value(opt_view(raw), 1, 1000, 20),
        1 <= r <= 1000,
{
    bounded_setting(raw, 1, 1000, 20) as usize
}

/// `PEEKD_MIN_REQUEST_INTERVAL_MS`: pause between one client's requests,
/// 0..=60000, default 50.
pub fn min_request_interval_ms(raw: Option<&str>) -> (r: u64)
    ensures
        r as nat == setting_value(opt_view(raw), 0, 60_000, 50),
        r <= 60_000,
{
    bounded_setting(raw, 0, 60_000, 50)
}

/// `PEEKD_SAMPLE_INTERVAL_SECS`: seconds between samples, 1..=3600, default 1.
pub fn sample_interval_secs(raw: Option<&str>) -> (r: u64)
    ensures
        r as nat == setting_value(opt_view(raw), 1, 3600, 1),
        1 <= r <= 3600,
{
    bounded_setting(raw, 1, 3600, 1)
}

} // verus!
