//! Per-process network view: parsing of `/proc/net/{tcp,udp,tcp6,udp6}` and
//! of the socket links in `/proc/<PID>/fd`.

pub mod tcp;
pub mod ipv6;
