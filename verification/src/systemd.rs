//! Init-system unit definitions and the decisions derived from unit
//! status output. The library renders unit files and interprets status
//! responses; running the init-system control commands is the surrounding
//! program's job.

use vstd::prelude::*;
use crate::text::{dec_digits, joined, trimmed};

verus! {

/// One unit definition: the unit name, a human description, the account to
/// run as, the full command line, and the restart backoff in seconds.
#[derive(Debug)]
pub struct Config {
    pub service: String,
    pub description: String,
    pub user: String,
    pub exec_start: String,
    pub restart_secs: u64,
}

/// The full text of a unit definition file.
pub open spec fn unit_text(c: Config) -> Seq<char> {
    "[Unit]\nDescription="@ + c.description@ + "\n\n[Service]\nUser="@ + c.user@ + "\nExecStart="@
        + c.exec_start@ + "\nRestartSec="@ + dec_digits(c.restart_secs as nat)
        + "\nRestart=on-failure\n\n[Install]\nWantedBy=multi-user.target\n"@
}

impl Config {
    /// A unit definition over the given command line, joined with single
    /// spaces.
    pub fn new(
        service: String,
        description: String,
        user: String,
        exec_start: Vec<String>,
        restart_secs: u64,
    ) -> (r: Config)
        ensures
            r.service@ == service@,
            r.description@ == description@,
            r.user@ == user@,
            r.exec_start@ == joined(exec_start@.map_values(|s: String| s@), " "@),
            r.restart_secs == restart_secs,
    {
        let exec_start_line = crate::text::join_with(&exec_start, " ");
        Config { service, description, user, exec_start: exec_start_line, restart_secs }
    }

    /// Renders the unit definition file.
    pub fn render(&self) -> (r: String)
        ensures
            r@ == unit_text(*self),
    {
        let mut out = String::from_str("[Unit]\nDescription=");
        out.append(self.description.as_str());
        out.append("\n\n[Service]\nUser=");
        out.append(self.user.as_str());
        out.append("\nExecStart=");
        out.append(self.exec_start.as_str());
        out.append("\nRestartSec=");
        let secs = crate::text::u64_to_dec(self.restart_secs);
        out.append(secs.as_str());
        out.append("\nRestart=on-failure\n\n[Install]\nWantedBy=multi-user.target\n");
        out
    }
}

/// The path of a unit definition file under the init system's unit
/// directory.
pub open spec fn unit_path(service_name: Seq<char>) -> Seq<char> {
    "/etc/systemd/system/"@ + service_name + ".service"@
}

/// The path of the unit definition file for `service_name`.
pub fn service_path(service_name: &str) -> (r: String)
    ensures
        r@ == unit_path(service_name@),
{
    let mut out = String::from_str("/etc/systemd/system/");
    out.append(service_name);
    out.append(".service");
    out
}

/// Whether an `is-active` response reports a running unit.
pub fn is_active(response: &str) -> (r: bool)
    ensures
        r == (trimmed(response@) == "active"@),
{
    let cleaned = crate::text::trim_str(response);
    crate::text::str_eq(cleaned.as_str(), "active")
}

/// Whether an `is-enabled` response reports a unit that starts on boot.
pub fn is_enabled(response: &str) -> (r: bool)
    ensures
        r == (trimmed(response@) == "enabled"@),
{
    let cleaned = crate::text::trim_str(response);
    crate::text::str_eq(cleaned.as_str(), "enabled")
}

/// Whether an `is-failed` response reports a failed unit.
pub fn is_failed(response: &str) -> (r: bool)
    ensures
        r == (trimmed(response@) == "failed"@),
{
    let cleaned = crate::text::trim_str(response);
    crate::text::str_eq(cleaned.as_str(), "failed")
}

/// Summarizes a unit's state from its `is-enabled` and `is-active`
/// responses: `enabled+active` when both hold, otherwise the two trimmed
/// responses joined with `+` as the error.
pub fn unit_state(enabled_response: &str, active_response: &str) -> (r: core::result::Result<
    String,
    String,
>)
    ensures
        r is Ok <==> (trimmed(enabled_response@) == "enabled"@ && trimmed(active_response@)
            == "active"@),
        r is Ok ==> r->Ok_0@ == "enabled+active"@,
        r is Err ==> r->Err_0@ == trimmed(enabled_response@) + "+"@ + trimmed(active_response@),
{
    let enabled = crate::text::trim_str(enabled_response);
    let active = crate::text::trim_str(active_response);
    let enabled_ok = crate::text::str_eq(enabled.as_str(), "enabled");
    let active_ok = crate::text::str_eq(active.as_str(), "active");
    if enabled_ok && active_ok {
        Ok(String::from_str("enabled+active"))
    } else {
        let mut out = enabled;
        out.append("+");
        out.append(active.as_str());
        Err(out)
    }
}

} // verus!
