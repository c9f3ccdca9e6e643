//! Start-up decisions: the validate-only flag, listener addresses and the
//! log output format.
use vstd::prelude::*;

use crate::config::{lower_of, lowercase, Config};
use crate::text::{dec, text_eq, u64_text};

verus! {

/// The command-line flag that asks for validation of the configuration only.
pub open spec fn is_validate_flag(a: Seq<char>) -> bool {
    a == "--validate-config"@
}

/// Whether any argument asks for validation only.
pub fn wants_validate_only(args: &Vec<String>) -> (r: bool)
    ensures
        r == exists|i: int| 0 <= i < args@.len() && is_validate_flag(#[trigger] args@[i]@),
{
    let mut i: usize = 0;
    while i < args.len()
        invariant
            i <= args@.len(),
            forall|j: int| 0 <= j < i ==> !is_validate_flag(#[trigger] args@[j]@),
        decreases args@.len() - i,
    {
        if text_eq(args[i].as_str(), "--validate-config") {
            return true;
        }
        i = i + 1;
    }
    false
}

/// The process exit code of a validate-only run.
pub fn validation_exit_code(valid: bool) -> (r: i32)
    ensures
        r == (if valid {
            0i32
        } else {
            1i32
        }),
{
    if valid {
        0
    } else {
        1
    }
}

/// `host:port`.
pub fn listen_address(host: &str, port: u16) -> (r: String)
    ensures
        r@ == host@ + ":"@ + dec(port as nat),
{
    let mut r = String::from_str(host);
    r.append(":");
    let p = u64_text(port as u64);
    r.append(p.as_str());
    r
}

/// The address of the primary listener.
pub fn primary_address(config: &Config) -> (r: String)
    ensures
        r@ == config.host@ + ":"@ + dec(config.port as nat),
{
    listen_address(config.host.as_str(), config.port)
}

/// The address of the metrics listener: every interface, the metrics port.
pub fn metrics_address(config: &Config) -> (r: String)
    ensures
        r@ == "0.0.0.0"@ + ":"@ + dec(config.metrics_port as nat),
{
    listen_address("0.0.0.0", config.metrics_port)
}

/// Whether log lines are written as JSON: exactly when the format, in any
/// case, is `json`.
pub fn json_logs(config: &Config) -> (r: bool)
    ensures
        r == (lower_of(config.log_format@) == "json"@),
{
    let lowered = lowercase(config.log_format.as_str());
    text_eq(lowered.as_str(), "json")
}

} // verus!
