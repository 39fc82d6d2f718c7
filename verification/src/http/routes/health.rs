//! Health and information.

use vstd::prelude::*;
use vstd::string::*;

use crate::config::{BindHost, CoreConfig};
use crate::http::dto::InfoResponse;

verus! {

/// The answer of a running engine.
pub fn healthz() -> (r: &'static str)
    ensures
        r@ == "ok"@,
{
    "ok"
}

/// What is told of the running engine.
pub fn info(version: &'static str, cfg: &CoreConfig, running_mailboxes: u32) -> (r: InfoResponse)
    ensures
        r.version == version,
        r.uptime_sec == 0,
        r.running_mailboxes == running_mailboxes,
        r.bind_host@ == match cfg.bind_host {
            BindHost::Loopback => "127.0.0.1"@,
            BindHost::AllInterfaces => "0.0.0.0"@,
        },
        r.http_port == cfg.http_port,
{
    let bind_host: String = match cfg.bind_host {
        BindHost::Loopback => "127.0.0.1".to_owned(),
        BindHost::AllInterfaces => "0.0.0.0".to_owned(),
    };
    InfoResponse {
        version,
        uptime_sec: 0,
        running_mailboxes,
        bind_host,
        http_port: cfg.http_port,
    }
}

} // verus!
