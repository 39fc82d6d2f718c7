//! Where the HTTP API listens.

use vstd::prelude::*;
use vstd::string::*;

use crate::config::{BindHost, CoreConfig};
use crate::db::settings::NetworkPrefs;
use crate::error::Error;
use crate::mailbox::service::ListenFailure;

verus! {

/// The largest body of a request, in bytes.
pub const MAX_BODY_BYTES: usize = 52_428_800;

/// After how many seconds a request is given up.
pub const REQUEST_TIMEOUT_SECONDS: u64 = 30;

/// Where the API is bound.
#[derive(Debug)]
pub struct HttpBind {
    pub host: BindHost,
    pub port: u16,
}

/// The port of the API. A configured port of zero lets the system choose, whatever
/// the settings say; else the settings go first, and the configuration steps in
/// where they hold no port.
pub open spec fn api_port(configured: u16, saved: u16) -> u16 {
    if configured == 0 {
        0
    } else if saved != 0 {
        saved
    } else {
        configured
    }
}

/// Where the API is bound: to the loopback interface, unless the settings expose it.
pub fn start(cfg: &CoreConfig, net: &NetworkPrefs) -> (r: HttpBind)
    ensures
        r.port == api_port(cfg.http_port, net.http_api_port),
        r.host == if net.expose_on_lan {
            BindHost::AllInterfaces
        } else {
            BindHost::Loopback
        },
{
    let port: u16 = if cfg.http_port == 0 {
        0
    } else if net.http_api_port != 0 {
        net.http_api_port
    } else {
        cfg.http_port
    };
    let host: BindHost = if net.expose_on_lan {
        BindHost::AllInterfaces
    } else {
        BindHost::Loopback
    };
    HttpBind { host, port }
}

/// The error that a failed bind is reported as: an address in use is a port in use.
pub fn bind_error(failure: ListenFailure, port: u16) -> (r: Error)
    ensures
        r == crate::mailbox::service::listen_error(failure, port),
{
    match failure {
        ListenFailure::AddrInUse(_) => Error::PortInUse(port),
        ListenFailure::Other(e) => e,
    }
}

/// The port of the API: one that the system chooses where that is configured, else the
/// saved one, else the configured one.
pub proof fn law_api_port(configured: u16, saved: u16)
    ensures
        api_port(0, saved) == 0,
        configured != 0 && saved != 0 ==> api_port(configured, saved) == saved,
        api_port(configured, 0) == configured,
{
}

} // verus!
