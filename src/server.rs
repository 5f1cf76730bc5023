//! Which listeners the server starts, and what each of them serves.

use vstd::prelude::*;
use crate::context::{Context, TlsConfig, TlsView};

verus! {

/// The routes mounted on a listener.
#[derive(Clone, Copy, Debug, PartialEq, Eq, Structural)]
pub enum RouteSet {
    /// Only the catch-all redirect to the encrypted listener.
    RedirectOnly,
    /// Login, configuration, stream and static files.
    Full,
}

/// One listener to start.
#[derive(Clone, Debug, PartialEq, Eq)]
pub struct ListenerPlan {
    /// IPv4 address to bind.
    pub address: [u8; 4],
    pub port: u16,
    /// Certificate and key where the listener is encrypted.
    pub tls: Option<TlsConfig>,
    pub routes: RouteSet,
}

/// The address to bind: the configured host, or all interfaces.
pub open spec fn bind_address(host: Option<[u8; 4]>) -> [u8; 4] {
    match host {
        Some(a) => a,
        None => [0u8, 0u8, 0u8, 0u8],
    }
}

pub open spec fn tls_view(t: Option<TlsConfig>) -> Option<TlsView> {
    match t {
        Some(x) => Some(x@),
        None => None,
    }
}

fn bind_address_exec(host: Option<[u8; 4]>) -> (r: [u8; 4])
    ensures
        r == bind_address(host),
{
    match host {
        Some(a) => a,
        None => [0u8, 0u8, 0u8, 0u8],
    }
}

/// The plaintext listener of encrypted mode: it only redirects.
pub fn http_listener(ctx: &Context) -> (r: ListenerPlan)
    ensures
        r.address == bind_address(ctx.host),
        r.port == ctx.port,
        r.tls is None,
        r.routes == RouteSet::RedirectOnly,
{
    ListenerPlan { address: bind_address_exec(ctx.host), port: ctx.port, tls: None, routes: RouteSet::RedirectOnly }
}

/// The listener with the full route table: encrypted on the TLS port where
/// TLS is configured, else plaintext on the plain port.
pub fn main_listener(ctx: &Context) -> (r: ListenerPlan)
    ensures
        r.address == bind_address(ctx.host),
        r.routes == RouteSet::Full,
        tls_view(r.tls) == ctx@.tls,
        r.port == match ctx.tls {
            Some(t) => t.port,
            None => ctx.port,
        },
{
    match &ctx.tls {
        Some(t) => ListenerPlan {
            address: bind_address_exec(ctx.host),
            port: t.port,
            tls: Some(t.duplicate()),
            routes: RouteSet::Full,
        },
        None => ListenerPlan { address: bind_address_exec(ctx.host), port: ctx.port, tls: None, routes: RouteSet::Full },
    }
}

/// The listeners to start: with TLS, a redirecting plaintext listener and the
/// encrypted one; without, the full route table in plaintext alone.
pub fn launch_plan(ctx: &Context) -> (r: Vec<ListenerPlan>)
    ensures
        ctx.tls is Some ==> r@.len() == 2 && r@[0].routes == RouteSet::RedirectOnly && r@[0].port == ctx.port
            && r@[0].tls is None && r@[1].routes == RouteSet::Full && tls_view(r@[1].tls) == ctx@.tls,
        ctx.tls is None ==> r@.len() == 1 && r@[0].routes == RouteSet::Full && r@[0].port == ctx.port
            && r@[0].tls is None,
        forall|i: int| 0 <= i < r@.len() ==> #[trigger] r@[i].address == bind_address(ctx.host),
        forall|i: int| 0 <= i < r@.len() && r@[i].routes == RouteSet::Full
            ==> #[trigger] r@[i].port == match ctx.tls {
                Some(t) => t.port,
                None => ctx.port,
            },
{
    let mut r: Vec<ListenerPlan> = Vec::new();
    if ctx.tls.is_some() {
        r.push(http_listener(ctx));
    }
    r.push(main_listener(ctx));
    r
}

} // verus!
