//! Per-request configuration.
//!
//! An `Options` value is immutable once attached to a request. A request
//! carries at most one; absence implies the owning client's default. Options
//! attached to a request always take precedence, as a whole, over the
//! client's defaults: resolution happens once, before submission.

use vstd::prelude::*;

verus! {

/// How redirects reported by the transport are handled.
#[derive(Clone, Copy, Debug, PartialEq, Eq)]
pub enum RedirectPolicy {
    /// Do not follow redirects; the redirect response itself is returned.
    NoFollow,
    /// Follow every redirect, without limit.
    Follow,
    /// Follow at most this many redirects, then fail the request.
    Limit(u32),
}

/// The protocol version the transport is asked to prefer.
#[derive(Clone, Copy, Debug, PartialEq, Eq)]
pub enum HttpVersion {
    Http10,
    Http11,
    Http2,
}

/// Connection and protocol configuration for a request or a client.
///
/// Every field is independently optional; an unset field falls back to the
/// client's default, then to the transport engine's own default. Durations
/// are carried as whole milliseconds.
#[derive(Debug)]
pub struct Options {
    /// Total deadline for the whole request, in milliseconds.
    pub timeout_ms: Option<u64>,
    /// Deadline for establishing the connection, in milliseconds.
    pub connect_timeout_ms: Option<u64>,
    /// How redirects are handled.
    pub redirect_policy: RedirectPolicy,
    /// Preferred protocol version, if any.
    pub preferred_http_version: Option<HttpVersion>,
    /// Proxy to route the request through, as a URI.
    pub proxy: Option<String>,
    /// Whether the peer's TLS certificate is verified.
    pub tls_verify_peer: bool,
    /// Whether the peer's host name is checked against its certificate.
    pub tls_verify_host: bool,
}

/// The mathematical value of an `Options`: the proxy URI as a character
/// sequence, every other field as itself.
pub ghost struct OptionsV {
    pub timeout_ms: Option<u64>,
    pub connect_timeout_ms: Option<u64>,
    pub redirect_policy: RedirectPolicy,
    pub preferred_http_version: Option<HttpVersion>,
    pub proxy: Option<Seq<char>>,
    pub tls_verify_peer: bool,
    pub tls_verify_host: bool,
}

impl View for Options {
    type V = OptionsV;

    open spec fn view(&self) -> OptionsV {
        OptionsV {
            timeout_ms: self.timeout_ms,
            connect_timeout_ms: self.connect_timeout_ms,
            redirect_policy: self.redirect_policy,
            preferred_http_version: self.preferred_http_version,
            proxy: match self.proxy {
                Some(p) => Some(p@),
                None => None,
            },
            tls_verify_peer: self.tls_verify_peer,
            tls_verify_host: self.tls_verify_host,
        }
    }
}

impl Clone for Options {
    fn clone(&self) -> (r: Self)
        ensures
            r@ == self@,
    {
        Options {
            timeout_ms: self.timeout_ms,
            connect_timeout_ms: self.connect_timeout_ms,
            redirect_policy: self.redirect_policy,
            preferred_http_version: self.preferred_http_version,
            proxy: match &self.proxy {
                Some(p) => Some(p.clone()),
                None => None,
            },
            tls_verify_peer: self.tls_verify_peer,
            tls_verify_host: self.tls_verify_host,
        }
    }
}

impl Default for Options {
    /// The engine-default configuration: nothing overridden, redirects not
    /// followed, TLS verification on.
    fn default() -> (r: Self)
        ensures
            r@ == OptionsV::engine_default(),
    {
        Options {
            timeout_ms: None,
            connect_timeout_ms: None,
            redirect_policy: RedirectPolicy::NoFollow,
            preferred_http_version: None,
            proxy: None,
            tls_verify_peer: true,
            tls_verify_host: true,
        }
    }
}

impl OptionsV {
    /// The configuration `Options::default` returns.
    pub open spec fn engine_default() -> OptionsV {
        OptionsV {
            timeout_ms: None,
            connect_timeout_ms: None,
            redirect_policy: RedirectPolicy::NoFollow,
            preferred_http_version: None,
            proxy: None,
            tls_verify_peer: true,
            tls_verify_host: true,
        }
    }
}

impl Options {
    /// Replace the total timeout.
    pub fn with_timeout(self, timeout_ms: Option<u64>) -> (r: Self)
        ensures
            r@ == (OptionsV { timeout_ms, ..self@ }),
    {
        Options { timeout_ms, ..self }
    }

    /// Replace the connect timeout.
    pub fn with_connect_timeout(self, connect_timeout_ms: Option<u64>) -> (r: Self)
        ensures
            r@ == (OptionsV { connect_timeout_ms, ..self@ }),
    {
        Options { connect_timeout_ms, ..self }
    }

    /// Replace the redirect policy.
    pub fn with_redirect_policy(self, redirect_policy: RedirectPolicy) -> (r: Self)
        ensures
            r@ == (OptionsV { redirect_policy, ..self@ }),
    {
        Options { redirect_policy, ..self }
    }

    /// Replace the preferred protocol version.
    pub fn with_preferred_http_version(self, preferred_http_version: Option<HttpVersion>) -> (r: Self)
        ensures
            r@ == (OptionsV { preferred_http_version, ..self@ }),
    {
        Options { preferred_http_version, ..self }
    }

    /// Replace the proxy.
    pub fn with_proxy(self, proxy: Option<String>) -> (r: Self)
        ensures
            r@ == (OptionsV {
                proxy: match proxy {
                    Some(p) => Some(p@),
                    None => None,
                },
                ..self@
            }),
    {
        Options { proxy, ..self }
    }

    /// Replace the TLS peer-verification toggle.
    pub fn with_tls_verify_peer(self, tls_verify_peer: bool) -> (r: Self)
        ensures
            r@ == (OptionsV { tls_verify_peer, ..self@ }),
    {
        Options { tls_verify_peer, ..self }
    }

    /// Replace the TLS host-verification toggle.
    pub fn with_tls_verify_host(self, tls_verify_host: bool) -> (r: Self)
        ensures
            r@ == (OptionsV { tls_verify_host, ..self@ }),
    {
        Options { tls_verify_host, ..self }
    }
}

/// The options a request is submitted under: the instance attached to the
/// request if there is one, otherwise the client's default. Attached options
/// replace the defaults as a whole; fields are not merged.
pub open spec fn resolved_options(attached: Option<OptionsV>, default: OptionsV) -> OptionsV {
    match attached {
        Some(o) => o,
        None => default,
    }
}

/// The view of an optionally attached `Options`.
pub open spec fn attached_view(attached: Option<Options>) -> Option<OptionsV> {
    match attached {
        Some(o) => Some(o@),
        None => None,
    }
}

/// Resolve the options for a request about to be submitted: options attached
/// to the request take precedence, as a whole, over the client's defaults.
pub fn resolve_options(attached: Option<Options>, default: &Options) -> (r: Options)
    ensures
        r@ == resolved_options(attached_view(attached), default@),
{
    match attached {
        Some(o) => o,
        None => default.clone(),
    }
}

} // verus!
