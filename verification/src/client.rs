//! The client: a default configuration, an ordered middleware pipeline, and
//! its own agent.
//!
//! Submission runs the protocol of the design: give the request a default
//! user agent, run every request filter (last registered first), take the
//! options attached to the request — falling back to the client's defaults —
//! and hand the request to the agent's queue. On completion the originally
//! requested URI is stamped onto the response before any response filter
//! runs, then every response filter runs (first registered first).

use vstd::prelude::*;
use crate::agent::Agent;
use crate::error::Error;
use crate::middleware::{Middleware, apply_request_filters, apply_response_filters, request_chain, response_chain};
use crate::options::{Options, OptionsV, resolve_options, resolved_options};
use crate::request::{Request, RequestV, Response, ResponseV, with_default_header_v};

verus! {

/// The soft cap on concurrently live transport handles a client's agent
/// keeps, unless configured otherwise.
pub const DEFAULT_MAX_HANDLES: usize = 8;

/// The header name the default user agent is inserted under.
pub open spec fn user_agent_name() -> Seq<char> {
    "user-agent"@
}

/// A builder for clients with customized behavior: default options, a
/// middleware pipeline, a user agent, and the handle-pool cap.
pub struct ClientBuilder<M: Middleware> {
    /// The options a request without attached options is submitted under.
    pub default_options: Options,
    /// The middleware pipeline, in registration order.
    pub middleware: Vec<M>,
    /// The user agent given to requests that set none.
    pub user_agent: String,
    /// The soft cap on the agent's concurrently live handles.
    pub max_handles: usize,
}

impl<M: Middleware> ClientBuilder<M> {
    /// A builder with engine-default options, no middleware, and the
    /// default pool cap.
    pub fn new() -> (r: Self)
        ensures
            r.default_options@ == OptionsV::engine_default(),
            r.middleware@.len() == 0,
            r.user_agent@ == "chttp"@,
            r.max_handles == DEFAULT_MAX_HANDLES,
    {
        ClientBuilder {
            default_options: Options::default(),
            middleware: Vec::new(),
            user_agent: "chttp".to_owned(),
            max_handles: DEFAULT_MAX_HANDLES,
        }
    }

    /// Set the default options to use for each request. A request's own
    /// attached options override these.
    pub fn options(self, options: Options) -> (r: Self)
        ensures
            r.default_options == options,
            r.middleware@ == self.middleware@,
            r.user_agent == self.user_agent,
            r.max_handles == self.max_handles,
    {
        ClientBuilder { default_options: options, ..self }
    }

    /// Register a middleware layer. A later-registered layer is the more
    /// outer one: it sees requests earlier and responses later than every
    /// layer registered before it.
    pub fn with_middleware(self, middleware: M) -> (r: Self)
        ensures
            r.middleware@ == self.middleware@.push(middleware),
            r.default_options == self.default_options,
            r.user_agent == self.user_agent,
            r.max_handles == self.max_handles,
    {
        let mut mw = self.middleware;
        mw.push(middleware);
        ClientBuilder { middleware: mw, ..self }
    }

    /// Set the user agent given to requests that set none.
    pub fn user_agent(self, user_agent: String) -> (r: Self)
        ensures
            r.user_agent == user_agent,
            r.default_options == self.default_options,
            r.middleware@ == self.middleware@,
            r.max_handles == self.max_handles,
    {
        ClientBuilder { user_agent, ..self }
    }

    /// Build the client. Construction of the decision core itself always
    /// succeeds; the fallible part — starting the engine's thread and its
    /// event-loop resources — lives with the caller, which reports its
    /// failure as `Error::Init`.
    pub fn build(self) -> (r: Result<Client<M>, Error>)
        requires
            self.max_handles >= 1,
        ensures
            r matches Ok(c) ==> {
                &&& c.wf()
                &&& c.default_options == self.default_options
                &&& c.middleware@ == self.middleware@
                &&& c.user_agent == self.user_agent
                &&& c.agent.requests@.len() == 0
                &&& c.agent.queue@.len() == 0
                &&& c.agent.handles@.len() == 0
                &&& c.agent.max_handles == self.max_handles
                &&& c.agent.accepting
            },
            r is Ok,
    {
        Ok(Client {
            default_options: self.default_options,
            middleware: self.middleware,
            user_agent: self.user_agent,
            agent: Agent::new(self.max_handles),
        })
    }
}

/// An HTTP client: default options, the middleware pipeline, the default
/// user agent, and its own agent. Every client owns an independent agent —
/// two clients share no state, so one client's request load cannot reach
/// another's requests.
pub struct Client<M: Middleware> {
    /// The options a request without attached options is submitted under.
    pub default_options: Options,
    /// The middleware pipeline, in registration order.
    pub middleware: Vec<M>,
    /// The user agent given to requests that set none.
    pub user_agent: String,
    /// The client's own background execution engine state.
    pub agent: Agent,
}

/// The request value the agent is asked to execute for a submitted request:
/// the default user agent applied, then every request filter, last
/// registered first.
pub open spec fn prepared_request<M: Middleware>(
    ms: Seq<M>,
    user_agent: Seq<char>,
    r: RequestV,
) -> RequestV {
    request_chain(ms, with_default_header_v(r, user_agent_name(), user_agent))
}

impl<M: Middleware> Client<M> {
    /// A client is well formed when its agent is.
    pub open spec fn wf(self) -> bool {
        self.agent.wf()
    }

    /// A client with the default configuration.
    pub fn new() -> (r: Result<Client<M>, Error>)
        ensures
            r matches Ok(c) ==> c.wf() && c.agent.requests@.len() == 0
                && c.middleware@.len() == 0
                && c.default_options@ == OptionsV::engine_default()
                && c.agent.accepting,
            r is Ok,
    {
        ClientBuilder::new().build()
    }

    /// A builder for a client with customized behavior.
    pub fn builder() -> (r: ClientBuilder<M>)
        ensures
            r.default_options@ == OptionsV::engine_default(),
            r.middleware@.len() == 0,
            r.user_agent@ == "chttp"@,
            r.max_handles == DEFAULT_MAX_HANDLES,
    {
        ClientBuilder::new()
    }

    /// Run the submission protocol for one request: insert the default user
    /// agent unless the request carries one, apply the request filters in
    /// onion order, resolve the options — the request's own attached options
    /// take precedence, as a whole, over the client's defaults — and hand
    /// the result to the agent's queue. Returns the request's id, by which
    /// its future completion, failure or cancellation is reported.
    pub fn submit(&mut self, request: Request) -> (id: usize)
        requires
            old(self).wf(),
            old(self).agent.accepting,
            old(self).agent.requests@.len() < usize::MAX,
        ensures
            final(self).wf(),
            final(self).default_options == old(self).default_options,
            final(self).middleware@ == old(self).middleware@,
            final(self).user_agent == old(self).user_agent,
            id == old(self).agent.requests@.len(),
            final(self).agent.requests@.len() == id + 1,
            forall|j: int| 0 <= j < id
                ==> final(self).agent.requests@[j] == old(self).agent.requests@[j],
            final(self).agent.requests@[id as int].state is Queued,
            final(self).agent.requests@[id as int].outcome is None,
            final(self).agent.requests@[id as int].redirects == 0,
            // the resolved URI stamped onto the response later is the
            // originally requested one, untouched by middleware
            final(self).agent.requests@[id as int].uri@ == request@.uri,
            // the agent owns the outgoing request exactly as it left the
            // middleware pipeline
            final(self).agent.requests@[id as int].request@ == prepared_request(
                old(self).middleware@,
                old(self).user_agent@,
                request@,
            ),
            // the transfer is parameterized by the filtered request's
            // attached options, the client's defaults standing in if absent
            final(self).agent.requests@[id as int].options@ == resolved_options(
                prepared_request(
                    old(self).middleware@,
                    old(self).user_agent@,
                    request@,
                ).options,
                old(self).default_options@,
            ),
            final(self).agent.queue@ == old(self).agent.queue@.push(id),
            final(self).agent.handles@ == old(self).agent.handles@,
            final(self).agent.live == old(self).agent.live,
            final(self).agent.max_handles == old(self).agent.max_handles,
            final(self).agent.accepting,
    {
        let uri = request.uri.clone();
        let prepared = request.with_default_header(
            "user-agent".to_owned(),
            self.user_agent.clone(),
        );
        let filtered = apply_request_filters(&self.middleware, prepared);
        let attached = match &filtered.options {
            Some(o) => Some(o.clone()),
            None => None,
        };
        let options = resolve_options(attached, &self.default_options);
        self.agent.submit(uri, filtered, options)
    }

    /// Finish a completed request's response before it is handed back:
    /// stamp the originally requested URI onto it — middleware, a cookie
    /// store say, correlates response to request by it — then apply the
    /// response filters in onion order.
    pub fn finish(&self, uri: String, response: Response) -> (r: Response)
        ensures
            r@ == response_chain(
                self.middleware@,
                ResponseV { request_uri: Some(uri@), ..response@ },
            ),
    {
        let stamped = response.with_request_uri(uri);
        apply_response_filters(&self.middleware, stamped)
    }
}

/// Options attached to a request always take precedence, as a whole, over
/// the client's defaults, and the defaults stand exactly when none are
/// attached.
pub proof fn lemma_options_precedence(attached: OptionsV, default: OptionsV)
    ensures
        resolved_options(Some(attached), default) == attached,
        resolved_options(None, default) == default,
{
}

} // verus!
