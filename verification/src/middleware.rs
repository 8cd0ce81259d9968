//! The middleware pipeline: an ordered list of request/response filters
//! applied around submission, in a fixed onion order.
//!
//! With middleware registered first-to-last as `m0, m1, ..., mk`, the
//! request pass applies `mk` first and `m0` last, and the response pass
//! applies `m0` first and `mk` last: registration order and traversal order
//! are inverses between the two passes, so the last-registered middleware is
//! the outermost layer of the onion.

use vstd::prelude::*;
use crate::request::{Request, RequestV, Response, ResponseV};

verus! {

/// A request/response filter capability. Implementations describe what each
/// filter computes with the two spec functions, and the executable filters
/// are held to them.
pub trait Middleware: Sized {
    /// What `filter_request` computes, on request values.
    spec fn req_model(&self, r: RequestV) -> RequestV;

    /// What `filter_response` computes, on response values.
    spec fn resp_model(&self, r: ResponseV) -> ResponseV;

    /// Transform an outgoing request.
    fn filter_request(&self, r: Request) -> (s: Request)
        ensures
            s@ == self.req_model(r@),
    ;

    /// Transform an incoming response.
    fn filter_response(&self, r: Response) -> (s: Response)
        ensures
            s@ == self.resp_model(r@),
    ;
}

/// The request pass over a registration-ordered list of middleware: the
/// last-registered filter is applied first, the first-registered last, so
/// `request_chain([m0, .., mk], r) == m0(m1(.. mk(r) ..))`.
pub open spec fn request_chain<M: Middleware>(ms: Seq<M>, r: RequestV) -> RequestV
    decreases ms.len(),
{
    if ms.len() == 0 {
        r
    } else {
        ms.first().req_model(request_chain(ms.drop_first(), r))
    }
}

/// The response pass over a registration-ordered list of middleware: the
/// first-registered filter is applied first, the last-registered last, so
/// `response_chain([m0, .., mk], r) == mk(.. m1(m0(r)) ..)`.
pub open spec fn response_chain<M: Middleware>(ms: Seq<M>, r: ResponseV) -> ResponseV
    decreases ms.len(),
{
    if ms.len() == 0 {
        r
    } else {
        response_chain(ms.drop_first(), ms.first().resp_model(r))
    }
}

/// Registering one more middleware wraps it around the request pass as the
/// new outermost layer: it filters the request before every
/// earlier-registered middleware does.
pub proof fn lemma_register_last_request<M: Middleware>(ms: Seq<M>, m: M, r: RequestV)
    ensures
        request_chain(ms.push(m), r) == request_chain(ms, m.req_model(r)),
    decreases ms.len(),
{
    if ms.len() == 0 {
        assert(ms.push(m).drop_first() =~= ms);
        assert(ms.push(m).first() == m);
        assert(request_chain(ms.push(m), r) == m.req_model(request_chain(ms, r)));
        assert(request_chain(ms, r) == r);
        assert(request_chain(ms, m.req_model(r)) == m.req_model(r));
    } else {
        assert(ms.push(m).drop_first() =~= ms.drop_first().push(m));
        assert(ms.push(m).first() == ms.first());
        lemma_register_last_request(ms.drop_first(), m, r);
        assert(request_chain(ms.push(m), r)
            == ms.first().req_model(request_chain(ms.drop_first().push(m), r)));
        assert(request_chain(ms.drop_first().push(m), r)
            == request_chain(ms.drop_first(), m.req_model(r)));
        assert(request_chain(ms, m.req_model(r))
            == ms.first().req_model(request_chain(ms.drop_first(), m.req_model(r))));
    }
}

/// Registering one more middleware wraps it around the response pass as the
/// new outermost layer: it filters the response after every
/// earlier-registered middleware has; together with
/// `lemma_register_last_request` this is the onion order, the response-side
/// traversal being the exact reverse of the request-side traversal.
pub proof fn lemma_register_last_response<M: Middleware>(ms: Seq<M>, m: M, r: ResponseV)
    ensures
        response_chain(ms.push(m), r) == m.resp_model(response_chain(ms, r)),
    decreases ms.len(),
{
    if ms.len() == 0 {
        assert(ms.push(m).drop_first() =~= ms);
        assert(ms.push(m).first() == m);
        assert(response_chain(ms.push(m), r) == response_chain(ms, m.resp_model(r)));
        assert(response_chain(ms, m.resp_model(r)) == m.resp_model(r));
        assert(response_chain(ms, r) == r);
    } else {
        let r1 = ms.first().resp_model(r);
        assert(ms.push(m).drop_first() =~= ms.drop_first().push(m));
        assert(ms.push(m).first() == ms.first());
        lemma_register_last_response(ms.drop_first(), m, r1);
        assert(response_chain(ms.push(m), r)
            == response_chain(ms.drop_first().push(m), r1));
        assert(response_chain(ms.drop_first().push(m), r1)
            == m.resp_model(response_chain(ms.drop_first(), r1)));
        assert(response_chain(ms, r) == response_chain(ms.drop_first(), r1));
    }
}

/// Apply the request pass: every registered middleware's request filter, the
/// last-registered one first.
pub fn apply_request_filters<M: Middleware>(ms: &Vec<M>, r: Request) -> (s: Request)
    ensures
        s@ == request_chain(ms@, r@),
{
    let mut cur = r;
    let mut i = ms.len();
    while i > 0
        invariant
            i <= ms.len(),
            cur@ == request_chain(ms@.skip(i as int), r@),
        decreases i,
    {
        i = i - 1;
        cur = ms[i].filter_request(cur);
        proof {
            assert(ms@.skip(i as int).drop_first() =~= ms@.skip(i + 1));
            assert(ms@.skip(i as int).first() == ms@[i as int]);
        }
    }
    proof {
        assert(ms@.skip(0) =~= ms@);
    }
    cur
}

/// Apply the response pass: every registered middleware's response filter,
/// the first-registered one first.
pub fn apply_response_filters<M: Middleware>(ms: &Vec<M>, r: Response) -> (s: Response)
    ensures
        s@ == response_chain(ms@, r@),
{
    let mut cur = r;
    let mut i: usize = 0;
    while i < ms.len()
        invariant
            i <= ms.len(),
            cur@ == response_chain(ms@.take(i as int), r@),
        decreases ms.len() - i,
    {
        let ghost prefix = ms@.take(i as int);
        cur = ms[i].filter_response(cur);
        proof {
            assert(ms@.take(i + 1) =~= prefix.push(ms@[i as int]));
            lemma_register_last_response(prefix, ms@[i as int], r@);
        }
        i = i + 1;
    }
    proof {
        assert(ms@.take(ms@.len() as int) =~= ms@);
    }
    cur
}

/// A middleware that appends a distinguishable marker header to every
/// request and every response it filters; its traces make the pipeline's
/// traversal order observable.
#[derive(Debug)]
pub struct MarkerMiddleware {
    /// The header name the marker is appended under.
    pub name: String,
    /// The marker this layer writes.
    pub tag: String,
}

impl Middleware for MarkerMiddleware {
    open spec fn req_model(&self, r: RequestV) -> RequestV {
        RequestV { headers: r.headers.push((self.name@, self.tag@)), ..r }
    }

    open spec fn resp_model(&self, r: ResponseV) -> ResponseV {
        ResponseV { headers: r.headers.push((self.name@, self.tag@)), ..r }
    }

    fn filter_request(&self, r: Request) -> (s: Request) {
        r.with_header(self.name.clone(), self.tag.clone())
    }

    fn filter_response(&self, r: Response) -> (s: Response) {
        r.with_header(self.name.clone(), self.tag.clone())
    }
}

} // verus!
