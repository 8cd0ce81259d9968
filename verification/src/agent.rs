//! The background execution engine's state: a pool of single-request
//! transport handles, a FIFO queue of submitted work waiting for a handle,
//! and the per-request lifecycle the engine drives.
//!
//! One dedicated worker owns an `Agent` value for the life of a client and
//! is its sole mutator: each loop iteration drains the submission queue by
//! binding queued work to handles (`bind_next`), then reports transport
//! events (`connected`, `complete`, `fail`, `timeout`, `redirect`) and
//! caller disinterest (`future_dropped`, `shutdown`) through the methods
//! here, which decide every state change. The I/O itself — what the
//! transport did — happens outside and is handed in as events.

use vstd::prelude::*;
use crate::error::Error;
use crate::options::{Options, RedirectPolicy};
use crate::request::{Request, Response};

verus! {

/// One native transport handle of the pool.
///
/// A handle executes exactly one request at a time and is never shared: it
/// is idle, or bound to exactly one in-flight request, or retired because
/// the transport signalled it unusable (a retired handle is never reused; a
/// fresh one is created lazily on next demand).
#[derive(Clone, Copy, Debug, PartialEq, Eq)]
pub enum HandleState {
    /// In the pool, available for the next queued request.
    Idle,
    /// Bound to the in-flight request with this index.
    Busy { req: usize },
    /// Discarded after a transport failure; never returned to the pool.
    Retired,
}

/// The lifecycle of one submitted request, as the agent sees it.
///
/// `Queued → Bound → Connecting → Transferring` and from any of the three
/// bound states to exactly one of the four terminal states, which are final.
#[derive(Clone, Copy, Debug, PartialEq, Eq)]
pub enum RequestState {
    /// Submitted, waiting for a transport handle.
    Queued,
    /// Assigned to a handle; the transfer has not started yet.
    Bound { handle: usize },
    /// The handle is establishing the connection.
    Connecting { handle: usize },
    /// Headers and body are moving.
    Transferring { handle: usize },
    /// Resolved with a response.
    Completed,
    /// Resolved with a transport or policy error.
    Failed,
    /// Resolved with a timeout error.
    TimedOut,
    /// Resolved after the caller dropped the request's future.
    Cancelled,
}

/// The unit of in-flight work the agent owns for one submitted request.
#[derive(Debug)]
pub struct Entry {
    /// The originally requested URI, stamped onto the response on completion.
    pub uri: String,
    /// The outgoing request, as it left the middleware pipeline.
    pub request: Request,
    /// The resolved options the transfer is parameterized with.
    pub options: Options,
    /// How many redirects have been followed for this request.
    pub redirects: u32,
    /// Where the request stands in its lifecycle.
    pub state: RequestState,
    /// The completion sink: `None` while unresolved, then exactly once
    /// `Some` with the settled result, never changed again.
    pub outcome: Option<Result<Response, Error>>,
}

/// Whether a request state is terminal. Terminal states are final and are
/// entered together with the one resolution of the completion sink.
pub open spec fn is_terminal(s: RequestState) -> bool {
    ||| s is Completed
    ||| s is Failed
    ||| s is TimedOut
    ||| s is Cancelled
}

/// The handle a request is bound to, if it is bound to one.
pub open spec fn bound_handle(s: RequestState) -> Option<int> {
    match s {
        RequestState::Bound { handle } => Some(handle as int),
        RequestState::Connecting { handle } => Some(handle as int),
        RequestState::Transferring { handle } => Some(handle as int),
        _ => None,
    }
}

/// Whether the redirect policy admits following one more redirect for a
/// request that has already followed `followed` of them: never under
/// `NoFollow` (the redirect response itself is returned), always under
/// `Follow`, and under `Limit(n)` exactly while fewer than `n` have been
/// followed — so a chain of `k` redirects is followed to its end under
/// `Limit(n)` if and only if `k <= n`.
pub open spec fn redirect_allowed(policy: RedirectPolicy, followed: u32) -> bool {
    match policy {
        RedirectPolicy::NoFollow => false,
        RedirectPolicy::Follow => true,
        RedirectPolicy::Limit(n) => followed < n,
    }
}

/// How many handles of the pool are live, that is not retired.
pub open spec fn live_count(hs: Seq<HandleState>) -> nat
    decreases hs.len(),
{
    if hs.len() == 0 {
        0
    } else {
        live_count(hs.drop_last()) + (if hs.last() is Retired { 0nat } else { 1nat })
    }
}

/// Appending a handle grows the live count by one unless it is retired.
pub proof fn lemma_live_count_push(hs: Seq<HandleState>, h: HandleState)
    ensures
        live_count(hs.push(h)) == live_count(hs) + (if h is Retired { 0nat } else { 1nat }),
{
    assert(hs.push(h).drop_last() =~= hs);
    assert(hs.push(h).last() == h);
}

/// Replacing one handle changes the live count by the difference the two
/// handle states make.
pub proof fn lemma_live_count_update(hs: Seq<HandleState>, i: int, h: HandleState)
    requires
        0 <= i < hs.len(),
    ensures
        live_count(hs.update(i, h)) + (if hs[i] is Retired { 0nat } else { 1nat })
            == live_count(hs) + (if h is Retired { 0nat } else { 1nat }),
    decreases hs.len(),
{
    if i == hs.len() - 1 {
        assert(hs.update(i, h).drop_last() =~= hs.drop_last());
        assert(hs.update(i, h).last() == h);
    } else {
        assert(hs.update(i, h).drop_last() =~= hs.drop_last().update(i, h));
        assert(hs.update(i, h).last() == hs.last());
        lemma_live_count_update(hs.drop_last(), i, h);
    }
}

/// The lowest-numbered idle handle of the pool, if any handle is idle.
fn find_idle(handles: &Vec<HandleState>) -> (r: Option<usize>)
    ensures
        r is None ==> forall|k: int| 0 <= k < handles@.len() ==> !(handles@[k] is Idle),
        r matches Some(h) ==> h < handles@.len()
            && handles@[h as int] is Idle
            && forall|k: int| 0 <= k < h ==> !(handles@[k] is Idle),
{
    let mut g: usize = 0;
    while g < handles.len()
        invariant
            g <= handles@.len(),
            forall|k: int| 0 <= k < g ==> !(handles@[k] is Idle),
        decreases handles@.len() - g,
    {
        if matches!(handles[g], HandleState::Idle) {
            return Some(g);
        }
        g += 1;
    }
    None
}

/// The position of a request in the waiting queue, if it waits there.
fn find_in_queue(queue: &Vec<usize>, id: usize) -> (r: Option<usize>)
    ensures
        r is None ==> !queue@.contains(id),
        r matches Some(w) ==> w < queue@.len() && queue@[w as int] == id,
{
    let mut w: usize = 0;
    while w < queue.len()
        invariant
            w <= queue@.len(),
            forall|k: int| 0 <= k < w ==> queue@[k] != id,
        decreases queue@.len() - w,
    {
        if queue[w] == id {
            return Some(w);
        }
        w += 1;
    }
    None
}

/// The background execution engine's whole state.
///
/// Requests are kept for the agent's life and addressed by their submission
/// index; a finished request stays as its terminal record, so the history of
/// every completion sink is part of the state.
#[derive(Debug)]
pub struct Agent {
    /// The transport handle pool; a handle is addressed by its index.
    pub handles: Vec<HandleState>,
    /// How many handles of the pool are live (idle or busy).
    pub live: usize,
    /// The soft cap on concurrently live handles; at least one.
    pub max_handles: usize,
    /// Submission order of the requests waiting for a handle, oldest first.
    pub queue: Vec<usize>,
    /// Every request ever submitted, by submission index.
    pub requests: Vec<Entry>,
    /// Whether new submissions are accepted; false after shutdown.
    pub accepting: bool,
}

impl Agent {
    /// A request record is consistent with the pool: a bound request's
    /// handle exists and is busy with exactly this request, a queued request
    /// waits in the queue, and the completion sink is resolved exactly for
    /// the terminal states.
    pub open spec fn req_ok(self, i: int) -> bool {
        let e = self.requests@[i];
        &&& match bound_handle(e.state) {
            Some(h) => 0 <= h < self.handles@.len()
                && self.handles@[h] == (HandleState::Busy { req: i as usize }),
            None => true,
        }
        &&& (e.state is Queued ==> self.queue@.contains(i as usize))
        &&& (e.outcome is Some <==> is_terminal(e.state))
    }

    /// A pool slot is consistent with the requests: a busy handle's request
    /// exists and is bound to exactly this handle.
    pub open spec fn handle_ok(self, h: int) -> bool {
        match self.handles@[h] {
            HandleState::Busy { req } => req < self.requests@.len()
                && bound_handle(self.requests@[req as int].state) == Some(h),
            _ => true,
        }
    }

    /// Well-formedness: the invariant every agent operation preserves.
    ///
    /// It carries the two resource guarantees of the design: a transport
    /// handle is bound to at most one in-flight request and vice versa (the
    /// two consistency conditions form a bijection), and a completion sink
    /// is resolved exactly once, the resolution standing if and only if the
    /// request is terminal.
    pub open spec fn wf(self) -> bool {
        &&& self.max_handles >= 1
        &&& self.live == live_count(self.handles@)
        &&& self.live <= self.max_handles
        &&& forall|i: int| 0 <= i < self.requests@.len() ==> #[trigger] self.req_ok(i)
        &&& forall|h: int| 0 <= h < self.handles@.len() ==> #[trigger] self.handle_ok(h)
        &&& forall|q: int| 0 <= q < self.queue@.len()
            ==> #[trigger] self.queue@[q] < self.requests@.len()
                && self.requests@[self.queue@[q] as int].state is Queued
        &&& forall|q1: int, q2: int| 0 <= q1 < q2 < self.queue@.len()
            ==> self.queue@[q1] != self.queue@[q2]
    }

    /// A fresh agent: an empty pool, an empty queue, no requests yet,
    /// accepting work. Each client creates its own agent; two agents share
    /// nothing, so one client's load cannot reach another's requests.
    pub fn new(max_handles: usize) -> (r: Agent)
        requires
            max_handles >= 1,
        ensures
            r.wf(),
            r.handles@.len() == 0,
            r.live == 0,
            r.queue@.len() == 0,
            r.requests@.len() == 0,
            r.max_handles == max_handles,
            r.accepting,
    {
        Agent {
            handles: Vec::new(),
            live: 0,
            max_handles,
            queue: Vec::new(),
            requests: Vec::new(),
            accepting: true,
        }
    }

    /// Accept a newly submitted request: record it and put it at the back
    /// of the FIFO queue. Nothing else changes; in particular no other
    /// request's record moves. Submission never blocks on transport work.
    pub fn submit(&mut self, uri: String, request: Request, options: Options) -> (id: usize)
        requires
            old(self).wf(),
            old(self).accepting,
            old(self).requests@.len() < usize::MAX,
        ensures
            final(self).wf(),
            id == old(self).requests@.len(),
            final(self).requests@.len() == old(self).requests@.len() + 1,
            forall|j: int| 0 <= j < old(self).requests@.len()
                ==> final(self).requests@[j] == old(self).requests@[j],
            final(self).requests@[id as int].uri == uri,
            final(self).requests@[id as int].request == request,
            final(self).requests@[id as int].options == options,
            final(self).requests@[id as int].redirects == 0,
            final(self).requests@[id as int].state is Queued,
            final(self).requests@[id as int].outcome is None,
            final(self).queue@ == old(self).queue@.push(id),
            final(self).handles@ == old(self).handles@,
            final(self).live == old(self).live,
            final(self).max_handles == old(self).max_handles,
            final(self).accepting,
    {
        let id = self.requests.len();
        let entry = Entry {
            uri,
            request,
            options,
            redirects: 0,
            state: RequestState::Queued,
            outcome: None,
        };
        self.requests.push(entry);
        self.queue.push(id);
        proof {
            let ghost pre = *old(self);
            assert forall|i: int| 0 <= i < self.requests@.len() implies #[trigger] self.req_ok(i) by {
                if i < id {
                    assert(pre.req_ok(i));
                    if pre.requests@[i].state is Queued {
                        let w = choose|w: int| 0 <= w < pre.queue@.len() && pre.queue@[w] == i as usize;
                        assert(self.queue@[w] == i as usize);
                    }
                } else {
                    assert(self.queue@[pre.queue@.len() as int] == id);
                }
            }
            assert forall|h: int| 0 <= h < self.handles@.len() implies #[trigger] self.handle_ok(h) by {
                assert(pre.handle_ok(h));
            }
            assert forall|q: int| 0 <= q < self.queue@.len()
                implies #[trigger] self.queue@[q] < self.requests@.len()
                    && self.requests@[self.queue@[q] as int].state is Queued by {
                if q < pre.queue@.len() {
                    assert(pre.queue@[q] == self.queue@[q]);
                }
            }
        }
        id
    }

    /// One drain step of the loop's first stage: bind the oldest queued
    /// request to a transport handle, preferring the lowest-numbered idle
    /// handle and growing the pool only when no handle is idle and the pool
    /// is under its cap. Returns the request and the handle it was bound
    /// to, or `None` — and then nothing changed — when there is no queued
    /// work, or no handle is idle and the pool is at its cap (the request
    /// keeps waiting, FIFO, until a handle frees).
    pub fn bind_next(&mut self) -> (r: Option<(usize, usize)>)
        requires
            old(self).wf(),
        ensures
            final(self).wf(),
            r is None ==> *final(self) == *old(self),
            r is None ==> old(self).queue@.len() == 0
                || (old(self).live == old(self).max_handles
                    && forall|g: int| 0 <= g < old(self).handles@.len()
                        ==> !(old(self).handles@[g] is Idle)),
            r matches Some((id, h)) ==> {
                &&& old(self).queue@.len() > 0
                &&& id == old(self).queue@[0]
                &&& final(self).queue@ == old(self).queue@.drop_first()
                &&& h <= old(self).handles@.len()
                &&& h < final(self).handles@.len()
                &&& final(self).handles@[h as int] == (HandleState::Busy { req: id })
                &&& forall|g: int| 0 <= g < h ==> !(old(self).handles@[g] is Idle)
                &&& (h < old(self).handles@.len()
                    ==> old(self).handles@[h as int] is Idle
                        && final(self).handles@ == old(self).handles@.update(h as int, HandleState::Busy { req: id })
                        && final(self).live == old(self).live)
                &&& (h == old(self).handles@.len()
                    ==> old(self).live < old(self).max_handles
                        && final(self).handles@ == old(self).handles@.push(HandleState::Busy { req: id })
                        && final(self).live == old(self).live + 1)
                &&& final(self).requests@ == old(self).requests@.update(
                    id as int,
                    Entry { state: RequestState::Bound { handle: h }, ..old(self).requests@[id as int] },
                )
                &&& final(self).max_handles == old(self).max_handles
                &&& final(self).accepting == old(self).accepting
            },
    {
        if self.queue.len() == 0 {
            return None;
        }
        let ghost pre = *old(self);
        let n_requests = self.requests.len();
        assert(pre.requests@.len() == n_requests);
        let id = self.queue[0];
        assert(pre.req_ok(id as int));
        let idle = find_idle(&self.handles);
        let h: usize;
        match idle {
            Some(found) => {
                h = found;
                self.handles[h] = HandleState::Busy { req: id };
                proof {
                    lemma_live_count_update(pre.handles@, h as int, HandleState::Busy { req: id });
                }
            },
            None => {
                if self.live == self.max_handles {
                    return None;
                }
                h = self.handles.len();
                self.handles.push(HandleState::Busy { req: id });
                self.live = self.live + 1;
                proof {
                    lemma_live_count_push(pre.handles@, HandleState::Busy { req: id });
                }
            },
        }
        let state = RequestState::Bound { handle: h };
        self.requests[id].state = state;
        self.queue.remove(0);
        proof {
            assert(self.queue@ =~= pre.queue@.drop_first());
            assert(self.requests@ =~= pre.requests@.update(
                id as int,
                Entry { state, ..pre.requests@[id as int] },
            ));
            self.lemma_wf_after_bind(pre, id, h);
        }
        Some((id, h))
    }

    /// Re-establish well-formedness after `bind_next` bound the queue's
    /// front request `id` to handle `h`.
    proof fn lemma_wf_after_bind(self, pre: Agent, id: usize, h: usize)
        requires
            pre.wf(),
            pre.requests@.len() <= usize::MAX,
            pre.queue@.len() > 0,
            id == pre.queue@[0],
            h < self.handles@.len(),
            self.queue@ == pre.queue@.drop_first(),
            self.requests@ == pre.requests@.update(
                id as int,
                Entry { state: RequestState::Bound { handle: h }, ..pre.requests@[id as int] },
            ),
            self.handles@[h as int] == (HandleState::Busy { req: id }),
            h < pre.handles@.len() ==> pre.handles@[h as int] is Idle
                && self.handles@ == pre.handles@.update(h as int, HandleState::Busy { req: id }),
            h >= pre.handles@.len() ==> h == pre.handles@.len()
                && self.handles@ == pre.handles@.push(HandleState::Busy { req: id }),
            self.live == live_count(self.handles@),
            self.live <= self.max_handles,
            self.max_handles == pre.max_handles,
        ensures
            self.wf(),
    {
        assert(pre.req_ok(id as int));
        assert(pre.requests@[id as int].state is Queued);
        assert forall|i: int| 0 <= i < self.requests@.len() implies #[trigger] self.req_ok(i) by {
            assert(pre.req_ok(i));
            if i == id {
                assert(self.requests@[i].state == (RequestState::Bound { handle: h }));
            } else {
                let e = pre.requests@[i];
                assert(self.requests@[i] == e);
                match bound_handle(e.state) {
                    Some(bh) => {
                        assert(pre.handles@[bh] == (HandleState::Busy { req: i as usize }));
                        assert(bh != h);
                        assert(self.handles@[bh] == pre.handles@[bh]);
                    },
                    None => {
                        if e.state is Queued {
                            let w = choose|w: int| 0 <= w < pre.queue@.len() && pre.queue@[w] == i as usize;
                            assert(i as usize != id);
                            assert(w != 0);
                            assert(self.queue@[w - 1] == i as usize);
                            assert(self.queue@.contains(i as usize));
                        }
                    },
                }
            }
        }
        assert forall|g: int| 0 <= g < self.handles@.len() implies #[trigger] self.handle_ok(g) by {
            if g == h {
                assert(self.requests@[id as int].state == (RequestState::Bound { handle: h }));
            } else {
                assert(pre.handle_ok(g));
                match pre.handles@[g] {
                    HandleState::Busy { req } => {
                        assert(pre.req_ok(req as int));
                        assert(req != id);
                        assert(self.requests@[req as int] == pre.requests@[req as int]);
                    },
                    _ => {},
                }
            }
        }
        assert forall|q: int| 0 <= q < self.queue@.len()
            implies #[trigger] self.queue@[q] < self.requests@.len()
                && self.requests@[self.queue@[q] as int].state is Queued by {
            assert(self.queue@[q] == pre.queue@[q + 1]);
            assert(pre.queue@[q + 1] != pre.queue@[0]);
        }
        assert forall|q1: int, q2: int| 0 <= q1 < q2 < self.queue@.len()
            implies self.queue@[q1] != self.queue@[q2] by {
            assert(self.queue@[q1] == pre.queue@[q1 + 1]);
            assert(self.queue@[q2] == pre.queue@[q2 + 1]);
        }
    }

    /// The request a busy pool slot is bound to.
    pub open spec fn busy_req(self, h: int) -> usize
        recommends
            0 <= h < self.handles@.len(),
            self.handles@[h] is Busy,
    {
        self.handles@[h]->req
    }

    /// Re-establish well-formedness after an in-flight request advanced
    /// without resolving: only its record changed, it stayed bound to the
    /// same handle, and its sink stayed untouched.
    proof fn lemma_wf_after_advance(self, pre: Agent, id: usize)
        requires
            pre.wf(),
            pre.requests@.len() <= usize::MAX,
            id < pre.requests@.len(),
            self.requests@ == pre.requests@.update(id as int, self.requests@[id as int]),
            bound_handle(self.requests@[id as int].state)
                == bound_handle(pre.requests@[id as int].state),
            bound_handle(pre.requests@[id as int].state) is Some,
            !(self.requests@[id as int].state is Queued),
            self.requests@[id as int].outcome == pre.requests@[id as int].outcome,
            !is_terminal(self.requests@[id as int].state),
            self.handles@ == pre.handles@,
            self.queue@ == pre.queue@,
            self.live == pre.live,
            self.max_handles == pre.max_handles,
        ensures
            self.wf(),
    {
        assert(pre.req_ok(id as int));
        assert(!is_terminal(pre.requests@[id as int].state));
        assert forall|i: int| 0 <= i < self.requests@.len() implies #[trigger] self.req_ok(i) by {
            assert(pre.req_ok(i));
            if i != id && pre.requests@[i].state is Queued {
                assert(self.requests@[i] == pre.requests@[i]);
            }
        }
        assert forall|g: int| 0 <= g < self.handles@.len() implies #[trigger] self.handle_ok(g) by {
            assert(pre.handle_ok(g));
            match pre.handles@[g] {
                HandleState::Busy { req } => {
                    if req == id {
                        assert(bound_handle(pre.requests@[req as int].state) == Some(g));
                    } else {
                        assert(self.requests@[req as int] == pre.requests@[req as int]);
                    }
                },
                _ => {},
            }
        }
        assert forall|q: int| 0 <= q < self.queue@.len()
            implies #[trigger] self.queue@[q] < self.requests@.len()
                && self.requests@[self.queue@[q] as int].state is Queued by {
            assert(pre.requests@[pre.queue@[q] as int].state is Queued);
            assert(pre.queue@[q] != id);
        }
    }

    /// Re-establish well-formedness after the request bound to handle `h`
    /// resolved: its record became terminal with its sink filled, and the
    /// handle left the busy state (back to idle, or retired).
    proof fn lemma_wf_after_resolve(self, pre: Agent, id: usize, h: usize)
        requires
            pre.wf(),
            pre.requests@.len() <= usize::MAX,
            id < pre.requests@.len(),
            h < pre.handles@.len(),
            pre.handles@[h as int] == (HandleState::Busy { req: id }),
            bound_handle(pre.requests@[id as int].state) == Some(h as int),
            self.requests@ == pre.requests@.update(id as int, self.requests@[id as int]),
            is_terminal(self.requests@[id as int].state),
            self.requests@[id as int].outcome is Some,
            self.handles@ == pre.handles@.update(h as int, self.handles@[h as int]),
            !(self.handles@[h as int] is Busy),
            self.queue@ == pre.queue@,
            self.live == live_count(self.handles@),
            self.live <= self.max_handles,
            self.max_handles == pre.max_handles,
        ensures
            self.wf(),
    {
        assert(pre.req_ok(id as int));
        assert forall|i: int| 0 <= i < self.requests@.len() implies #[trigger] self.req_ok(i) by {
            assert(pre.req_ok(i));
            if i != id {
                assert(self.requests@[i] == pre.requests@[i]);
                match bound_handle(pre.requests@[i].state) {
                    Some(bh) => {
                        assert(pre.handles@[bh] == (HandleState::Busy { req: i as usize }));
                        assert(i as usize != id);
                        assert(bh != h);
                        assert(self.handles@[bh] == pre.handles@[bh]);
                    },
                    None => {},
                }
            }
        }
        assert forall|g: int| 0 <= g < self.handles@.len() implies #[trigger] self.handle_ok(g) by {
            assert(pre.handle_ok(g));
            if g != h {
                match pre.handles@[g] {
                    HandleState::Busy { req } => {
                        assert(bound_handle(pre.requests@[req as int].state) == Some(g));
                        assert(req != id);
                        assert(self.requests@[req as int] == pre.requests@[req as int]);
                    },
                    _ => {},
                }
            }
        }
        assert forall|q: int| 0 <= q < self.queue@.len()
            implies #[trigger] self.queue@[q] < self.requests@.len()
                && self.requests@[self.queue@[q] as int].state is Queued by {
            assert(pre.requests@[pre.queue@[q] as int].state is Queued);
            assert(pre.queue@[q] != id);
        }
    }

    /// Begin the transfer for the request `id`, which must be freshly bound:
    /// the worker has parameterized its handle from the request's resolved
    /// options and starts connecting.
    pub fn start(&mut self, id: usize)
        requires
            old(self).wf(),
            id < old(self).requests@.len(),
            old(self).requests@[id as int].state is Bound,
        ensures
            final(self).wf(),
            final(self).requests@ == old(self).requests@.update(
                id as int,
                Entry {
                    state: RequestState::Connecting {
                        handle: old(self).requests@[id as int].state->Bound_handle,
                    },
                    ..old(self).requests@[id as int]
                },
            ),
            final(self).handles@ == old(self).handles@,
            final(self).queue@ == old(self).queue@,
            final(self).live == old(self).live,
            final(self).max_handles == old(self).max_handles,
            final(self).accepting == old(self).accepting,
    {
        let ghost pre = *old(self);
        let n_requests = self.requests.len();
        assert(pre.requests@.len() == n_requests);
        let h = match self.requests[id].state {
            RequestState::Bound { handle } => handle,
            _ => 0,
        };
        self.requests[id].state = RequestState::Connecting { handle: h };
        proof {
            assert(self.requests@ =~= pre.requests@.update(
                id as int,
                Entry { state: RequestState::Connecting { handle: h }, ..pre.requests@[id as int] },
            ));
            self.lemma_wf_after_advance(pre, id);
        }
    }

    /// The transport reported that request `id`'s connection is established:
    /// headers and body start moving.
    pub fn connected(&mut self, id: usize)
        requires
            old(self).wf(),
            id < old(self).requests@.len(),
            old(self).requests@[id as int].state is Connecting,
        ensures
            final(self).wf(),
            final(self).requests@ == old(self).requests@.update(
                id as int,
                Entry {
                    state: RequestState::Transferring {
                        handle: old(self).requests@[id as int].state->Connecting_handle,
                    },
                    ..old(self).requests@[id as int]
                },
            ),
            final(self).handles@ == old(self).handles@,
            final(self).queue@ == old(self).queue@,
            final(self).live == old(self).live,
            final(self).max_handles == old(self).max_handles,
            final(self).accepting == old(self).accepting,
    {
        let ghost pre = *old(self);
        let n_requests = self.requests.len();
        assert(pre.requests@.len() == n_requests);
        let h = match self.requests[id].state {
            RequestState::Connecting { handle } => handle,
            _ => 0,
        };
        self.requests[id].state = RequestState::Transferring { handle: h };
        proof {
            assert(self.requests@ =~= pre.requests@.update(
                id as int,
                Entry { state: RequestState::Transferring { handle: h }, ..pre.requests@[id as int] },
            ));
            self.lemma_wf_after_advance(pre, id);
        }
    }

    /// The transport finished request `id`'s transfer: resolve its
    /// completion sink, exactly once, with the response, and release the
    /// handle back to the idle pool, where it is immediately available for
    /// the next request. No other request's record moves: one request's
    /// completion never delays or fails another.
    pub fn complete(&mut self, id: usize, response: Response)
        requires
            old(self).wf(),
            id < old(self).requests@.len(),
            old(self).requests@[id as int].state is Transferring,
        ensures
            final(self).wf(),
            final(self).requests@ == old(self).requests@.update(
                id as int,
                Entry {
                    state: RequestState::Completed,
                    outcome: Some(Ok(response)),
                    ..old(self).requests@[id as int]
                },
            ),
            final(self).handles@ == old(self).handles@.update(
                old(self).requests@[id as int].state->Transferring_handle as int,
                HandleState::Idle,
            ),
            final(self).queue@ == old(self).queue@,
            final(self).live == old(self).live,
            final(self).max_handles == old(self).max_handles,
            final(self).accepting == old(self).accepting,
    {
        let ghost pre = *old(self);
        let n_requests = self.requests.len();
        assert(pre.requests@.len() == n_requests);
        assert(pre.req_ok(id as int));
        let h = match self.requests[id].state {
            RequestState::Transferring { handle } => handle,
            _ => 0,
        };
        self.requests[id].state = RequestState::Completed;
        self.requests[id].outcome = Some(Ok(response));
        self.handles[h] = HandleState::Idle;
        proof {
            lemma_live_count_update(pre.handles@, h as int, HandleState::Idle);
            assert(self.requests@ =~= pre.requests@.update(
                id as int,
                Entry {
                    state: RequestState::Completed,
                    outcome: self.requests@[id as int].outcome,
                    ..pre.requests@[id as int]
                },
            ));
            self.lemma_wf_after_resolve(pre, id, h);
        }
    }

    /// The transport reported a failure for request `id`: resolve its sink,
    /// exactly once, with the error, and retire the handle — a failed
    /// handle is never returned to the pool in a poisoned state; a fresh
    /// one is created lazily on next demand. No other request's record
    /// moves: one request's failure never delays or fails another.
    pub fn fail(&mut self, id: usize, error: Error)
        requires
            old(self).wf(),
            id < old(self).requests@.len(),
            old(self).requests@[id as int].state is Connecting
                || old(self).requests@[id as int].state is Transferring,
        ensures
            final(self).wf(),
            final(self).requests@ == old(self).requests@.update(
                id as int,
                Entry {
                    state: RequestState::Failed,
                    outcome: Some(Err(error)),
                    ..old(self).requests@[id as int]
                },
            ),
            final(self).handles@ == old(self).handles@.update(
                bound_handle(old(self).requests@[id as int].state)->0,
                HandleState::Retired,
            ),
            final(self).queue@ == old(self).queue@,
            final(self).live == old(self).live - 1,
            old(self).live >= 1,
            final(self).max_handles == old(self).max_handles,
            final(self).accepting == old(self).accepting,
    {
        let ghost pre = *old(self);
        let n_requests = self.requests.len();
        assert(pre.requests@.len() == n_requests);
        assert(pre.req_ok(id as int));
        let h = match self.requests[id].state {
            RequestState::Connecting { handle } => handle,
            RequestState::Transferring { handle } => handle,
            _ => 0,
        };
        self.requests[id].state = RequestState::Failed;
        self.requests[id].outcome = Some(Err(error));
        self.handles[h] = HandleState::Retired;
        proof {
            lemma_live_count_update(pre.handles@, h as int, HandleState::Retired);
        }
        self.live = self.live - 1;
        proof {
            assert(self.requests@ =~= pre.requests@.update(
                id as int,
                Entry {
                    state: RequestState::Failed,
                    outcome: self.requests@[id as int].outcome,
                    ..pre.requests@[id as int]
                },
            ));
            self.lemma_wf_after_resolve(pre, id, h);
        }
    }

    /// Request `id`'s deadline expired while connecting or transferring:
    /// resolve its sink, exactly once, with a timeout error — kept distinct
    /// from a transport failure so callers can apply their own retry — and
    /// release the handle back to the idle pool.
    pub fn timeout(&mut self, id: usize)
        requires
            old(self).wf(),
            id < old(self).requests@.len(),
            old(self).requests@[id as int].state is Connecting
                || old(self).requests@[id as int].state is Transferring,
        ensures
            final(self).wf(),
            final(self).requests@ == old(self).requests@.update(
                id as int,
                Entry {
                    state: RequestState::TimedOut,
                    outcome: Some(Err(Error::Timeout)),
                    ..old(self).requests@[id as int]
                },
            ),
            final(self).handles@ == old(self).handles@.update(
                bound_handle(old(self).requests@[id as int].state)->0,
                HandleState::Idle,
            ),
            final(self).queue@ == old(self).queue@,
            final(self).live == old(self).live,
            final(self).max_handles == old(self).max_handles,
            final(self).accepting == old(self).accepting,
    {
        let ghost pre = *old(self);
        let n_requests = self.requests.len();
        assert(pre.requests@.len() == n_requests);
        assert(pre.req_ok(id as int));
        let h = match self.requests[id].state {
            RequestState::Connecting { handle } => handle,
            RequestState::Transferring { handle } => handle,
            _ => 0,
        };
        self.requests[id].state = RequestState::TimedOut;
        self.requests[id].outcome = Some(Err(Error::Timeout));
        self.handles[h] = HandleState::Idle;
        proof {
            lemma_live_count_update(pre.handles@, h as int, HandleState::Idle);
            assert(self.requests@ =~= pre.requests@.update(
                id as int,
                Entry {
                    state: RequestState::TimedOut,
                    outcome: self.requests@[id as int].outcome,
                    ..pre.requests@[id as int]
                },
            ));
            self.lemma_wf_after_resolve(pre, id, h);
        }
    }

    /// Follow the redirect the transport just reported for request `id`, or
    /// refuse it, resolving the request instead.
    pub fn redirect(&mut self, id: usize) -> (followed: bool)
        requires
            old(self).wf(),
            id < old(self).requests@.len(),
            old(self).requests@[id as int].state is Transferring,
        ensures
            final(self).wf(),
            followed == redirect_allowed(
                old(self).requests@[id as int].options.redirect_policy,
                old(self).requests@[id as int].redirects,
            ),
            followed ==> final(self).requests@ == old(self).requests@.update(
                id as int,
                Entry {
                    redirects: if old(self).requests@[id as int].redirects < u32::MAX {
                        (old(self).requests@[id as int].redirects + 1) as u32
                    } else {
                        old(self).requests@[id as int].redirects
                    },
                    ..old(self).requests@[id as int]
                },
            ) && final(self).handles@ == old(self).handles@
                && final(self).queue@ == old(self).queue@
                && final(self).live == old(self).live
                && final(self).max_handles == old(self).max_handles
                && final(self).accepting == old(self).accepting,
            !followed && old(self).requests@[id as int].options.redirect_policy is NoFollow
                ==> *final(self) == *old(self),
            !followed && !(old(self).requests@[id as int].options.redirect_policy is NoFollow)
                ==> final(self).requests@ == old(self).requests@.update(
                    id as int,
                    Entry {
                        state: RequestState::Failed,
                        outcome: Some(Err(Error::TooManyRedirects)),
                        ..old(self).requests@[id as int]
                    },
                ) && final(self).handles@ == old(self).handles@.update(
                    old(self).requests@[id as int].state->Transferring_handle as int,
                    HandleState::Idle,
                ) && final(self).queue@ == old(self).queue@
                    && final(self).live == old(self).live
                    && final(self).max_handles == old(self).max_handles
                    && final(self).accepting == old(self).accepting,
    {
        let ghost pre = *old(self);
        let n_requests = self.requests.len();
        assert(pre.requests@.len() == n_requests);
        assert(pre.req_ok(id as int));
        let policy = self.requests[id].options.redirect_policy;
        let k = self.requests[id].redirects;
        let allowed = match policy {
            RedirectPolicy::NoFollow => false,
            RedirectPolicy::Follow => true,
            RedirectPolicy::Limit(n) => k < n,
        };
        if allowed {
            let next = if k < u32::MAX {
                k + 1
            } else {
                k
            };
            self.requests[id].redirects = next;
            proof {
                assert(self.requests@ =~= pre.requests@.update(
                    id as int,
                    Entry { redirects: next, ..pre.requests@[id as int] },
                ));
                self.lemma_wf_after_advance(pre, id);
            }
            true
        } else if matches!(policy, RedirectPolicy::NoFollow) {
            false
        } else {
            let h = match self.requests[id].state {
                RequestState::Transferring { handle } => handle,
                _ => 0,
            };
            self.requests[id].state = RequestState::Failed;
            self.requests[id].outcome = Some(Err(Error::TooManyRedirects));
            self.handles[h] = HandleState::Idle;
            proof {
                lemma_live_count_update(pre.handles@, h as int, HandleState::Idle);
                assert(self.requests@ =~= pre.requests@.update(
                    id as int,
                    Entry {
                        state: RequestState::Failed,
                        outcome: self.requests@[id as int].outcome,
                        ..pre.requests@[id as int]
                    },
                ));
                self.lemma_wf_after_resolve(pre, id, h);
            }
            false
        }
    }

    /// The caller dropped request `id`'s future. Dropping the future is the
    /// only cancellation signal: if the request is still unresolved it is
    /// cancelled now, its sink resolved exactly once, and whatever it held —
    /// its place in the queue, or its transport handle — is released at
    /// once, so a later request need not wait for the abandoned transfer's
    /// natural end. On an already settled request this is a no-op.
    pub fn future_dropped(&mut self, id: usize)
        requires
            old(self).wf(),
            id < old(self).requests@.len(),
        ensures
            final(self).wf(),
            is_terminal(old(self).requests@[id as int].state) ==> *final(self) == *old(self),
            !is_terminal(old(self).requests@[id as int].state)
                ==> final(self).requests@ == old(self).requests@.update(
                    id as int,
                    Entry {
                        state: RequestState::Cancelled,
                        outcome: Some(Err(Error::Cancelled)),
                        ..old(self).requests@[id as int]
                    },
                ) && final(self).live == old(self).live
                    && final(self).max_handles == old(self).max_handles
                    && final(self).accepting == old(self).accepting,
            old(self).requests@[id as int].state is Queued
                ==> final(self).handles@ == old(self).handles@
                    && (exists|w: int| 0 <= w < old(self).queue@.len()
                        && old(self).queue@[w] == id
                        && final(self).queue@ == old(self).queue@.remove(w)),
            bound_handle(old(self).requests@[id as int].state) matches Some(h)
                ==> final(self).handles@ == old(self).handles@.update(h, HandleState::Idle)
                    && final(self).queue@ == old(self).queue@,
    {
        let ghost pre = *old(self);
        let n_requests = self.requests.len();
        assert(pre.requests@.len() == n_requests);
        assert(pre.req_ok(id as int));
        match self.requests[id].state {
            RequestState::Queued => {
                let position = find_in_queue(&self.queue, id);
                let found = match position {
                    Some(p) => p,
                    None => 0,
                };
                assert(position is Some) by {
                    assert(pre.queue@.contains(id));
                }
                self.queue.remove(found);
                self.requests[id].state = RequestState::Cancelled;
                self.requests[id].outcome = Some(Err(Error::Cancelled));
                proof {
                    assert(self.requests@ =~= pre.requests@.update(
                        id as int,
                        Entry {
                            state: RequestState::Cancelled,
                            outcome: self.requests@[id as int].outcome,
                            ..pre.requests@[id as int]
                        },
                    ));
                    self.lemma_wf_after_queue_cancel(pre, id, found as int);
                }
            },
            RequestState::Bound { handle } => {
                self.cancel_bound(id, handle);
            },
            RequestState::Connecting { handle } => {
                self.cancel_bound(id, handle);
            },
            RequestState::Transferring { handle } => {
                self.cancel_bound(id, handle);
            },
            _ => {},
        }
    }

    /// Cancel the in-flight request `id`, bound to handle `h`: resolve its
    /// sink with the cancellation signal and release the handle for reuse.
    fn cancel_bound(&mut self, id: usize, h: usize)
        requires
            old(self).wf(),
            id < old(self).requests@.len(),
            bound_handle(old(self).requests@[id as int].state) == Some(h as int),
        ensures
            final(self).wf(),
            final(self).requests@ == old(self).requests@.update(
                id as int,
                Entry {
                    state: RequestState::Cancelled,
                    outcome: Some(Err(Error::Cancelled)),
                    ..old(self).requests@[id as int]
                },
            ),
            final(self).handles@ == old(self).handles@.update(h as int, HandleState::Idle),
            final(self).queue@ == old(self).queue@,
            final(self).live == old(self).live,
            final(self).max_handles == old(self).max_handles,
            final(self).accepting == old(self).accepting,
    {
        let ghost pre = *old(self);
        let n_requests = self.requests.len();
        assert(pre.requests@.len() == n_requests);
        assert(pre.req_ok(id as int));
        self.requests[id].state = RequestState::Cancelled;
        self.requests[id].outcome = Some(Err(Error::Cancelled));
        self.handles[h] = HandleState::Idle;
        proof {
            lemma_live_count_update(pre.handles@, h as int, HandleState::Idle);
            assert(self.requests@ =~= pre.requests@.update(
                id as int,
                Entry {
                    state: RequestState::Cancelled,
                    outcome: self.requests@[id as int].outcome,
                    ..pre.requests@[id as int]
                },
            ));
            self.lemma_wf_after_resolve(pre, id, h);
        }
    }

    /// Re-establish well-formedness after the queued request `id`, sitting
    /// at queue position `w`, was cancelled and taken out of the queue.
    proof fn lemma_wf_after_queue_cancel(self, pre: Agent, id: usize, w: int)
        requires
            pre.wf(),
            pre.requests@.len() <= usize::MAX,
            id < pre.requests@.len(),
            pre.requests@[id as int].state is Queued,
            0 <= w < pre.queue@.len(),
            pre.queue@[w] == id,
            self.requests@ == pre.requests@.update(
                id as int,
                Entry {
                    state: RequestState::Cancelled,
                    outcome: Some(Err(Error::Cancelled)),
                    ..pre.requests@[id as int]
                },
            ),
            self.queue@ == pre.queue@.remove(w),
            self.handles@ == pre.handles@,
            self.live == pre.live,
            self.max_handles == pre.max_handles,
        ensures
            self.wf(),
    {
        pre.queue@.remove_ensures(w);
        assert(pre.req_ok(id as int));
        assert forall|i: int| 0 <= i < self.requests@.len() implies #[trigger] self.req_ok(i) by {
            assert(pre.req_ok(i));
            if i != id {
                assert(self.requests@[i] == pre.requests@[i]);
                if pre.requests@[i].state is Queued {
                    let v = choose|v: int| 0 <= v < pre.queue@.len() && pre.queue@[v] == i as usize;
                    assert(i as usize != id);
                    assert(v != w);
                    if v < w {
                        assert(self.queue@[v] == i as usize);
                    } else {
                        assert(self.queue@[v - 1] == i as usize);
                    }
                    assert(self.queue@.contains(i as usize));
                }
            }
        }
        assert forall|g: int| 0 <= g < self.handles@.len() implies #[trigger] self.handle_ok(g) by {
            assert(pre.handle_ok(g));
            match pre.handles@[g] {
                HandleState::Busy { req } => {
                    assert(bound_handle(pre.requests@[req as int].state) == Some(g));
                    assert(req != id);
                    assert(self.requests@[req as int] == pre.requests@[req as int]);
                },
                _ => {},
            }
        }
        assert forall|q: int| 0 <= q < self.queue@.len()
            implies #[trigger] self.queue@[q] < self.requests@.len()
                && self.requests@[self.queue@[q] as int].state is Queued by {
            let v = if q < w { q } else { q + 1 };
            assert(self.queue@[q] == pre.queue@[v]);
            assert(pre.queue@[v] != pre.queue@[w]);
        }
        assert forall|q1: int, q2: int| 0 <= q1 < q2 < self.queue@.len()
            implies self.queue@[q1] != self.queue@[q2] by {
            let v1 = if q1 < w { q1 } else { q1 + 1 };
            let v2 = if q2 < w { q2 } else { q2 + 1 };
            assert(self.queue@[q1] == pre.queue@[v1]);
            assert(self.queue@[q2] == pre.queue@[v2]);
        }
    }

    /// Tear the agent down: stop accepting work, cancel and resolve every
    /// request still unresolved — an in-flight request at shutdown fails
    /// with the cancellation signal rather than hanging — and discard the
    /// whole handle pool. Settled requests keep their records untouched.
    pub fn shutdown(&mut self)
        requires
            old(self).wf(),
        ensures
            final(self).wf(),
            !final(self).accepting,
            final(self).requests@.len() == old(self).requests@.len(),
            forall|j: int| 0 <= j < old(self).requests@.len()
                && is_terminal(old(self).requests@[j].state)
                ==> final(self).requests@[j] == old(self).requests@[j],
            forall|j: int| 0 <= j < old(self).requests@.len()
                && !is_terminal(old(self).requests@[j].state)
                ==> final(self).requests@[j] == (Entry {
                    state: RequestState::Cancelled,
                    outcome: Some(Err(Error::Cancelled)),
                    ..old(self).requests@[j]
                }),
            final(self).queue@.len() == 0,
            final(self).handles@.len() == 0,
            final(self).live == 0,
            final(self).max_handles == old(self).max_handles,
    {
        let ghost pre = *old(self);
        let n = self.requests.len();
        let mut i: usize = 0;
        while i < n
            invariant
                i <= n,
                n == self.requests@.len(),
                self.requests@.len() == pre.requests@.len(),
                self.handles@ == pre.handles@,
                self.queue@ == pre.queue@,
                self.live == pre.live,
                self.max_handles == pre.max_handles,
                self.accepting == pre.accepting,
                forall|j: int| i <= j < n ==> self.requests@[j] == pre.requests@[j],
                forall|j: int| 0 <= j < i && is_terminal(pre.requests@[j].state)
                    ==> self.requests@[j] == pre.requests@[j],
                forall|j: int| 0 <= j < i && !is_terminal(pre.requests@[j].state)
                    ==> self.requests@[j] == (Entry {
                        state: RequestState::Cancelled,
                        outcome: Some(Err(Error::Cancelled)),
                        ..pre.requests@[j]
                    }),
            decreases n - i,
        {
            let settled = matches!(
                self.requests[i].state,
                RequestState::Completed
                    | RequestState::Failed
                    | RequestState::TimedOut
                    | RequestState::Cancelled
            );
            if !settled {
                self.requests[i].state = RequestState::Cancelled;
                self.requests[i].outcome = Some(Err(Error::Cancelled));
            }
            i += 1;
        }
        self.queue = Vec::new();
        self.handles = Vec::new();
        self.live = 0;
        self.accepting = false;
        proof {
            assert forall|j: int| 0 <= j < self.requests@.len() implies #[trigger] self.req_ok(j) by {
                assert(pre.req_ok(j));
            }
        }
    }

    /// The loop's whole first stage: drain the submission queue, binding queued
    /// requests to handles oldest-first until the queue is empty or the pool is
    /// saturated — no handle idle and the pool at its cap. Binding touches
    /// nothing but the bound requests' lifecycle states: no completion sink is
    /// resolved or disturbed, and every settled request's record stands.
    pub fn drain(&mut self)
        requires
            old(self).wf(),
        ensures
            final(self).wf(),
            final(self).queue@.len() == 0
                || (final(self).live == final(self).max_handles
                    && forall|g: int| 0 <= g < final(self).handles@.len()
                        ==> !(final(self).handles@[g] is Idle)),
            final(self).requests@.len() == old(self).requests@.len(),
            forall|j: int| 0 <= j < old(self).requests@.len()
                ==> final(self).requests@[j].outcome == old(self).requests@[j].outcome
                    && final(self).requests@[j].uri == old(self).requests@[j].uri
                    && final(self).requests@[j].options == old(self).requests@[j].options
                    && final(self).requests@[j].redirects == old(self).requests@[j].redirects,
            forall|j: int| 0 <= j < old(self).requests@.len()
                && is_terminal(old(self).requests@[j].state)
                ==> final(self).requests@[j] == old(self).requests@[j],
            final(self).max_handles == old(self).max_handles,
            final(self).accepting == old(self).accepting,
    {
        let ghost pre = *old(self);
        let mut done = false;
        while !done
            invariant
                self.wf(),
                done ==> self.queue@.len() == 0
                    || (self.live == self.max_handles
                        && forall|g: int| 0 <= g < self.handles@.len()
                            ==> !(self.handles@[g] is Idle)),
                self.requests@.len() == pre.requests@.len(),
                forall|j: int| 0 <= j < pre.requests@.len()
                    ==> self.requests@[j].outcome == pre.requests@[j].outcome
                        && self.requests@[j].uri == pre.requests@[j].uri
                        && self.requests@[j].options == pre.requests@[j].options
                        && self.requests@[j].redirects == pre.requests@[j].redirects,
                forall|j: int| 0 <= j < pre.requests@.len()
                    && is_terminal(pre.requests@[j].state)
                    ==> self.requests@[j] == pre.requests@[j],
                self.max_handles == pre.max_handles,
                self.accepting == pre.accepting,
            decreases self.queue@.len() + (if done { 0int } else { 1int }),
        {
            let ghost before = *self;
            match self.bind_next() {
                Some(bound) => {
                    proof {
                        let (id, h) = bound;
                        assert forall|j: int| 0 <= j < pre.requests@.len()
                            && is_terminal(pre.requests@[j].state)
                            implies self.requests@[j] == before.requests@[j] by {
                            if j == id {
                                assert(before.requests@[j].state is Queued);
                            }
                        }
                    }
                },
                None => {
                    done = true;
                },
            }
        }
    }
}

/// A transport handle serves at most one request and a request holds at
/// most one handle: in any well-formed agent state, two busy pool slots
/// never serve the same request, and two in-flight requests never hold the
/// same handle. With `complete`'s guarantee that the handle returns to the
/// idle pool on resolution, this is the checkout accounting of the pool:
/// every checkout is matched by exactly one in-flight request until its one
/// resolution returns or retires the handle.
pub proof fn lemma_binding_unique(a: Agent)
    requires
        a.wf(),
    ensures
        forall|h1: usize, h2: usize|
            h1 < a.handles@.len() && h2 < a.handles@.len()
                && a.handles@[h1 as int] is Busy && a.handles@[h2 as int] is Busy
                && #[trigger] a.handles@[h1 as int]->req == #[trigger] a.handles@[h2 as int]->req
            ==> h1 == h2,
        forall|i1: usize, i2: usize|
            i1 < a.requests@.len() && i2 < a.requests@.len()
                && #[trigger] bound_handle(a.requests@[i1 as int].state) is Some
                && bound_handle(a.requests@[i1 as int].state)
                    == #[trigger] bound_handle(a.requests@[i2 as int].state)
            ==> i1 == i2,
{
    assert forall|h1: usize, h2: usize|
        h1 < a.handles@.len() && h2 < a.handles@.len()
            && a.handles@[h1 as int] is Busy && a.handles@[h2 as int] is Busy
            && #[trigger] a.handles@[h1 as int]->req == #[trigger] a.handles@[h2 as int]->req
        implies h1 == h2 by {
        assert(a.handle_ok(h1 as int));
        assert(a.handle_ok(h2 as int));
    }
    assert forall|i1: usize, i2: usize|
        i1 < a.requests@.len() && i2 < a.requests@.len()
            && #[trigger] bound_handle(a.requests@[i1 as int].state) is Some
            && bound_handle(a.requests@[i1 as int].state)
                == #[trigger] bound_handle(a.requests@[i2 as int].state)
        implies i1 == i2 by {
        assert(a.req_ok(i1 as int));
        assert(a.req_ok(i2 as int));
    }
}

/// How far a redirect chain gets under each policy: a request that starts
/// with no redirects followed is driven through a chain of `k` redirects
/// exactly when every hop `j < k` is admitted — so under `Limit(n)` the
/// whole chain is followed if and only if `k <= n`, under `Follow` always,
/// and under `NoFollow` only the empty chain.
pub proof fn lemma_redirect_chain(n: u32, k: u32)
    ensures
        (k <= n) <==> (forall|j: u32| j < k ==> #[trigger] redirect_allowed(
            RedirectPolicy::Limit(n),
            j,
        )),
        forall|j: u32| #[trigger] redirect_allowed(RedirectPolicy::Follow, j),
        forall|j: u32| !(#[trigger] redirect_allowed(RedirectPolicy::NoFollow, j)),
{
    if k > n {
        assert(!redirect_allowed(RedirectPolicy::Limit(n), n));
    }
}

/// The soonest of the active requests' deadlines: the bound the worker puts
/// on its multiplexed wait, so no expiry is slept through.
pub fn soonest_deadline(deadlines: &Vec<u64>) -> (r: Option<u64>)
    ensures
        r is None <==> deadlines@.len() == 0,
        r matches Some(m) ==> deadlines@.contains(m)
            && forall|j: int| 0 <= j < deadlines@.len() ==> m <= deadlines@[j],
{
    if deadlines.len() == 0 {
        return None;
    }
    let mut m = deadlines[0];
    let mut i: usize = 1;
    while i < deadlines.len()
        invariant
            1 <= i <= deadlines@.len(),
            deadlines@.contains(m),
            forall|j: int| 0 <= j < i ==> m <= deadlines@[j],
        decreases deadlines@.len() - i,
    {
        if deadlines[i] < m {
            m = deadlines[i];
        }
        i += 1;
    }
    Some(m)
}

} // verus!
