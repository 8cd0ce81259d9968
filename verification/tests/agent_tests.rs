use chttp::agent::{Agent, HandleState, RequestState};
use chttp::error::Error;
use chttp::options::{Options, RedirectPolicy};
use chttp::request::{Method, Request, Response};

fn plain_options() -> Options {
    Options::default()
}

fn submit_one(agent: &mut Agent, uri: &str, options: Options) -> usize {
    let request = Request::new(Method::Get, uri.to_string());
    agent.submit(uri.to_string(), request, options)
}

#[test]
fn submit_enqueues_fifo() {
    let mut agent = Agent::new(4);
    let a = submit_one(&mut agent, "http://one.test", plain_options());
    let b = submit_one(&mut agent, "http://two.test", plain_options());
    assert_eq!(a, 0);
    assert_eq!(b, 1);
    assert_eq!(agent.queue, vec![0, 1]);
    assert!(matches!(agent.requests[a].state, RequestState::Queued));
    assert!(matches!(agent.requests[b].state, RequestState::Queued));
    assert!(agent.requests[a].outcome.is_none());
}

#[test]
fn bind_next_grows_pool_under_cap() {
    let mut agent = Agent::new(2);
    let a = submit_one(&mut agent, "http://one.test", plain_options());
    let bound = agent.bind_next().expect("an idle or fresh handle");
    assert_eq!(bound, (a, 0));
    assert!(matches!(agent.handles[0], HandleState::Busy { req } if req == a));
    assert!(matches!(agent.requests[a].state, RequestState::Bound { handle: 0 }));
    assert!(agent.bind_next().is_none());
}

#[test]
fn full_lifecycle_resolves_once_and_frees_handle() {
    let mut agent = Agent::new(2);
    let id = submit_one(&mut agent, "http://one.test", plain_options());
    let (req, h) = agent.bind_next().expect("bound");
    agent.start(req);
    assert!(matches!(agent.requests[id].state, RequestState::Connecting { .. }));
    agent.connected(req);
    assert!(matches!(agent.requests[id].state, RequestState::Transferring { .. }));
    agent.complete(req, Response::new(200));
    assert!(matches!(agent.requests[id].state, RequestState::Completed));
    match &agent.requests[id].outcome {
        Some(Ok(response)) => assert_eq!(response.status, 200),
        other => panic!("expected a successful outcome, got {:?}", other),
    }
    // the handle reappears in the idle pool, available for the next request
    assert!(matches!(agent.handles[h], HandleState::Idle));
    let second = submit_one(&mut agent, "http://two.test", plain_options());
    let (req2, h2) = agent.bind_next().expect("reuses the freed handle");
    assert_eq!(req2, second);
    assert_eq!(h2, h);
}

#[test]
fn one_failure_leaves_other_requests_untouched() {
    let mut agent = Agent::new(4);
    let good = submit_one(&mut agent, "http://good.test", plain_options());
    let bad = submit_one(&mut agent, "http://unreachable.test", plain_options());
    let (g, _gh) = agent.bind_next().expect("bound");
    let (b, _bh) = agent.bind_next().expect("bound");
    assert_eq!(g, good);
    assert_eq!(b, bad);
    agent.start(good);
    agent.connected(good);
    agent.start(bad);
    agent.fail(bad, Error::Transport);
    // the failed request resolved with its error...
    assert!(matches!(agent.requests[bad].outcome, Some(Err(Error::Transport))));
    // ...and the good one is still transferring, unaffected
    assert!(matches!(agent.requests[good].state, RequestState::Transferring { .. }));
    assert!(agent.requests[good].outcome.is_none());
    agent.complete(good, Response::new(200));
    assert!(matches!(agent.requests[good].outcome, Some(Ok(_))));
}

#[test]
fn failed_handle_is_retired_not_reused() {
    let mut agent = Agent::new(4);
    let id = submit_one(&mut agent, "http://one.test", plain_options());
    let (_, h) = agent.bind_next().expect("bound");
    agent.start(id);
    agent.fail(id, Error::Transport);
    assert!(matches!(agent.handles[h], HandleState::Retired));
    assert_eq!(agent.live, 0);
    // a fresh handle is created lazily on next demand
    let second = submit_one(&mut agent, "http://two.test", plain_options());
    let (req2, h2) = agent.bind_next().expect("a fresh handle");
    assert_eq!(req2, second);
    assert_ne!(h2, h);
    assert!(matches!(agent.handles[h2], HandleState::Busy { .. }));
}

#[test]
fn timeout_resolves_with_timeout_error_and_frees_handle() {
    let mut agent = Agent::new(2);
    let id = submit_one(&mut agent, "http://slow.test", plain_options());
    let (_, h) = agent.bind_next().expect("bound");
    agent.start(id);
    agent.timeout(id);
    assert!(matches!(agent.requests[id].state, RequestState::TimedOut));
    assert!(matches!(agent.requests[id].outcome, Some(Err(Error::Timeout))));
    assert!(matches!(agent.handles[h], HandleState::Idle));
}

#[test]
fn dropped_future_releases_handle_for_next_request() {
    let mut agent = Agent::new(1);
    let first = submit_one(&mut agent, "http://abandoned.test", plain_options());
    let (_, h) = agent.bind_next().expect("bound");
    agent.start(first);
    // the caller loses interest before the transfer's natural end
    agent.future_dropped(first);
    assert!(matches!(agent.requests[first].state, RequestState::Cancelled));
    assert!(matches!(agent.requests[first].outcome, Some(Err(Error::Cancelled))));
    assert!(matches!(agent.handles[h], HandleState::Idle));
    // a second request proceeds at once, without waiting out the first
    let second = submit_one(&mut agent, "http://next.test", plain_options());
    let bound = agent.bind_next().expect("the freed handle");
    assert_eq!(bound, (second, h));
}

#[test]
fn dropping_a_queued_request_leaves_the_queue() {
    let mut agent = Agent::new(1);
    let first = submit_one(&mut agent, "http://one.test", plain_options());
    let second = submit_one(&mut agent, "http://two.test", plain_options());
    let third = submit_one(&mut agent, "http://three.test", plain_options());
    let (req, _) = agent.bind_next().expect("bound");
    assert_eq!(req, first);
    agent.future_dropped(second);
    assert!(matches!(agent.requests[second].state, RequestState::Cancelled));
    assert_eq!(agent.queue, vec![third]);
}

#[test]
fn dropping_a_settled_future_changes_nothing() {
    let mut agent = Agent::new(2);
    let id = submit_one(&mut agent, "http://one.test", plain_options());
    agent.bind_next().expect("bound");
    agent.start(id);
    agent.connected(id);
    agent.complete(id, Response::new(204));
    agent.future_dropped(id);
    assert!(matches!(agent.requests[id].state, RequestState::Completed));
    match &agent.requests[id].outcome {
        Some(Ok(response)) => assert_eq!(response.status, 204),
        other => panic!("expected the settled outcome to stand, got {:?}", other),
    }
}

#[test]
fn pool_at_cap_queues_fifo_until_a_handle_frees() {
    let mut agent = Agent::new(1);
    let first = submit_one(&mut agent, "http://one.test", plain_options());
    let second = submit_one(&mut agent, "http://two.test", plain_options());
    let third = submit_one(&mut agent, "http://three.test", plain_options());
    let (req, h) = agent.bind_next().expect("bound");
    assert_eq!(req, first);
    // at the cap: the rest keep waiting
    assert!(agent.bind_next().is_none());
    agent.start(first);
    agent.connected(first);
    agent.complete(first, Response::new(200));
    // the oldest waiting request gets the freed handle first
    let (req2, h2) = agent.bind_next().expect("bound");
    assert_eq!((req2, h2), (second, h));
    agent.start(second);
    agent.connected(second);
    agent.complete(second, Response::new(200));
    let (req3, _) = agent.bind_next().expect("bound");
    assert_eq!(req3, third);
}

#[test]
fn redirects_followed_under_generous_limit() {
    let mut agent = Agent::new(2);
    let options = Options::default().with_redirect_policy(RedirectPolicy::Limit(5));
    let id = submit_one(&mut agent, "http://hop.test", options);
    agent.bind_next().expect("bound");
    agent.start(id);
    agent.connected(id);
    // a chain of three redirects succeeds under Limit(5)
    assert!(agent.redirect(id));
    assert!(agent.redirect(id));
    assert!(agent.redirect(id));
    assert_eq!(agent.requests[id].redirects, 3);
    agent.complete(id, Response::new(200));
    assert!(matches!(agent.requests[id].outcome, Some(Ok(_))));
}

#[test]
fn redirect_chain_fails_under_tight_limit() {
    let mut agent = Agent::new(2);
    let options = Options::default().with_redirect_policy(RedirectPolicy::Limit(2));
    let id = submit_one(&mut agent, "http://hop.test", options);
    let (_, h) = agent.bind_next().expect("bound");
    agent.start(id);
    agent.connected(id);
    // the same chain of three redirects fails under Limit(2)
    assert!(agent.redirect(id));
    assert!(agent.redirect(id));
    assert!(!agent.redirect(id));
    assert!(matches!(agent.requests[id].state, RequestState::Failed));
    assert!(matches!(agent.requests[id].outcome, Some(Err(Error::TooManyRedirects))));
    assert!(matches!(agent.handles[h], HandleState::Idle));
}

#[test]
fn no_follow_policy_refuses_without_failing() {
    let mut agent = Agent::new(2);
    let id = submit_one(&mut agent, "http://hop.test", plain_options());
    agent.bind_next().expect("bound");
    agent.start(id);
    agent.connected(id);
    // under NoFollow the redirect response itself will be delivered
    assert!(!agent.redirect(id));
    assert!(matches!(agent.requests[id].state, RequestState::Transferring { .. }));
    agent.complete(id, Response::new(302));
    match &agent.requests[id].outcome {
        Some(Ok(response)) => assert_eq!(response.status, 302),
        other => panic!("expected the redirect response, got {:?}", other),
    }
}

#[test]
fn shutdown_cancels_in_flight_and_keeps_settled_records() {
    let mut agent = Agent::new(2);
    let done = submit_one(&mut agent, "http://done.test", plain_options());
    let inflight = submit_one(&mut agent, "http://inflight.test", plain_options());
    let waiting = submit_one(&mut agent, "http://waiting.test", plain_options());
    agent.bind_next().expect("bound");
    agent.bind_next().expect("bound");
    agent.start(done);
    agent.connected(done);
    agent.complete(done, Response::new(200));
    agent.shutdown();
    assert!(!agent.accepting);
    assert!(matches!(agent.requests[done].outcome, Some(Ok(_))));
    assert!(matches!(agent.requests[inflight].outcome, Some(Err(Error::Cancelled))));
    assert!(matches!(agent.requests[waiting].outcome, Some(Err(Error::Cancelled))));
    assert!(agent.queue.is_empty());
    assert!(agent.handles.is_empty());
    assert_eq!(agent.live, 0);
}

#[test]
fn soonest_deadline_is_the_minimum() {
    assert_eq!(chttp::agent::soonest_deadline(&Vec::new()), None);
    assert_eq!(chttp::agent::soonest_deadline(&vec![30, 10, 20]), Some(10));
    assert_eq!(chttp::agent::soonest_deadline(&vec![7]), Some(7));
}

#[test]
fn drain_binds_until_empty_or_saturated() {
    let mut agent = Agent::new(2);
    let a = submit_one(&mut agent, "http://one.test", plain_options());
    let b = submit_one(&mut agent, "http://two.test", plain_options());
    let c = submit_one(&mut agent, "http://three.test", plain_options());
    agent.drain();
    // two handles bound, the third request still waits: the pool is at cap
    assert!(matches!(agent.requests[a].state, RequestState::Bound { .. }));
    assert!(matches!(agent.requests[b].state, RequestState::Bound { .. }));
    assert!(matches!(agent.requests[c].state, RequestState::Queued));
    assert_eq!(agent.queue, vec![c]);
    assert_eq!(agent.live, 2);
}
