use chttp::client::{Client, ClientBuilder, DEFAULT_MAX_HANDLES};
use chttp::error::Error;
use chttp::middleware::{MarkerMiddleware, apply_request_filters, apply_response_filters};
use chttp::options::{HttpVersion, Options, RedirectPolicy, resolve_options};
use chttp::request::{Method, Request, Response};

fn marker(tag: &str) -> MarkerMiddleware {
    MarkerMiddleware { name: "x-trace".to_string(), tag: tag.to_string() }
}

fn trace_of(headers: &[(String, String)]) -> Vec<String> {
    headers
        .iter()
        .filter(|h| h.0 == "x-trace")
        .map(|h| h.1.clone())
        .collect()
}

#[test]
fn default_options_are_engine_defaults() {
    let options = Options::default();
    assert_eq!(options.timeout_ms, None);
    assert_eq!(options.connect_timeout_ms, None);
    assert!(matches!(options.redirect_policy, RedirectPolicy::NoFollow));
    assert_eq!(options.preferred_http_version, None);
    assert!(options.proxy.is_none());
    assert!(options.tls_verify_peer);
    assert!(options.tls_verify_host);
}

#[test]
fn options_builders_replace_single_fields() {
    let options = Options::default()
        .with_timeout(Some(60_000))
        .with_connect_timeout(Some(5_000))
        .with_redirect_policy(RedirectPolicy::Limit(10))
        .with_preferred_http_version(Some(HttpVersion::Http2))
        .with_proxy(Some("http://proxy.test:8080".to_string()))
        .with_tls_verify_peer(false)
        .with_tls_verify_host(false);
    assert_eq!(options.timeout_ms, Some(60_000));
    assert_eq!(options.connect_timeout_ms, Some(5_000));
    assert!(matches!(options.redirect_policy, RedirectPolicy::Limit(10)));
    assert_eq!(options.preferred_http_version, Some(HttpVersion::Http2));
    assert_eq!(options.proxy.as_deref(), Some("http://proxy.test:8080"));
    assert!(!options.tls_verify_peer);
    assert!(!options.tls_verify_host);
}

#[test]
fn attached_options_take_precedence_over_defaults() {
    let default = Options::default().with_timeout(Some(300_000));
    let attached = Options::default().with_timeout(Some(1));
    let resolved = resolve_options(Some(attached), &default);
    assert_eq!(resolved.timeout_ms, Some(1));
    let fallback = resolve_options(None, &default);
    assert_eq!(fallback.timeout_ms, Some(300_000));
}

#[test]
fn tight_attached_timeout_wins_and_yields_timeout_error() {
    // client default: no timeout at all; the request attaches 1 ms
    let mut client = Client::<MarkerMiddleware>::new().unwrap();
    let request = Request::new(Method::Get, "http://slow.test".to_string())
        .with_options(Options::default().with_timeout(Some(1)));
    let id = client.submit(request);
    assert_eq!(client.agent.requests[id].options.timeout_ms, Some(1));
    // the deadline passes while connecting: the request resolves as a
    // timeout, distinguished from a plain transport error
    let bound = client.agent.bind_next().expect("bound");
    client.agent.start(bound.0);
    client.agent.timeout(bound.0);
    assert!(matches!(client.agent.requests[id].outcome, Some(Err(Error::Timeout))));
}

#[test]
fn request_filters_run_last_registered_first() {
    let ms = vec![marker("a"), marker("b")];
    let filtered = apply_request_filters(&ms, Request::new(Method::Get, "http://t".to_string()));
    assert_eq!(trace_of(&filtered.headers), vec!["b".to_string(), "a".to_string()]);
}

#[test]
fn response_filters_run_in_the_exact_reverse_order() {
    let ms = vec![marker("a"), marker("b")];
    let filtered = apply_response_filters(&ms, Response::new(200));
    assert_eq!(trace_of(&filtered.headers), vec!["a".to_string(), "b".to_string()]);
}

#[test]
fn finish_stamps_uri_before_response_filters_run() {
    let client = ClientBuilder::new()
        .with_middleware(marker("a"))
        .with_middleware(marker("b"))
        .build()
        .unwrap();
    let finished = client.finish("http://orig.test".to_string(), Response::new(200));
    assert_eq!(finished.request_uri.as_deref(), Some("http://orig.test"));
    assert_eq!(trace_of(&finished.headers), vec!["a".to_string(), "b".to_string()]);
}

#[test]
fn submit_applies_default_user_agent_and_filters() {
    let mut client = ClientBuilder::new()
        .with_middleware(marker("a"))
        .with_middleware(marker("b"))
        .build()
        .unwrap();
    let request = Request::new(Method::Get, "http://t.test".to_string());
    let id = client.submit(request);
    assert_eq!(id, 0);
    assert_eq!(client.agent.requests[id].uri, "http://t.test");
    assert_eq!(client.agent.queue, vec![0]);
}

#[test]
fn submit_keeps_attached_options_over_client_defaults() {
    let mut client = ClientBuilder::<MarkerMiddleware>::new()
        .options(Options::default().with_timeout(Some(300_000)))
        .build()
        .unwrap();
    let tight = Request::new(Method::Get, "http://a.test".to_string())
        .with_options(Options::default().with_timeout(Some(1)));
    let plain = Request::new(Method::Get, "http://b.test".to_string());
    let tight_id = client.submit(tight);
    let plain_id = client.submit(plain);
    assert_eq!(client.agent.requests[tight_id].options.timeout_ms, Some(1));
    assert_eq!(client.agent.requests[plain_id].options.timeout_ms, Some(300_000));
}

#[test]
fn user_agent_is_inserted_only_when_absent() {
    let custom = Request::new(Method::Get, "http://t".to_string())
        .with_header("user-agent".to_string(), "mine/1.0".to_string())
        .with_default_header("user-agent".to_string(), "default/0".to_string());
    let agents: Vec<&str> = custom
        .headers
        .iter()
        .filter(|h| h.0 == "user-agent")
        .map(|h| h.1.as_str())
        .collect();
    assert_eq!(agents, vec!["mine/1.0"]);

    let bare = Request::new(Method::Get, "http://t".to_string())
        .with_default_header("user-agent".to_string(), "default/0".to_string());
    assert_eq!(bare.headers, vec![("user-agent".to_string(), "default/0".to_string())]);
}

#[test]
fn each_client_owns_an_independent_agent() {
    let mut busy = Client::<MarkerMiddleware>::new().unwrap();
    let mut calm = Client::<MarkerMiddleware>::new().unwrap();
    // load one client heavily
    for i in 0..16 {
        let uri = format!("http://busy.test/{}", i);
        busy.submit(Request::new(Method::Get, uri));
    }
    while busy.agent.bind_next().is_some() {}
    // the other client's request is entirely unaffected
    let id = calm.submit(Request::new(Method::Get, "http://calm.test".to_string()));
    let (req, _) = calm.agent.bind_next().expect("bound at once");
    assert_eq!(req, id);
    calm.agent.start(id);
    calm.agent.connected(id);
    calm.agent.complete(id, Response::new(200));
    assert!(matches!(calm.agent.requests[id].outcome, Some(Ok(_))));
    assert_eq!(calm.agent.requests.len(), 1);
    assert_eq!(busy.agent.requests.len(), 16);
    assert!(busy.agent.requests.iter().all(|e| e.outcome.is_none()));
}

#[test]
fn builder_caps_and_defaults() {
    let builder = ClientBuilder::<MarkerMiddleware>::new();
    assert_eq!(builder.max_handles, DEFAULT_MAX_HANDLES);
    assert_eq!(builder.user_agent, "chttp");
    let client = builder.user_agent("chttp/0.1 curl".to_string()).build().unwrap();
    assert_eq!(client.user_agent, "chttp/0.1 curl");
    assert!(client.agent.accepting);
}

#[test]
fn error_descriptions_name_each_kind() {
    assert_eq!(Error::Init.description(), "failed to start the background execution engine");
    assert_eq!(Error::InvalidRequest.description(), "invalid request");
    assert_eq!(Error::Transport.description(), "transport failure");
    assert_eq!(Error::Timeout.description(), "request timed out");
    assert_eq!(Error::TooManyRedirects.description(), "too many redirects");
    assert_eq!(Error::Cancelled.description(), "request was cancelled");
}

#[test]
fn request_constructors_fill_the_head() {
    let request = Request::new(Method::Post, "http://t.test".to_string())
        .with_body(b"make me a salad".to_vec())
        .with_header("content-type".to_string(), "text/plain".to_string());
    assert!(matches!(request.method, Method::Post));
    assert_eq!(request.uri, "http://t.test");
    assert_eq!(request.body, b"make me a salad".to_vec());
    assert_eq!(request.headers.len(), 1);
    assert!(request.options.is_none());

    let response = Response::new(200).with_body(b"ok".to_vec());
    assert_eq!(response.status, 200);
    assert_eq!(response.body, b"ok".to_vec());
    assert!(response.request_uri.is_none());
}

#[test]
fn version_names_client_then_engine() {
    let line = chttp::version();
    assert!(line.starts_with("chttp/0.1.0 "));
    assert!(line.len() > "chttp/0.1.0 ".len());
}
