//! A verified model of an HTTP client core: a background execution engine
//! (the agent) that multiplexes many in-flight requests over a pool of
//! single-request transport handles, the submission protocol that hands a
//! request from a caller to the agent, and the options resolution and
//! middleware pipeline that run around submission.
//!
//! The actual network transport, threads and futures live outside this
//! library; the library states and proves the decision logic they drive.

use vstd::prelude::*;
use vstd::string::StringExecFns;

pub mod agent;
pub mod client;
pub mod error;
pub mod middleware;
pub mod options;
pub mod request;

verus! {

/// Relies on curl::Version::num: the version string of the libcurl the
/// transport engine links. It depends on the linked library, not on any
/// argument, so nothing is promised of its contents.
#[verifier::external_body]
fn transport_version() -> (r: String) {
    curl::Version::num().to_owned()
}

/// A human-readable version line: this client's own name and version,
/// followed by the version of the transport engine its requests run on.
/// Helpful when troubleshooting either of the two.
pub fn version() -> (r: String)
    ensures
        r@.len() >= "chttp/0.1.0 "@.len(),
        r@.subrange(0, "chttp/0.1.0 "@.len() as int) == "chttp/0.1.0 "@,
{
    let mut line = "chttp/0.1.0 ".to_owned();
    let engine = transport_version();
    line.append(engine.as_str());
    proof {
        assert(line@.subrange(0, "chttp/0.1.0 "@.len() as int) =~= "chttp/0.1.0 "@);
    }
    line
}

} // verus!
