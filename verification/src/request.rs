//! Request and response model types.
//!
//! A request or response is a head (method or status, URI, headers) paired
//! with a body, plus the side channel the client uses: a request optionally
//! carries an `Options` instance, and a response carries the originally
//! requested URI, stamped on before the first response filter runs.

use vstd::prelude::*;
use crate::options::{Options, OptionsV, attached_view};

verus! {

/// An HTTP request method.
#[derive(Clone, Copy, Debug, PartialEq, Eq)]
pub enum Method {
    Get,
    Head,
    Post,
    Put,
    Delete,
}

/// An outgoing request: head, body, and optionally attached options.
#[derive(Debug)]
pub struct Request {
    pub method: Method,
    pub uri: String,
    /// Header name/value pairs, in insertion order. Names are compared
    /// exactly; callers are expected to use lower-case names.
    pub headers: Vec<(String, String)>,
    pub body: Vec<u8>,
    /// Options attached to this request; absence implies the client default.
    pub options: Option<Options>,
}

/// An incoming response: status, head, body, and the URI of the request it
/// answers, once the client has stamped it on.
#[derive(Debug)]
pub struct Response {
    pub status: u16,
    pub headers: Vec<(String, String)>,
    pub body: Vec<u8>,
    /// The originally requested URI; attached by the client on completion,
    /// before response filters run, so middleware can correlate response to
    /// request.
    pub request_uri: Option<String>,
}

/// The mathematical value of a header list.
pub open spec fn headers_view(headers: Vec<(String, String)>) -> Seq<(Seq<char>, Seq<char>)> {
    headers@.map_values(|h: (String, String)| (h.0@, h.1@))
}

/// The mathematical value of a `Request`.
pub ghost struct RequestV {
    pub method: Method,
    pub uri: Seq<char>,
    pub headers: Seq<(Seq<char>, Seq<char>)>,
    pub body: Seq<u8>,
    pub options: Option<OptionsV>,
}

impl View for Request {
    type V = RequestV;

    open spec fn view(&self) -> RequestV {
        RequestV {
            method: self.method,
            uri: self.uri@,
            headers: headers_view(self.headers),
            body: self.body@,
            options: attached_view(self.options),
        }
    }
}

/// The mathematical value of a `Response`.
pub ghost struct ResponseV {
    pub status: u16,
    pub headers: Seq<(Seq<char>, Seq<char>)>,
    pub body: Seq<u8>,
    pub request_uri: Option<Seq<char>>,
}

impl View for Response {
    type V = ResponseV;

    open spec fn view(&self) -> ResponseV {
        ResponseV {
            status: self.status,
            headers: headers_view(self.headers),
            body: self.body@,
            request_uri: match self.request_uri {
                Some(u) => Some(u@),
                None => None,
            },
        }
    }
}

/// Whether a header list carries a header of the given name.
pub open spec fn has_header(headers: Seq<(Seq<char>, Seq<char>)>, name: Seq<char>) -> bool {
    exists|i: int| 0 <= i < headers.len() && headers[i].0 == name
}

/// A request with the given header inserted only if no header of that name
/// is present yet.
pub open spec fn with_default_header_v(r: RequestV, name: Seq<char>, value: Seq<char>) -> RequestV {
    if has_header(r.headers, name) {
        r
    } else {
        RequestV { headers: r.headers.push((name, value)), ..r }
    }
}

impl Request {
    /// A request with the given method and URI, no headers, an empty body,
    /// and no attached options.
    pub fn new(method: Method, uri: String) -> (r: Request)
        ensures
            r@ == (RequestV {
                method,
                uri: uri@,
                headers: Seq::<(Seq<char>, Seq<char>)>::empty(),
                body: Seq::<u8>::empty(),
                options: None,
            }),
    {
        let r = Request { method, uri, headers: Vec::new(), body: Vec::new(), options: None };
        proof {
            assert(headers_view(r.headers) =~= Seq::<(Seq<char>, Seq<char>)>::empty());
        }
        r
    }

    /// Attach a body to the request.
    pub fn with_body(self, body: Vec<u8>) -> (r: Request)
        ensures
            r@ == (RequestV { body: body@, ..self@ }),
    {
        Request { body, ..self }
    }

    /// Attach an options instance to the request; it will take precedence
    /// over the owning client's defaults.
    pub fn with_options(self, options: Options) -> (r: Request)
        ensures
            r@ == (RequestV { options: Some(options@), ..self@ }),
    {
        Request { options: Some(options), ..self }
    }

    /// Append a header.
    pub fn with_header(self, name: String, value: String) -> (r: Request)
        ensures
            r@ == (RequestV { headers: self@.headers.push((name@, value@)), ..self@ }),
    {
        let mut headers = self.headers;
        let ghost before = headers_view(headers);
        headers.push((name, value));
        proof {
            assert(headers_view(headers) =~= before.push((name@, value@)));
        }
        Request { headers, ..self }
    }

    /// Insert a header only if no header of that name is present yet; used
    /// to give every outgoing request a default user agent.
    pub fn with_default_header(self, name: String, value: String) -> (r: Request)
        ensures
            r@ == with_default_header_v(self@, name@, value@),
    {
        let mut i: usize = 0;
        let n = self.headers.len();
        while i < n
            invariant
                i <= n,
                n == self.headers.len(),
                forall|j: int| 0 <= j < i ==> headers_view(self.headers)[j].0 != name@,
            decreases n - i,
        {
            assert(headers_view(self.headers)[i as int].0 == self.headers@[i as int].0@);
            if self.headers[i].0 == name {
                assert(has_header(self@.headers, name@));
                return self;
            }
            i += 1;
        }
        assert(!has_header(self@.headers, name@));
        let mut headers = self.headers;
        let ghost before = headers_view(headers);
        headers.push((name, value));
        proof {
            assert(headers_view(headers) =~= before.push((name@, value@)));
        }
        Request { headers, ..self }
    }
}

impl Response {
    /// A response with the given status, no headers, an empty body, and no
    /// request URI stamped on yet.
    pub fn new(status: u16) -> (r: Response)
        ensures
            r@ == (ResponseV {
                status,
                headers: Seq::<(Seq<char>, Seq<char>)>::empty(),
                body: Seq::<u8>::empty(),
                request_uri: None,
            }),
    {
        let r = Response { status, headers: Vec::new(), body: Vec::new(), request_uri: None };
        proof {
            assert(headers_view(r.headers) =~= Seq::<(Seq<char>, Seq<char>)>::empty());
        }
        r
    }

    /// Append a header.
    pub fn with_header(self, name: String, value: String) -> (r: Response)
        ensures
            r@ == (ResponseV { headers: self@.headers.push((name@, value@)), ..self@ }),
    {
        let mut headers = self.headers;
        let ghost before = headers_view(headers);
        headers.push((name, value));
        proof {
            assert(headers_view(headers) =~= before.push((name@, value@)));
        }
        Response { headers, ..self }
    }

    /// Attach a body to the response.
    pub fn with_body(self, body: Vec<u8>) -> (r: Response)
        ensures
            r@ == (ResponseV { body: body@, ..self@ }),
    {
        Response { body, ..self }
    }

    /// Stamp the originally requested URI onto the response.
    pub fn with_request_uri(self, uri: String) -> (r: Response)
        ensures
            r@ == (ResponseV { request_uri: Some(uri@), ..self@ }),
    {
        Response { request_uri: Some(uri), ..self }
    }
}

} // verus!
