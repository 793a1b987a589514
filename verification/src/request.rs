//! Parsing of a raw HTTP request line: method, path with query
//! parameters, and protocol version. Tokens are matched after ASCII
//! upper-casing; anything unrecognized is a bad request.

use vstd::prelude::*;
use crate::ServerError;
use crate::parsing::spec_resolved_path;
use crate::strutil::{
    ascii_upper, find_char, find_sub, spec_find, spec_find_char, spec_split_char, spec_upper,
    split_char, str_eq,
};

verus! {

#[derive(Clone, Copy, Debug, PartialEq, Eq, Structural)]
pub enum HttpProtocol {
    Http0_9,
    Http1_0,
    Http1_1,
    Http2_0,
}

/// The protocol named by a request-line token, compared after ASCII
/// upper-casing.
pub open spec fn spec_parse_protocol(s: Seq<char>) -> Result<HttpProtocol, ServerError> {
    let u = spec_upper(s);
    if u == "HTTP/0.9"@ {
        Ok(HttpProtocol::Http0_9)
    } else if u == "HTTP/1.0"@ {
        Ok(HttpProtocol::Http1_0)
    } else if u == "HTTP/1.1"@ {
        Ok(HttpProtocol::Http1_1)
    } else if u == "HTTP/2.0"@ {
        Ok(HttpProtocol::Http2_0)
    } else {
        Err(ServerError::BadRequest)
    }
}

impl HttpProtocol {
    /// Parse a protocol token, case-insensitively.
    pub fn try_from(value: &str) -> (r: Result<HttpProtocol, ServerError>)
        ensures
            r == spec_parse_protocol(value@),
    {
        let u = ascii_upper(value);
        if str_eq(u.as_str(), "HTTP/0.9") {
            Ok(HttpProtocol::Http0_9)
        } else if str_eq(u.as_str(), "HTTP/1.0") {
            Ok(HttpProtocol::Http1_0)
        } else if str_eq(u.as_str(), "HTTP/1.1") {
            Ok(HttpProtocol::Http1_1)
        } else if str_eq(u.as_str(), "HTTP/2.0") {
            Ok(HttpProtocol::Http2_0)
        } else {
            Err(ServerError::BadRequest)
        }
    }
}

#[derive(Clone, Copy, Debug, PartialEq, Eq, Structural)]
pub enum HttpMethod {
    Get,
    Post,
    Put,
    Delete,
    Head,
    Options,
    Trace,
    Connect,
    Patch,
}

/// The method named by a request-line token, compared after ASCII
/// upper-casing.
pub open spec fn spec_parse_method(s: Seq<char>) -> Result<HttpMethod, ServerError> {
    let u = spec_upper(s);
    if u == "GET"@ {
        Ok(HttpMethod::Get)
    } else if u == "POST"@ {
        Ok(HttpMethod::Post)
    } else if u == "PUT"@ {
        Ok(HttpMethod::Put)
    } else if u == "DELETE"@ {
        Ok(HttpMethod::Delete)
    } else if u == "HEAD"@ {
        Ok(HttpMethod::Head)
    } else if u == "OPTIONS"@ {
        Ok(HttpMethod::Options)
    } else if u == "TRACE"@ {
        Ok(HttpMethod::Trace)
    } else if u == "CONNECT"@ {
        Ok(HttpMethod::Connect)
    } else if u == "PATCH"@ {
        Ok(HttpMethod::Patch)
    } else {
        Err(ServerError::BadRequest)
    }
}

impl HttpMethod {
    /// Parse a method token, case-insensitively.
    pub fn try_from(value: &str) -> (r: Result<HttpMethod, ServerError>)
        ensures
            r == spec_parse_method(value@),
    {
        let u = ascii_upper(value);
        if str_eq(u.as_str(), "GET") {
            Ok(HttpMethod::Get)
        } else if str_eq(u.as_str(), "POST") {
            Ok(HttpMethod::Post)
        } else if str_eq(u.as_str(), "PUT") {
            Ok(HttpMethod::Put)
        } else if str_eq(u.as_str(), "DELETE") {
            Ok(HttpMethod::Delete)
        } else if str_eq(u.as_str(), "HEAD") {
            Ok(HttpMethod::Head)
        } else if str_eq(u.as_str(), "OPTIONS") {
            Ok(HttpMethod::Options)
        } else if str_eq(u.as_str(), "TRACE") {
            Ok(HttpMethod::Trace)
        } else if str_eq(u.as_str(), "CONNECT") {
            Ok(HttpMethod::Connect)
        } else if str_eq(u.as_str(), "PATCH") {
            Ok(HttpMethod::Patch)
        } else {
            Err(ServerError::BadRequest)
        }
    }
}

/// One `name=value` query parameter; a parameter without `=` keeps its
/// whole text as the name and an empty value.
pub open spec fn spec_query_pair(p: Seq<char>) -> (Seq<char>, Seq<char>) {
    match spec_find_char(p, '=') {
        Some(i) => (p.subrange(0, i), p.subrange(i + 1, p.len() as int)),
        None => (p, Seq::empty()),
    }
}

/// The parameters of a query component: `&`-separated `name=value`
/// pairs, in order.
pub open spec fn spec_query_pairs(q: Seq<char>) -> Seq<(Seq<char>, Seq<char>)> {
    spec_split_char(q, '&').map_values(|p: Seq<char>| spec_query_pair(p))
}

/// How a request-line path parses: the resolved path and its query
/// parameters, or a rejection of a path holding a parent-directory
/// segment.
pub open spec fn spec_parse_server_path(s: Seq<char>) -> Result<
    (Seq<char>, Seq<(Seq<char>, Seq<char>)>),
    ServerError,
> {
    if spec_find(s, ".."@) is Some {
        Err(ServerError::BadRequest)
    } else {
        match spec_find_char(s, '?') {
            Some(i) => Ok(
                (
                    spec_resolved_path(s.subrange(0, i)),
                    spec_query_pairs(s.subrange(i + 1, s.len() as int)),
                ),
            ),
            None => Ok((spec_resolved_path(s), Seq::empty())),
        }
    }
}

/// A request-line path split into its path component and query
/// parameters, with parent-directory segments rejected.
#[derive(Debug)]
pub struct ServerPath {
    path: String,
    params: Vec<(String, String)>,
}

impl View for ServerPath {
    type V = (Seq<char>, Seq<(Seq<char>, Seq<char>)>);

    closed spec fn view(&self) -> (Seq<char>, Seq<(Seq<char>, Seq<char>)>) {
        (self.path@, self.params.deep_view())
    }
}

/// Split a query component into its parameters.
fn parse_query_pairs(q: &str) -> (params: Vec<(String, String)>)
    ensures
        params.deep_view() == spec_query_pairs(q@),
{
    let segs = split_char(q, '&');
    let n: usize = segs.len();
    let ghost pairs = spec_query_pairs(q@);
    proof {
        assert(pairs.len() == n);
        assert(forall|t: int|
            0 <= t < n ==> #[trigger] pairs[t] == spec_query_pair(segs.deep_view()[t]));
    }
    let mut params: Vec<(String, String)> = Vec::new();
    let mut i: usize = 0;
    while i < n
        invariant
            n == segs@.len(),
            segs.deep_view() == spec_split_char(q@, '&'),
            pairs == spec_query_pairs(q@),
            pairs.len() == n,
            forall|t: int|
                0 <= t < n ==> #[trigger] pairs[t] == spec_query_pair(segs.deep_view()[t]),
            i <= n,
            params.deep_view() == pairs.subrange(0, i as int),
        decreases n - i,
    {
        proof {
            assert(segs.deep_view()[i as int] == segs@[i as int]@);
        }
        let seg = segs[i].as_str();
        let sn: usize = seg.unicode_len();
        let ghost prev = params.deep_view();
        match find_char(seg, '=') {
            Some(p) => {
                proof {
                    crate::strutil::lemma_spec_find_char_correct(seg@, '=');
                }
                let name = seg.substring_char(0, p).to_owned();
                let value = seg.substring_char(p + 1, sn).to_owned();
                params.push((name, value));
            },
            None => {
                params.push((seg.to_owned(), String::new()));
            },
        }
        proof {
            assert(params.deep_view() =~= prev.push(spec_query_pair(seg@)));
            assert(pairs.subrange(0, i + 1 as int) =~= prev.push(spec_query_pair(seg@)));
        }
        i = i + 1;
    }
    proof {
        assert(pairs.subrange(0, n as int) =~= pairs);
    }
    params
}

impl ServerPath {
    /// Parse a request-line path: reject parent-directory segments,
    /// split off the query component, drop leading slashes, and let the
    /// empty path stand for the index script.
    pub fn try_from(path: &str) -> (r: Result<ServerPath, ServerError>)
        ensures
            match r {
                Ok(p) => spec_parse_server_path(path@) == Ok::<_, ServerError>(p@),
                Err(e) => spec_parse_server_path(path@) == Err::<
                    (Seq<char>, Seq<(Seq<char>, Seq<char>)>),
                    _,
                >(e),
            },
    {
        if find_sub(path, "..").is_some() {
            return Err(ServerError::BadRequest);
        }
        let n: usize = path.unicode_len();
        let (path_part, params): (&str, Vec<(String, String)>) = match find_char(path, '?') {
            Some(i) => {
                proof {
                    crate::strutil::lemma_spec_find_char_correct(path@, '?');
                }
                (path.substring_char(0, i), parse_query_pairs(path.substring_char(i + 1, n)))
            },
            None => {
                let empty_params: Vec<(String, String)> = Vec::new();
                proof {
                    assert(empty_params.deep_view() =~= Seq::<(Seq<char>, Seq<char>)>::empty());
                }
                (path, empty_params)
            },
        };
        let trimmed = trim_leading_slashes(path_part);
        if trimmed.unicode_len() == 0 {
            Ok(ServerPath { path: "index.nu".to_owned(), params })
        } else {
            Ok(ServerPath { path: trimmed.to_owned(), params })
        }
    }
}

/// Leading `/` characters removed.
fn trim_leading_slashes(s: &str) -> (r: &str)
    ensures
        r@ == crate::parsing::spec_trim_slashes(s@),
{
    let n: usize = s.unicode_len();
    let mut a: usize = 0;
    while a < n && s.get_char(a) == '/'
        invariant
            n == s@.len(),
            a <= n,
            forall|j: int| 0 <= j < a ==> s@[j] == '/',
        decreases n - a,
    {
        a = a + 1;
    }
    proof {
        crate::parsing::lemma_trim_slashes_at(s@, a as int);
    }
    s.substring_char(a, n)
}

/// A parsed request line: method, path with parameters, and protocol.
#[derive(Debug)]
pub struct Request {
    protocol: HttpProtocol,
    method: HttpMethod,
    request_path: ServerPath,
}

/// How a whole request line parses: the first two spaces separate
/// method, path and protocol; the protocol token is checked first, then
/// the method, then the path.
pub open spec fn spec_parse_request(s: Seq<char>) -> Result<
    (HttpMethod, (Seq<char>, Seq<(Seq<char>, Seq<char>)>), HttpProtocol),
    ServerError,
> {
    match spec_find_char(s, ' ') {
        None => Err(ServerError::BadRequest),
        Some(i) => {
            let method_tok = s.subrange(0, i);
            let rest = s.subrange(i + 1, s.len() as int);
            match spec_find_char(rest, ' ') {
                None => Err(ServerError::BadRequest),
                Some(j) => {
                    let path_tok = rest.subrange(0, j);
                    let proto_tok = rest.subrange(j + 1, rest.len() as int);
                    match spec_parse_protocol(proto_tok) {
                        Err(e) => Err(e),
                        Ok(pr) => match spec_parse_method(method_tok) {
                            Err(e) => Err(e),
                            Ok(me) => match spec_parse_server_path(path_tok) {
                                Err(e) => Err(e),
                                Ok(sp) => Ok((me, sp, pr)),
                            },
                        },
                    }
                },
            }
        },
    }
}

impl Request {
    /// The protocol version of the request line.
    pub fn protocol(&self) -> (r: HttpProtocol)
        ensures
            r == self.spec_protocol(),
    {
        self.protocol
    }

    /// The resolved path of the request line.
    pub fn path(&self) -> (r: &str)
        ensures
            r@ == self.spec_path()@.0,
    {
        self.request_path.path.as_str()
    }

    /// The method of the request line.
    pub fn method(&self) -> (r: HttpMethod)
        ensures
            r == self.spec_method(),
    {
        self.method
    }

    /// The query parameters of the request line, in order.
    pub fn query_params(&self) -> (r: &Vec<(String, String)>)
        ensures
            r.deep_view() == self.spec_path()@.1,
    {
        &self.request_path.params
    }

    pub closed spec fn spec_protocol(&self) -> HttpProtocol {
        self.protocol
    }

    pub closed spec fn spec_method(&self) -> HttpMethod {
        self.method
    }

    pub closed spec fn spec_path(&self) -> ServerPath {
        self.request_path
    }

    /// Parse a whole request line.
    pub fn try_from(request_line: &str) -> (r: Result<Request, ServerError>)
        ensures
            match r {
                Ok(req) => spec_parse_request(request_line@) == Ok::<_, ServerError>(
                    (req.spec_method(), req.spec_path()@, req.spec_protocol()),
                ),
                Err(e) => spec_parse_request(request_line@) == Err::<
                    (HttpMethod, (Seq<char>, Seq<(Seq<char>, Seq<char>)>), HttpProtocol),
                    _,
                >(e),
            },
    {
        let n: usize = request_line.unicode_len();
        let i: usize = match find_char(request_line, ' ') {
            Some(i) => i,
            None => {
                return Err(ServerError::BadRequest);
            },
        };
        proof {
            crate::strutil::lemma_spec_find_char_correct(request_line@, ' ');
        }
        let method_tok = request_line.substring_char(0, i);
        let rest = request_line.substring_char(i + 1, n);
        let rn: usize = rest.unicode_len();
        let j: usize = match find_char(rest, ' ') {
            Some(j) => j,
            None => {
                return Err(ServerError::BadRequest);
            },
        };
        proof {
            crate::strutil::lemma_spec_find_char_correct(rest@, ' ');
        }
        let path_tok = rest.substring_char(0, j);
        let proto_tok = rest.substring_char(j + 1, rn);
        let protocol = match HttpProtocol::try_from(proto_tok) {
            Ok(pr) => pr,
            Err(e) => {
                return Err(e);
            },
        };
        let method = match HttpMethod::try_from(method_tok) {
            Ok(me) => me,
            Err(e) => {
                return Err(e);
            },
        };
        let request_path = match ServerPath::try_from(path_tok) {
            Ok(sp) => sp,
            Err(e) => {
                return Err(e);
            },
        };
        Ok(Request { protocol, method, request_path })
    }
}

} // verus!
