//! The Multipart/Urlencoded Normalizer: turns a request's raw body, query
//! string and headers into the Canonical Request Model, and the safe
//! server path a request may address.

use vstd::prelude::*;
use crate::ServerError;
use crate::multimap::{spec_group, MultiMap};
use crate::strutil::{find_sub, match_at, spec_find, starts_with_sub, str_eq};
use vstd::string::StringSliceAdditionalSpecFns;

verus! {

/// Leading `/` characters removed.
pub open spec fn spec_trim_slashes(s: Seq<char>) -> Seq<char>
    decreases s.len(),
{
    if s.len() > 0 && s[0] == '/' {
        spec_trim_slashes(s.drop_first())
    } else {
        s
    }
}

pub proof fn lemma_trim_slashes_at(s: Seq<char>, a: int)
    requires
        0 <= a <= s.len(),
        forall|j: int| 0 <= j < a ==> s[j] == '/',
        a < s.len() ==> s[a] != '/',
    ensures
        spec_trim_slashes(s) =~= s.subrange(a, s.len() as int),
    decreases a,
{
    if a == 0 {
        assert(s.subrange(0, s.len() as int) =~= s);
    } else {
        lemma_trim_slashes_at(s.drop_first(), a - 1);
        assert(s.drop_first().subrange(a - 1, s.drop_first().len() as int) =~= s.subrange(
            a,
            s.len() as int,
        ));
    }
}

/// The path a request line resolves to: leading slashes dropped, the
/// empty path standing for the index script.
pub open spec fn spec_resolved_path(s: Seq<char>) -> Seq<char> {
    let t = spec_trim_slashes(s);
    if t.len() == 0 {
        "index.nu"@
    } else {
        t
    }
}

/// Last index holding `c`, if any.
pub open spec fn spec_rfind_char(s: Seq<char>, c: char) -> Option<int>
    decreases s.len(),
{
    if s.len() == 0 {
        None
    } else if s.last() == c {
        Some(s.len() - 1)
    } else {
        spec_rfind_char(s.drop_last(), c)
    }
}

pub proof fn lemma_rfind_char_correct(s: Seq<char>, c: char)
    ensures
        match spec_rfind_char(s, c) {
            Some(i) => 0 <= i < s.len() && s[i] == c && (forall|j: int|
                i < j < s.len() ==> s[j] != c),
            None => forall|j: int| 0 <= j < s.len() ==> s[j] != c,
        },
    decreases s.len(),
{
    if s.len() > 0 && !(s.last() == c) {
        lemma_rfind_char_correct(s.drop_last(), c);
        assert(forall|j: int| 0 <= j < s.len() - 1 ==> #[trigger] s[j] == s.drop_last()[j]);
    }
}

/// Trailing `/` characters removed.
pub open spec fn spec_trim_end_slashes(s: Seq<char>) -> Seq<char>
    decreases s.len(),
{
    if s.len() > 0 && s.last() == '/' {
        spec_trim_end_slashes(s.drop_last())
    } else {
        s
    }
}

proof fn lemma_trim_end_slashes_at(s: Seq<char>, b: int)
    requires
        0 <= b <= s.len(),
        forall|j: int| b <= j < s.len() ==> s[j] == '/',
        b > 0 ==> s[b - 1] != '/',
    ensures
        spec_trim_end_slashes(s) =~= s.subrange(0, b),
    decreases s.len() - b,
{
    if b == s.len() {
        assert(s.subrange(0, s.len() as int) =~= s);
    } else {
        lemma_trim_end_slashes_at(s.drop_last(), b);
        assert(s.drop_last().subrange(0, b) =~= s.subrange(0, b));
    }
}

/// The final component of a path: what follows the last `/`, trailing
/// slashes ignored.
pub open spec fn spec_file_name(p: Seq<char>) -> Seq<char> {
    let t = spec_trim_end_slashes(p);
    match spec_rfind_char(t, '/') {
        Some(i) => t.subrange(i + 1, t.len() as int),
        None => t,
    }
}

/// The extension of the final component: what follows its last `.`, when
/// that dot is not the component's first character.
pub open spec fn spec_extension(p: Seq<char>) -> Option<Seq<char>> {
    let name = spec_file_name(p);
    match spec_rfind_char(name, '.') {
        Some(i) => if i >= 1 {
            Some(name.subrange(i + 1, name.len() as int))
        } else {
            None
        },
        None => None,
    }
}

/// The relative file the request addresses: the resolved path itself, or
/// with the interpreter's default extension appended when it has none.
pub open spec fn spec_script_target(p: Seq<char>) -> Seq<char> {
    if spec_extension(p) is None {
        p + ".nu"@
    } else {
        p
    }
}

/// A request path that is safe to map onto the script directory: it holds
/// no parent-directory segment.
#[derive(Debug)]
pub struct ServerPath {
    path: String,
}

impl View for ServerPath {
    type V = Seq<char>;

    closed spec fn view(&self) -> Seq<char> {
        self.path@
    }
}

impl ServerPath {
    /// Parse and validate a request path: any path containing `..` is
    /// rejected, leading slashes are dropped, and the empty path stands
    /// for the index script.
    pub fn try_from(req_path: &str) -> (r: Result<ServerPath, ServerError>)
        ensures
            match r {
                Ok(p) => spec_find(req_path@, ".."@) is None && p@ == spec_resolved_path(
                    req_path@,
                ),
                Err(e) => spec_find(req_path@, ".."@) is Some && e == ServerError::BadRequest,
            },
    {
        if find_sub(req_path, "..").is_some() {
            return Err(ServerError::BadRequest);
        }
        let n: usize = req_path.unicode_len();
        let mut a: usize = 0;
        while a < n && req_path.get_char(a) == '/'
            invariant
                n == req_path@.len(),
                a <= n,
                forall|j: int| 0 <= j < a ==> req_path@[j] == '/',
            decreases n - a,
        {
            a = a + 1;
        }
        proof {
            lemma_trim_slashes_at(req_path@, a as int);
        }
        let t = req_path.substring_char(a, n);
        if t.unicode_len() == 0 {
            Ok(ServerPath { path: "index.nu".to_owned() })
        } else {
            Ok(ServerPath { path: t.to_owned() })
        }
    }

    /// The validated path.
    pub fn path(&self) -> (r: &str)
        ensures
            r@ == self@,
    {
        self.path.as_str()
    }

    /// The extension of the path's final component, if it has one.
    pub fn extension<'a>(&'a self) -> (r: Option<&'a str>)
        ensures
            match r {
                Some(e) => spec_extension(self@) == Some(e@),
                None => spec_extension(self@) is None,
            },
    {
        let s = self.path.as_str();
        let n: usize = s.unicode_len();
        let mut b: usize = n;
        while b > 0 && s.get_char(b - 1) == '/'
            invariant
                n == s@.len(),
                b <= n,
                forall|j: int| b <= j < n ==> s@[j] == '/',
            decreases b,
        {
            b = b - 1;
        }
        proof {
            lemma_trim_end_slashes_at(s@, b as int);
        }
        let t = s.substring_char(0, b);
        let tn: usize = t.unicode_len();
        let mut name_start: usize = 0;
        let mut k: usize = tn;
        let mut found_slash: bool = false;
        while k > 0 && !found_slash
            invariant
                tn == t@.len(),
                k <= tn,
                !found_slash ==> name_start == 0,
                !found_slash ==> forall|j: int| k <= j < tn ==> t@[j] != '/',
                found_slash ==> k < tn && t@[k as int] == '/' && name_start == k + 1 && (
                forall|j: int| k < j < tn ==> t@[j] != '/'),
            decreases k,
        {
            if t.get_char(k - 1) == '/' {
                found_slash = true;
                name_start = k;
                k = k - 1;
            } else {
                k = k - 1;
            }
        }
        proof {
            lemma_rfind_char_correct(t@, '/');
            if found_slash {
                assert(spec_rfind_char(t@, '/') == Some(name_start - 1));
            } else {
                assert(spec_rfind_char(t@, '/') is None);
            }
        }
        let name = t.substring_char(name_start, tn);
        proof {
            assert(name@ =~= spec_file_name(self@));
        }
        let m: usize = name.unicode_len();
        let mut d: usize = m;
        let mut found_dot: bool = false;
        while d > 0 && !found_dot
            invariant
                m == name@.len(),
                d <= m,
                !found_dot ==> forall|j: int| d <= j < m ==> name@[j] != '.',
                found_dot ==> d < m && name@[d as int] == '.' && (forall|j: int|
                    d < j < m ==> name@[j] != '.'),
            decreases d,
        {
            if name.get_char(d - 1) == '.' {
                found_dot = true;
            }
            d = d - 1;
        }
        proof {
            lemma_rfind_char_correct(name@, '.');
            if found_dot {
                assert(spec_rfind_char(name@, '.') == Some(d as int));
            } else {
                assert(spec_rfind_char(name@, '.') is None);
            }
        }
        if found_dot && d >= 1 {
            Some(name.substring_char(d + 1, m))
        } else {
            None
        }
    }

    /// Whether the request addresses the script interpreter: a path with
    /// no extension, or with the interpreter's own extension. Anything
    /// else is served as a static file, outside the bridge.
    pub fn is_script(&self) -> (r: bool)
        ensures
            r == (spec_extension(self@) is None || spec_extension(self@) == Some("nu"@)),
    {
        match self.extension() {
            None => true,
            Some(e) => str_eq(e, "nu"),
        }
    }

    /// The relative script file this path addresses: itself, or with the
    /// interpreter's default extension appended when it names none.
    pub fn script_target(&self) -> (r: String)
        ensures
            r@ == spec_script_target(self@),
    {
        match self.extension() {
            None => {
                let mut r = self.path.clone();
                r.append(".nu");
                r
            },
            Some(_) => self.path.clone(),
        }
    }
}

/// One normalized request body, in `name -> values` form. Every value
/// list present is non-empty; an absent field is an absent key.
pub struct Response {
    pub headers: Option<Vec<(String, String)>>,
    pub body: Vec<u8>,
}

/// What `form_urlencoded` decoding yields on a byte string: the decoded
/// `(name, value)` pairs, in wire order.
pub uninterp spec fn form_decoded(b: Seq<u8>) -> Seq<(Seq<char>, Seq<char>)>;

/// Relies on `url::form_urlencoded::parse`: splits the bytes on `&` into
/// `name=value` pairs (empty segments passed over, a missing `=` giving
/// an empty value), turns `+` into a space and percent-decodes names and
/// values; the result is a function of the bytes alone, and empty input
/// yields no pairs.
#[verifier::external_body]
fn parse_form_urlencoded(b: &[u8]) -> (pairs: Vec<(String, String)>)
    ensures
        pairs.deep_view() == form_decoded(b@),
        b@.len() == 0 ==> pairs.deep_view().len() == 0,
{
    url::form_urlencoded::parse(b).into_owned().collect()
}

/// The grouped form of a query component: no query means no parameters.
pub open spec fn spec_query_params(query: Option<&str>) -> Seq<(Seq<char>, Seq<Seq<char>>)> {
    match query {
        Some(q) => spec_group(form_decoded(q.spec_bytes())),
        None => Seq::empty(),
    }
}

/// Parse a URL query component into grouped parameters.
pub fn parse_query(query: Option<&str>) -> (m: MultiMap)
    ensures
        m@ == spec_query_params(query),
{
    match query {
        Some(q) => {
            let pairs = parse_form_urlencoded(q.as_bytes());
            crate::multimap::multi_map(&pairs)
        },
        None => MultiMap::new(),
    }
}

/// The largest request body the normalizer accepts, in bytes.
pub const BODY_SIZE_CAP: u64 = 65536;

/// The Canonical Request Model: query parameters, posted fields, request
/// headers and uploaded files, all as multi-valued string maps.
#[derive(Debug)]
pub struct NuPhpRequest {
    pub post_body: MultiMap,
    pub query_params: MultiMap,
    pub headers: MultiMap,
    pub files: MultiMap,
}

impl NuPhpRequest {
    /// The model of a request whose body is not parsed: posted fields
    /// and files stay empty, while query parameters are populated from
    /// the URL's query component whatever the content type was.
    pub fn new(query: Option<&str>, headers: MultiMap) -> (r: NuPhpRequest)
        ensures
            r.post_body@ =~= Seq::<(Seq<char>, Seq<Seq<char>>)>::empty(),
            r.query_params@ == spec_query_params(query),
            r.files@ =~= Seq::<(Seq<char>, Seq<Seq<char>>)>::empty(),
            r.headers@ == headers@,
    {
        NuPhpRequest {
            post_body: MultiMap::new(),
            query_params: parse_query(query),
            files: MultiMap::new(),
            headers,
        }
    }

    /// Normalize a URL-encoded body: every `key=value` pair of the body
    /// appends its value to the field's list; query parameters are parsed
    /// the same way; an oversized body is rejected before any parsing.
    pub fn parse_url_encoded(
        body: &Vec<u8>,
        query: Option<&str>,
        headers: MultiMap,
    ) -> (r: Result<NuPhpRequest, ServerError>)
        ensures
            body@.len() > BODY_SIZE_CAP ==> (r matches Err(e) && e == ServerError::BadRequest),
            body@.len() <= BODY_SIZE_CAP ==> (r matches Ok(req) && req.post_body@ == spec_group(
                form_decoded(body@),
            ) && req.query_params@ == spec_query_params(query) && req.files@ =~= Seq::<
                (Seq<char>, Seq<Seq<char>>),
            >::empty() && req.headers@ == headers@),
    {
        if body.len() > 65536 {
            return Err(ServerError::BadRequest);
        }
        let pairs = parse_form_urlencoded(body.as_slice());
        let post_body = crate::multimap::multi_map(&pairs);
        let query_params = parse_query(query);
        Ok(NuPhpRequest { post_body, query_params, headers, files: MultiMap::new() })
    }
}

/// One decoded multipart part: a plain field value, or an upload spilled
/// to a temporary file under `temp_path`, keeping the client-supplied
/// file name.
pub enum PartData {
    Field(String),
    File { file_name: String, temp_path: String },
}

/// A multipart body part, in wire order.
pub struct MultipartPart {
    pub name: String,
    pub data: PartData,
}

/// The `name=value` pairs a part list contributes to the posted fields: a
/// plain field contributes its value, an upload its client file name.
pub open spec fn spec_post_pairs(parts: Seq<MultipartPart>) -> Seq<(Seq<char>, Seq<char>)>
    decreases parts.len(),
{
    if parts.len() == 0 {
        Seq::empty()
    } else {
        spec_post_pairs(parts.drop_last()).push(
            (
                parts.last().name@,
                match parts.last().data {
                    PartData::Field(v) => v@,
                    PartData::File { file_name, .. } => file_name@,
                },
            ),
        )
    }
}

/// The `name=path` pairs the uploads among the parts contribute to the
/// files map.
pub open spec fn spec_file_pairs(parts: Seq<MultipartPart>) -> Seq<(Seq<char>, Seq<char>)>
    decreases parts.len(),
{
    if parts.len() == 0 {
        Seq::empty()
    } else {
        let rest = spec_file_pairs(parts.drop_last());
        match parts.last().data {
            PartData::File { temp_path, .. } => rest.push((parts.last().name@, temp_path@)),
            PartData::Field(_) => rest,
        }
    }
}

impl NuPhpRequest {
    /// Normalize a multipart body from its decoded parts, in wire order:
    /// a plain part appends its text to the field's list; an upload
    /// appends the client-supplied file name there and records the
    /// temporary file's path in the files map. A body whose declared size
    /// exceeds the cap is rejected before any parsing.
    pub fn parse_mulitpart(
        parts: &Vec<MultipartPart>,
        query: Option<&str>,
        headers: MultiMap,
        declared_len: u64,
    ) -> (r: Result<NuPhpRequest, ServerError>)
        ensures
            declared_len > BODY_SIZE_CAP ==> (r matches Err(e) && e == ServerError::BadRequest),
            declared_len <= BODY_SIZE_CAP ==> (r matches Ok(req) && req.post_body@ == spec_group(
                spec_post_pairs(parts@),
            ) && req.files@ == spec_group(spec_file_pairs(parts@)) && req.query_params@
                == spec_query_params(query) && req.headers@ == headers@),
    {
        if declared_len > 65536 {
            return Err(ServerError::BadRequest);
        }
        let n: usize = parts.len();
        let mut post_body = MultiMap::new();
        let mut files = MultiMap::new();
        let mut i: usize = 0;
        while i < n
            invariant
                n == parts@.len(),
                i <= n,
                post_body@ == spec_group(spec_post_pairs(parts@.subrange(0, i as int))),
                files@ == spec_group(spec_file_pairs(parts@.subrange(0, i as int))),
            decreases n - i,
        {
            proof {
                assert(parts@.subrange(0, i + 1 as int).drop_last() =~= parts@.subrange(
                    0,
                    i as int,
                ));
                assert(parts@.subrange(0, i + 1 as int).last() == parts@[i as int]);
            }
            let ghost ppre = spec_post_pairs(parts@.subrange(0, i as int));
            let ghost pcur = spec_post_pairs(parts@.subrange(0, i + 1 as int));
            let ghost fpre = spec_file_pairs(parts@.subrange(0, i as int));
            let ghost fcur = spec_file_pairs(parts@.subrange(0, i + 1 as int));
            let part = &parts[i];
            match &part.data {
                PartData::Field(v) => {
                    proof {
                        assert(pcur =~= ppre.push((part.name@, v@)));
                        assert(pcur.drop_last() =~= ppre);
                        assert(fcur =~= fpre);
                    }
                    post_body.add(part.name.clone(), v.clone());
                },
                PartData::File { file_name, temp_path } => {
                    proof {
                        assert(pcur =~= ppre.push((part.name@, file_name@)));
                        assert(pcur.drop_last() =~= ppre);
                        assert(fcur =~= fpre.push((part.name@, temp_path@)));
                        assert(fcur.drop_last() =~= fpre);
                    }
                    post_body.add(part.name.clone(), file_name.clone());
                    files.add(part.name.clone(), temp_path.clone());
                },
            }
            i = i + 1;
        }
        proof {
            assert(parts@.subrange(0, n as int) =~= parts@);
        }
        let query_params = parse_query(query);
        Ok(NuPhpRequest { post_body, query_params, headers, files })
    }
}

/// How a request body is to be normalized, read off its content type.
#[derive(Debug)]
pub enum BodyKind {
    UrlEncoded,
    Multipart(String),
    Plain,
}

/// The multipart boundary named by a content-type value: what stands
/// between the first `boundary=` and the next one, or the end.
pub open spec fn spec_boundary_of(v: Seq<char>) -> Seq<char>
    recommends
        spec_find(v, "boundary="@) is Some,
{
    let i = spec_find(v, "boundary="@).unwrap() + "boundary="@.len();
    let rest = v.subrange(i, v.len() as int);
    match spec_find(rest, "boundary="@) {
        Some(j) => rest.subrange(0, j),
        None => rest,
    }
}

/// Classify a request's content type: the URL-encoded form type, a
/// multipart type carrying its boundary, or anything else, which leaves
/// the body unparsed. A multipart type without a boundary is rejected.
pub fn classify_content_type(ct: Option<&str>) -> (r: Result<BodyKind, ServerError>)
    ensures
        match ct {
            None => r matches Ok(k) && k is Plain,
            Some(v) => {
                if v@ == "application/x-www-form-urlencoded"@ {
                    r matches Ok(k) && k is UrlEncoded
                } else if match_at(v@, "multipart/form-data"@, 0) {
                    match spec_find(v@, "boundary="@) {
                        Some(_) => r matches Ok(k) && k matches BodyKind::Multipart(b) && b@
                            == spec_boundary_of(v@),
                        None => r matches Err(e) && e == ServerError::BadRequest,
                    }
                } else {
                    r matches Ok(k) && k is Plain
                }
            },
        },
{
    match ct {
        None => Ok(BodyKind::Plain),
        Some(v) => {
            if str_eq(v, "application/x-www-form-urlencoded") {
                Ok(BodyKind::UrlEncoded)
            } else if starts_with_sub(v, "multipart/form-data") {
                let n: usize = v.unicode_len();
                let key_len: usize = "boundary=".unicode_len();
                match find_sub(v, "boundary=") {
                    Some(i) => {
                        proof {
                            crate::strutil::lemma_spec_find_correct(v@, "boundary="@);
                        }
                        let rest = v.substring_char(i + key_len, n);
                        let rn: usize = rest.unicode_len();
                        match find_sub(rest, "boundary=") {
                            Some(j) => {
                                proof {
                                    crate::strutil::lemma_spec_find_correct(rest@, "boundary="@);
                                }
                                Ok(BodyKind::Multipart(rest.substring_char(0, j).to_owned()))
                            },
                            None => Ok(BodyKind::Multipart(rest.to_owned())),
                        }
                    },
                    None => Err(ServerError::BadRequest),
                }
            } else {
                Ok(BodyKind::Plain)
            }
        },
    }
}

} // verus!
