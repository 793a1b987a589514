//! The Script Execution Bridge and Response Demarshaller: composes the
//! script text handed to the external interpreter, derives the random
//! per-invocation sentinel strings, and splits the captured interpreter
//! output back into body, header lines and session document.
//!
//! The subprocess itself runs outside the library; the library builds
//! its input and interprets its output, whatever came back.

use vstd::prelude::*;
use crate::ServerError;
use crate::literal::{nu_headers, nu_map, spec_nu_map};
use crate::numeric::{spec_decimal, u128_to_decimal};
use crate::parsing::NuPhpRequest;
use crate::session::{spec_default_blob, default_blob, SessionStore};
use crate::strutil::{
    spec_find_char, spec_split_at_sub, spec_split_char, spec_trim, split_at_sub, split_char, trim,
};

verus! {

/// Relies on `rand::random` (rand's thread-local generator): nothing is
/// promised of the drawn value.
pub assume_specification<T>[ rand::random::<T> ]() -> (r: T)
    where
        rand::distributions::Standard: rand::distributions::Distribution<T>,
;

/// A fresh random token for one invocation's sentinel strings.
pub fn fresh_token() -> u128 {
    rand::random()
}

/// A fresh random session identifier.
pub fn fresh_session_id() -> u64 {
    rand::random()
}

/// The sentinel printed between response body and header lines: a fixed
/// dash prefix, the invocation's token in decimal, and a tag.
pub open spec fn spec_header_sentinel(token: u128) -> Seq<char> {
    "---------------------------"@ + spec_decimal(token as int) + "HEADER"@
}

/// The sentinel printed between header lines and the session document.
pub open spec fn spec_session_sentinel(token: u128) -> Seq<char> {
    "---------------------------"@ + spec_decimal(token as int) + "SESSION"@
}

/// Render the header sentinel for `token`.
pub fn header_sentinel(token: u128) -> (r: String)
    ensures
        r@ == spec_header_sentinel(token),
{
    let mut r = String::new();
    r.append("---------------------------");
    let d = u128_to_decimal(token);
    r.append(d.as_str());
    r.append("HEADER");
    proof {
        assert(Seq::<char>::empty() + "---------------------------"@ + spec_decimal(token as int)
            + "HEADER"@ =~= spec_header_sentinel(token));
    }
    r
}

/// Render the session sentinel for `token`.
pub fn session_sentinel(token: u128) -> (r: String)
    ensures
        r@ == spec_session_sentinel(token),
{
    let mut r = String::new();
    r.append("---------------------------");
    let d = u128_to_decimal(token);
    r.append(d.as_str());
    r.append("SESSION");
    proof {
        assert(Seq::<char>::empty() + "---------------------------"@ + spec_decimal(token as int)
            + "SESSION"@ =~= spec_session_sentinel(token));
    }
    r
}

/// The session text written into the script environment: the stored blob
/// trimmed, or the default empty document when no session exists.
pub open spec fn spec_session_source(session_data: Option<&String>) -> Seq<char> {
    match session_data {
        Some(d) => spec_trim(d@),
        None => spec_default_blob(),
    }
}

/// The complete script text for one invocation: the environment-setup
/// preamble binding the serialized request maps and session document, a
/// directive sourcing the target file, and the output-framing trailer
/// that prints the header sentinel, the outgoing headers, the session
/// sentinel and the session document.
pub open spec fn spec_compose_script(
    path: Seq<char>,
    get: Seq<char>,
    post: Seq<char>,
    req_headers: Seq<char>,
    session: Seq<char>,
    files: Seq<char>,
    hb: Seq<char>,
    sb: Seq<char>,
) -> Seq<char> {
    "\n            const PATH = \""@ + path
        + "\"\n            export-env {\n                $env.GET = "@ + get
        + "\n                $env.POST = "@ + post
        + "\n                $env.REQ_HEADERS = "@ + req_headers
        + "\n                $env.RES_HEADERS = {}\n                $env.SESSION = "@ + session
        + "\n                $env.FILES = "@ + files
        + "\n            }\n            source $PATH\n\n            print \""@ + hb
        + "\"\n            for $it in ($env.RES_HEADERS | transpose key value) {\n                print $\"($it.key): ($it.value)\"\n            }\n\n            print \""@
        + sb + "\"\n            print ($env.SESSION | to json -r)\n            "@
}

/// Compose the script for one invocation from the resolved script path,
/// the Canonical Request Model, the session blob and the two sentinels.
pub fn compose_script(
    script_path: &str,
    req: &NuPhpRequest,
    session_data: Option<&String>,
    hb: &str,
    sb: &str,
) -> (r: String)
    ensures
        r@ == spec_compose_script(
            script_path@,
            spec_nu_map(req.query_params@),
            spec_nu_map(req.post_body@),
            spec_nu_map(req.headers@),
            spec_session_source(session_data),
            spec_nu_map(req.files@),
            hb@,
            sb@,
        ),
{
    let get = nu_map(&req.query_params);
    let post = nu_map(&req.post_body);
    let req_headers = nu_headers(&req.headers);
    let files = nu_map(&req.files);
    let mut r = String::new();
    r.append("\n            const PATH = \"");
    r.append(script_path);
    r.append("\"\n            export-env {\n                $env.GET = ");
    r.append(get.as_str());
    r.append("\n                $env.POST = ");
    r.append(post.as_str());
    r.append("\n                $env.REQ_HEADERS = ");
    r.append(req_headers.as_str());
    r.append("\n                $env.RES_HEADERS = {}\n                $env.SESSION = ");
    match session_data {
        Some(d) => {
            let t = trim(d.as_str());
            r.append(t);
        },
        None => {
            let d = default_blob();
            r.append(d.as_str());
        },
    }
    r.append("\n                $env.FILES = ");
    r.append(files.as_str());
    r.append("\n            }\n            source $PATH\n\n            print \"");
    r.append(hb);
    r.append(
        "\"\n            for $it in ($env.RES_HEADERS | transpose key value) {\n                print $\"($it.key): ($it.value)\"\n            }\n\n            print \"",
    );
    r.append(sb);
    r.append("\"\n            print ($env.SESSION | to json -r)\n            ");
    proof {
        assert(r@ =~= spec_compose_script(
            script_path@,
            spec_nu_map(req.query_params@),
            spec_nu_map(req.post_body@),
            spec_nu_map(req.headers@),
            spec_session_source(session_data),
            spec_nu_map(req.files@),
            hb@,
            sb@,
        ));
    }
    r
}

/// A line with one trailing carriage return removed.
pub open spec fn spec_strip_cr(l: Seq<char>) -> Seq<char> {
    if l.len() > 0 && l.last() == '\r' {
        l.drop_last()
    } else {
        l
    }
}

/// The lines of `s`: segments between `\n` characters, a final empty
/// segment dropped, and one trailing `\r` removed per line.
pub open spec fn spec_lines(s: Seq<char>) -> Seq<Seq<char>> {
    let segs = spec_split_char(s, '\n');
    let kept = if segs.last().len() == 0 {
        segs.drop_last()
    } else {
        segs
    };
    kept.map_values(|l: Seq<char>| spec_strip_cr(l))
}

/// The header pairs the demarshaller reads from the header segment: each
/// non-empty line split at its first `:` into name and value; an empty
/// line, or one with no `:`, is dropped.
pub open spec fn spec_header_pairs(lines: Seq<Seq<char>>) -> Seq<(Seq<char>, Seq<char>)>
    decreases lines.len(),
{
    if lines.len() == 0 {
        Seq::empty()
    } else {
        let rest = spec_header_pairs(lines.drop_last());
        let l = lines.last();
        if l.len() == 0 {
            rest
        } else {
            match spec_find_char(l, ':') {
                Some(i) => rest.push((l.subrange(0, i), l.subrange(i + 1, l.len() as int))),
                None => rest,
            }
        }
    }
}

/// Parse the header segment of the interpreter output into name/value
/// pairs, dropping malformed lines.
pub fn parse_header_lines(text: &str) -> (out: Vec<(String, String)>)
    ensures
        out.deep_view() == spec_header_pairs(spec_lines(text@)),
{
    let segs = split_char(text, '\n');
    proof {
        crate::strutil::lemma_split_char_len(text@, '\n');
    }
    let mut limit: usize = segs.len();
    if segs[limit - 1].as_str().is_empty() {
        limit = limit - 1;
    }
    let ghost lines = spec_lines(text@);
    proof {
        assert(lines.len() == limit);
        assert(forall|i: int|
            0 <= i < limit ==> #[trigger] lines[i] == spec_strip_cr(segs.deep_view()[i]));
    }
    let mut out: Vec<(String, String)> = Vec::new();
    let mut i: usize = 0;
    while i < limit
        invariant
            limit <= segs@.len(),
            segs.deep_view() == spec_split_char(text@, '\n'),
            lines == spec_lines(text@),
            lines.len() == limit,
            forall|t: int|
                0 <= t < limit ==> #[trigger] lines[t] == spec_strip_cr(segs.deep_view()[t]),
            i <= limit,
            out.deep_view() == spec_header_pairs(lines.subrange(0, i as int)),
        decreases limit - i,
    {
        proof {
            assert(lines.subrange(0, i + 1 as int).drop_last() =~= lines.subrange(0, i as int));
            assert(lines.subrange(0, i + 1 as int).last() == lines[i as int]);
            assert(segs.deep_view()[i as int] == segs@[i as int]@);
        }
        let seg = segs[i].as_str();
        let sn: usize = seg.unicode_len();
        let line: &str = if sn > 0 && seg.get_char(sn - 1) == '\r' {
            seg.substring_char(0, sn - 1)
        } else {
            seg
        };
        proof {
            assert(line@ == spec_strip_cr(seg@));
        }
        let ln: usize = line.unicode_len();
        if ln > 0 {
            match crate::strutil::find_char(line, ':') {
                Some(p) => {
                    proof {
                        crate::strutil::lemma_spec_find_char_correct(line@, ':');
                    }
                    let name = line.substring_char(0, p).to_owned();
                    let value = line.substring_char(p + 1, ln).to_owned();
                    let ghost prev = out.deep_view();
                    out.push((name, value));
                    proof {
                        assert(out.deep_view() =~= prev.push(
                            (line@.subrange(0, p as int), line@.subrange(p + 1, line@.len() as int)),
                        ));
                    }
                },
                None => {},
            }
        }
        i = i + 1;
    }
    proof {
        assert(lines.subrange(0, limit as int) =~= lines);
    }
    out
}

/// The three payloads multiplexed into the interpreter output: what
/// stands before the first header sentinel, between it and the first
/// session sentinel, and after that. `None` when a sentinel is missing:
/// the script's own output corrupted the framing.
pub open spec fn spec_demarshal(s: Seq<char>, hb: Seq<char>, sb: Seq<char>) -> Option<
    (Seq<char>, Seq<char>, Seq<char>),
> {
    match spec_split_at_sub(s, hb) {
        Some(p) => match spec_split_at_sub(p.1, sb) {
            Some(q) => Some((p.0, q.0, q.1)),
            None => None,
        },
        None => None,
    }
}

/// The response assembled from one interpreter invocation: the verbatim
/// body, the outgoing header pairs, and the identifier of a session
/// created by this request, if any.
#[derive(Debug)]
pub struct ScriptResponse {
    pub body: String,
    pub headers: Vec<(String, String)>,
    pub new_session: Option<u64>,
}

/// Demarshal the captured interpreter output and settle the session.
///
/// A subprocess failure, or framing corruption, is an internal failure
/// that mutates no session state. On success the body is returned
/// verbatim, the header lines are parsed, and the (trimmed) session
/// document replaces the stored blob: under the presented identifier
/// when the request carried one and no cookie is issued, or under a
/// freshly drawn identifier that the response then carries.
pub fn process_output(
    output: &str,
    exit_ok: bool,
    hb: &str,
    sb: &str,
    session_key: Option<u64>,
    store: &mut SessionStore,
) -> (r: Result<ScriptResponse, ServerError>)
    ensures
        !exit_ok ==> (r matches Err(e) && e == ServerError::InternalServerError && final(store)@
            == old(store)@),
        exit_ok ==> (match spec_demarshal(output@, hb@, sb@) {
            None => r matches Err(e) && e == ServerError::InternalServerError && final(store)@
                == old(store)@,
            Some(parts) => r matches Ok(resp) && resp.body@ == parts.0
                && resp.headers.deep_view() == spec_header_pairs(spec_lines(parts.1)) && (
            match session_key {
                Some(k) => resp.new_session is None && final(store)@ == old(store)@.insert(
                    k,
                    spec_trim(parts.2),
                ),
                None => resp.new_session matches Some(id) && final(store)@ == old(
                    store,
                )@.insert(id, spec_trim(parts.2)),
            }),
        }),
{
    if !exit_ok {
        return Err(ServerError::InternalServerError);
    }
    match split_at_sub(output, hb) {
        None => Err(ServerError::InternalServerError),
        Some((body, rest)) => match split_at_sub(rest, sb) {
            None => Err(ServerError::InternalServerError),
            Some((header_text, session_doc)) => {
                let headers = parse_header_lines(header_text);
                let trimmed = trim(session_doc).to_owned();
                match session_key {
                    Some(k) => {
                        store.store(k, trimmed);
                        Ok(ScriptResponse { body: body.to_owned(), headers, new_session: None })
                    },
                    None => {
                        let id = fresh_session_id();
                        store.store(id, trimmed);
                        Ok(
                            ScriptResponse {
                                body: body.to_owned(),
                                headers,
                                new_session: Some(id),
                            },
                        )
                    },
                }
            },
        },
    }
}

} // verus!
