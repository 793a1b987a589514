//! The Session Store: a concurrent mapping from a 64-bit session
//! identifier to an opaque text blob, plus the cookie handling that
//! carries the identifier between client and server.
//!
//! The store itself is the concurrent map of the `dashmap` crate; the
//! library speaks of its contents through `session_contents` and relies
//! on the map's own atomicity for the create-on-touch step.

use vstd::prelude::*;
use crate::numeric::{parse_u64, spec_decimal, spec_parse_u64, u64_to_decimal};
use crate::strutil::{
    find_char, spec_find_char, spec_split_char, spec_trim, split_char, str_eq, trim,
};

verus! {

#[verifier::external_type_specification]
#[verifier::external_body]
#[verifier::reject_recursive_types(K)]
#[verifier::reject_recursive_types(V)]
#[verifier::reject_recursive_types(S)]
pub struct ExDashMap<K, V, S>(dashmap::DashMap<K, V, S>);

/// What the concurrent map holds, as identifier to blob text.
pub uninterp spec fn session_contents(m: dashmap::DashMap<u64, String>) -> Map<u64, Seq<char>>;

/// A store with no session records.
pub open spec fn spec_empty_store() -> Map<u64, Seq<char>> {
    Map::empty()
}

/// The default session document issued when an identifier is first seen.
pub open spec fn spec_default_blob() -> Seq<char> {
    seq!['{', '}']
}

/// The default session document, an empty record.
pub fn default_blob() -> (r: String)
    ensures
        r@ == spec_default_blob(),
{
    let mut r = String::new();
    crate::strutil::push_char(&mut r, '{');
    crate::strutil::push_char(&mut r, '}');
    proof {
        assert(Seq::<char>::empty().push('{').push('}') =~= spec_default_blob());
    }
    r
}

/// Per-client session state, shared by all concurrent requests.
pub struct SessionStore {
    map: dashmap::DashMap<u64, String>,
}

impl View for SessionStore {
    type V = Map<u64, Seq<char>>;

    closed spec fn view(&self) -> Map<u64, Seq<char>> {
        session_contents(self.map)
    }
}

/// What a lookup of `id` returns: the stored blob, or the default for an
/// unknown identifier.
pub open spec fn spec_lookup_result(m: Map<u64, Seq<char>>, id: u64) -> Seq<char> {
    if m.dom().contains(id) {
        m[id]
    } else {
        spec_default_blob()
    }
}

/// The store after a lookup of `id`: unchanged for a known identifier, a
/// default record created for an unknown one.
pub open spec fn spec_store_after_lookup(m: Map<u64, Seq<char>>, id: u64) -> Map<u64, Seq<char>> {
    if m.dom().contains(id) {
        m
    } else {
        m.insert(id, spec_default_blob())
    }
}

impl SessionStore {
    /// Relies on `dashmap::DashMap::new`: a fresh map holds no entries.
    #[verifier::external_body]
    pub fn new() -> (s: SessionStore)
        ensures
            s@ == spec_empty_store(),
    {
        SessionStore { map: dashmap::DashMap::new() }
    }

    /// Relies on `dashmap::DashMap::entry` and `Entry::or_insert`: in one
    /// atomic step, returns the value under `id`, first inserting the
    /// supplied default when the key is absent.
    #[verifier::external_body]
    fn entry_or_insert(&mut self, id: u64, dflt: String) -> (blob: String)
        ensures
            session_contents(old(self).map).dom().contains(id) ==> blob@ == session_contents(
                old(self).map,
            )[id] && session_contents(final(self).map) == session_contents(old(self).map),
            !session_contents(old(self).map).dom().contains(id) ==> blob@ == dflt@
                && session_contents(final(self).map) == session_contents(old(self).map).insert(
                id,
                dflt@,
            ),
    {
        self.map.entry(id).or_insert(dflt).value().clone()
    }

    /// Relies on `dashmap::DashMap::insert`: unconditional overwrite of
    /// the value under `id`; a later write for the same identifier wins.
    #[verifier::external_body]
    pub fn store(&mut self, id: u64, blob: String)
        ensures
            final(self)@ == old(self)@.insert(id, blob@),
    {
        self.map.insert(id, blob);
    }

    /// Relies on `dashmap::DashMap::get`: the value under `id`, if any,
    /// with the map left unchanged.
    #[verifier::external_body]
    pub fn get(&self, id: u64) -> (r: Option<String>)
        ensures
            match r {
                Some(b) => self@.dom().contains(id) && b@ == self@[id],
                None => !self@.dom().contains(id),
            },
    {
        self.map.get(&id).map(|r| r.value().clone())
    }

    /// The existing blob of `id`, or a freshly created default record for
    /// an identifier never seen before; creation is atomic against
    /// concurrent requests presenting the same identifier.
    pub fn lookup_or_create(&mut self, id: u64) -> (blob: String)
        ensures
            blob@ == spec_lookup_result(old(self)@, id),
            final(self)@ == spec_store_after_lookup(old(self)@, id),
    {
        let d = default_blob();
        self.entry_or_insert(id, d)
    }
}

/// Create-on-touch law: an identifier never seen before yields the
/// default empty document, and the created record is visible to every
/// later lookup of the same identifier, which changes nothing further.
pub proof fn lemma_create_on_touch(m: Map<u64, Seq<char>>, id: u64)
    requires
        !m.dom().contains(id),
    ensures
        spec_lookup_result(m, id) == spec_default_blob(),
        spec_store_after_lookup(m, id).dom().contains(id),
        spec_lookup_result(spec_store_after_lookup(m, id), id) == spec_default_blob(),
        spec_store_after_lookup(spec_store_after_lookup(m, id), id) == spec_store_after_lookup(
            m,
            id,
        ),
{
}

/// Round-trip law: after storing blob `b` under identifier `id`, a lookup
/// of `id` returns exactly `b`, whatever the store held before.
pub proof fn lemma_store_round_trip(m: Map<u64, Seq<char>>, id: u64, b: Seq<char>)
    ensures
        m.insert(id, b).dom().contains(id),
        spec_lookup_result(m.insert(id, b), id) == b,
        spec_store_after_lookup(m.insert(id, b), id) == m.insert(id, b),
{
}

/// The value of the last `name=value` segment of a `;`-separated cookie
/// header whose name is `name`; segments are trimmed, ones without `=`
/// are passed over.
pub open spec fn spec_last_cookie(segs: Seq<Seq<char>>, name: Seq<char>) -> Option<Seq<char>>
    decreases segs.len(),
{
    if segs.len() == 0 {
        None
    } else {
        let t = spec_trim(segs.last());
        match spec_find_char(t, '=') {
            Some(i) => if t.subrange(0, i) == name {
                Some(t.subrange(i + 1, t.len() as int))
            } else {
                spec_last_cookie(segs.drop_last(), name)
            },
            None => spec_last_cookie(segs.drop_last(), name),
        }
    }
}

/// The value the cookie header gives for `name`, if any.
pub open spec fn spec_cookie_value(header: Seq<char>, name: Seq<char>) -> Option<Seq<char>> {
    spec_last_cookie(spec_split_char(header, ';'), name)
}

/// Look up `name` in a `;`-delimited cookie header.
pub fn cookie_value(header: &str, name: &str) -> (r: Option<String>)
    ensures
        match r {
            Some(v) => spec_cookie_value(header@, name@) == Some(v@),
            None => spec_cookie_value(header@, name@) is None,
        },
{
    let segs = split_char(header, ';');
    let n: usize = segs.len();
    proof {
        assert(segs.deep_view().subrange(0, n as int) =~= segs.deep_view());
    }
    let mut j: usize = n;
    while j > 0
        invariant
            n == segs@.len(),
            segs.deep_view() == spec_split_char(header@, ';'),
            j <= n,
            spec_last_cookie(segs.deep_view(), name@) == spec_last_cookie(
                segs.deep_view().subrange(0, j as int),
                name@,
            ),
        decreases j,
    {
        proof {
            assert(segs.deep_view()[j - 1] == segs@[j - 1]@);
            assert(segs.deep_view().subrange(0, j as int).last() == segs.deep_view()[j - 1]);
            assert(segs.deep_view().subrange(0, j as int).drop_last() =~= segs.deep_view()
                .subrange(0, j - 1));
        }
        let t = trim(segs[j - 1].as_str());
        match find_char(t, '=') {
            Some(i) => {
                proof {
                    crate::strutil::lemma_spec_find_char_correct(t@, '=');
                }
                let tn: usize = t.unicode_len();
                let key_part = t.substring_char(0, i);
                if str_eq(key_part, name) {
                    let val = t.substring_char(i + 1, tn);
                    return Some(val.to_owned());
                }
            },
            None => {},
        }
        j = j - 1;
    }
    proof {
        assert(segs.deep_view().subrange(0, 0) =~= Seq::<Seq<char>>::empty());
    }
    None
}

/// The name of the session cookie this bridge reads and issues.
pub open spec fn spec_cookie_name() -> Seq<char> {
    "nu_php_cookie"@
}

/// The session identifier presented by a cookie header: the value of the
/// session cookie, read as a decimal unsigned 64-bit integer. Anything
/// unparseable means no existing session.
pub open spec fn spec_session_id(header: Seq<char>) -> Option<u64> {
    match spec_cookie_value(header, spec_cookie_name()) {
        Some(v) => spec_parse_u64(v),
        None => None,
    }
}

/// Read the session identifier from a cookie header.
pub fn session_id_from_cookie(header: &str) -> (r: Option<u64>)
    ensures
        r == spec_session_id(header@),
{
    match cookie_value(header, "nu_php_cookie") {
        Some(v) => parse_u64(v.as_str()),
        None => None,
    }
}

/// The `Set-Cookie` value issued when a session is created: the session
/// cookie name, the identifier in decimal, and the `HttpOnly` and
/// `SameSite` attributes.
pub open spec fn spec_set_cookie_value(id: u64) -> Seq<char> {
    "nu_php_cookie="@ + spec_decimal(id as int) + "; HttpOnly; SameSite;"@
}

/// Render the `Set-Cookie` value for a freshly created session.
pub fn set_cookie_value(id: u64) -> (r: String)
    ensures
        r@ == spec_set_cookie_value(id),
{
    let mut r = String::new();
    r.append("nu_php_cookie=");
    let d = u64_to_decimal(id);
    r.append(d.as_str());
    r.append("; HttpOnly; SameSite;");
    proof {
        assert(Seq::<char>::empty() + "nu_php_cookie="@ + spec_decimal(id as int)
            + "; HttpOnly; SameSite;"@ =~= spec_set_cookie_value(id));
    }
    r
}

/// The session data for a request: the session identifier its cookie
/// header presents, if any, together with that session's blob, created on
/// first touch. A request without a parseable session cookie touches
/// nothing.
pub fn get_session_data(cookie_header: Option<&str>, store: &mut SessionStore) -> (r: Option<
    (String, u64),
>)
    ensures
        ({
            let sid = match cookie_header {
                Some(h) => spec_session_id(h@),
                None => None,
            };
            match sid {
                None => r is None && final(store)@ == old(store)@,
                Some(id) => r matches Some(p) && p.1 == id && p.0@ == spec_lookup_result(
                    old(store)@,
                    id,
                ) && final(store)@ == spec_store_after_lookup(old(store)@, id),
            }
        }),
{
    match cookie_header {
        Some(h) => match session_id_from_cookie(h) {
            Some(id) => {
                let blob = store.lookup_or_create(id);
                Some((blob, id))
            },
            None => None,
        },
        None => None,
    }
}

} // verus!
