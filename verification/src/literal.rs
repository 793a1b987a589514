//! The Literal Serializer: renders a multi-valued field map as a record
//! literal the external interpreter parses directly.
//!
//! Per field the value-arity rule applies: exactly one value renders as a
//! bare quoted scalar, two or more as a quoted list in order, and an
//! absent field simply does not appear. Values are embedded verbatim:
//! quote and backslash characters are not escaped, which mirrors the
//! wire format scripts already depend on (a known injection gap, kept
//! deliberately rather than silently changed).

use vstd::prelude::*;
use crate::multimap::MultiMap;
use crate::strutil::push_char;

verus! {

/// `v` wrapped in double quotes, with no escaping of its characters.
pub open spec fn spec_quoted(v: Seq<char>) -> Seq<char> {
    seq!['"'] + v + seq!['"']
}

/// The inner items of a list literal: each value quoted and followed by a
/// comma.
pub open spec fn spec_list_items(vals: Seq<Seq<char>>) -> Seq<char>
    decreases vals.len(),
{
    if vals.len() == 0 {
        Seq::empty()
    } else {
        spec_list_items(vals.drop_last()) + spec_quoted(vals.last()) + seq![',']
    }
}

/// The rendering of one field's value list: empty renders as the empty
/// scalar, a single value as a bare scalar, several values as a list.
pub open spec fn spec_nu_list(vals: Seq<Seq<char>>) -> Seq<char> {
    if vals.len() == 1 {
        spec_quoted(vals[0])
    } else if vals.len() >= 2 {
        seq!['['] + spec_list_items(vals) + seq![']']
    } else {
        seq!['"', '"']
    }
}

/// The inner entries of a record literal: `"key": value,` per field, in
/// map order.
pub open spec fn spec_map_entries(m: Seq<(Seq<char>, Seq<Seq<char>>)>) -> Seq<char>
    decreases m.len(),
{
    if m.len() == 0 {
        Seq::empty()
    } else {
        spec_map_entries(m.drop_last()) + spec_quoted(m.last().0) + seq![':', ' ']
            + spec_nu_list(m.last().1) + seq![',']
    }
}

/// The record literal for a whole field map.
pub open spec fn spec_nu_map(m: Seq<(Seq<char>, Seq<Seq<char>>)>) -> Seq<char> {
    seq!['{'] + spec_map_entries(m) + seq!['}']
}

/// The value-arity rule, stated on its own: a single-valued field renders
/// as a bare scalar, a field with two or more values as a list of them in
/// order, and a field map literal is built from its present entries
/// alone, so an absent field never appears in it.
pub proof fn lemma_literal_arity(vals: Seq<Seq<char>>, m: Seq<(Seq<char>, Seq<Seq<char>>)>)
    ensures
        vals.len() == 1 ==> spec_nu_list(vals) == spec_quoted(vals[0]),
        vals.len() >= 2 ==> spec_nu_list(vals) == seq!['['] + spec_list_items(vals) + seq![']'],
        vals.len() == 0 ==> spec_nu_list(vals) == seq!['"', '"'],
        m.len() > 0 ==> spec_nu_map(m) == seq!['{'] + spec_map_entries(m.drop_last())
            + spec_quoted(m.last().0) + seq![':', ' '] + spec_nu_list(m.last().1) + seq![',']
            + seq!['}'],
        m.len() == 0 ==> spec_nu_map(m) == seq!['{', '}'],
{
    if m.len() > 0 {
        assert(seq!['{'] + (spec_map_entries(m.drop_last()) + spec_quoted(m.last().0) + seq![
            ':',
            ' ',
        ] + spec_nu_list(m.last().1) + seq![',']) + seq!['}'] =~= seq!['{'] + spec_map_entries(
            m.drop_last(),
        ) + spec_quoted(m.last().0) + seq![':', ' '] + spec_nu_list(m.last().1) + seq![','] + seq![
            '}',
        ]);
    } else {
        assert(seq!['{'] + spec_map_entries(m) + seq!['}'] =~= seq!['{', '}']);
    }
}

/// Append `v` in quotes to `out`.
fn push_quoted(out: &mut String, v: &str)
    ensures
        final(out)@ == old(out)@ + spec_quoted(v@),
{
    push_char(out, '"');
    out.append(v);
    push_char(out, '"');
    proof {
        assert(old(out)@.push('"') + v@ + seq!['"'] =~= old(out)@ + spec_quoted(v@));
        assert((old(out)@.push('"') + v@).push('"') =~= old(out)@.push('"') + v@ + seq!['"']);
    }
}

/// Render one field's value list under the value-arity rule.
pub fn nu_list(vals: &Vec<String>) -> (r: String)
    ensures
        r@ == spec_nu_list(vals.deep_view()),
{
    let n: usize = vals.len();
    let mut r = String::new();
    if n == 1 {
        push_quoted(&mut r, vals[0].as_str());
        proof {
            assert(Seq::<char>::empty() + spec_quoted(vals@[0]@) =~= spec_quoted(
                vals.deep_view()[0],
            ));
        }
    } else if n >= 2 {
        push_char(&mut r, '[');
        let mut i: usize = 0;
        while i < n
            invariant
                n == vals@.len(),
                n == vals.deep_view().len(),
                i <= n,
                r@ =~= seq!['['] + spec_list_items(vals.deep_view().subrange(0, i as int)),
            decreases n - i,
        {
            push_quoted(&mut r, vals[i].as_str());
            push_char(&mut r, ',');
            proof {
                let pre = vals.deep_view().subrange(0, i as int);
                let cur = vals.deep_view().subrange(0, i + 1 as int);
                assert(cur.drop_last() =~= pre);
                assert(cur.last() == vals@[i as int]@);
                assert((seq!['['] + spec_list_items(pre) + spec_quoted(vals@[i as int]@)).push(
                    ',',
                ) =~= seq!['['] + spec_list_items(cur));
            }
            i = i + 1;
        }
        push_char(&mut r, ']');
        proof {
            assert(vals.deep_view().subrange(0, n as int) =~= vals.deep_view());
            assert((seq!['['] + spec_list_items(vals.deep_view())).push(']') =~= seq!['[']
                + spec_list_items(vals.deep_view()) + seq![']']);
        }
    } else {
        push_char(&mut r, '"');
        push_char(&mut r, '"');
        proof {
            assert(Seq::<char>::empty().push('"').push('"') =~= seq!['"', '"']);
        }
    }
    r
}

/// Render a whole field map as a record literal, fields in map order.
pub fn nu_map(m: &MultiMap) -> (r: String)
    ensures
        r@ == spec_nu_map(m@),
{
    let n: usize = m.len();
    let mut r = String::new();
    push_char(&mut r, '{');
    let mut i: usize = 0;
    while i < n
        invariant
            n == m@.len(),
            i <= n,
            r@ =~= seq!['{'] + spec_map_entries(m@.subrange(0, i as int)),
        decreases n - i,
    {
        let e = m.entry_at(i);
        push_quoted(&mut r, e.0.as_str());
        push_char(&mut r, ':');
        push_char(&mut r, ' ');
        let list = nu_list(&e.1);
        r.append(list.as_str());
        push_char(&mut r, ',');
        proof {
            let pre = m@.subrange(0, i as int);
            let cur = m@.subrange(0, i + 1 as int);
            assert(cur.drop_last() =~= pre);
            assert(cur.last() == m@[i as int]);
            assert(e.deep_view() == m@[i as int]);
            assert(e.0@ == m@[i as int].0);
            assert(e.1.deep_view() == m@[i as int].1);
            assert(((seq!['{'] + spec_map_entries(pre) + spec_quoted(m@[i as int].0)).push(
                ':',
            ).push(' ') + spec_nu_list(m@[i as int].1)).push(',') =~= seq!['{']
                + spec_map_entries(cur));
        }
        i = i + 1;
    }
    push_char(&mut r, '}');
    proof {
        assert(m@.subrange(0, n as int) =~= m@);
        assert((seq!['{'] + spec_map_entries(m@)).push('}') =~= spec_nu_map(m@));
    }
    r
}

/// Render the request-header map as a record literal. Headers arrive
/// already grouped by name, so the rendering coincides with the field-map
/// rendering.
pub fn nu_headers(h: &MultiMap) -> (r: String)
    ensures
        r@ == spec_nu_map(h@),
{
    nu_map(h)
}

} // verus!
