//! A finished HTTP response body with optional headers, and a plain
//! record rendering used for diagnostics.

use vstd::prelude::*;
use crate::strutil::push_char;

verus! {

/// A response as the server hands it back: optional header pairs and the
/// body text.
pub struct Response {
    pub headers: Option<Vec<(String, String)>>,
    pub body: String,
}

/// A borrowed list of `name: value` pairs rendered as a plain record.
pub struct NuRecord<'a, 'b>(&'a [(&'b str, &'b str)]);

/// The line block of a record rendering: one `name: value` line per
/// pair, in order.
pub open spec fn spec_record_lines(m: Seq<(Seq<char>, Seq<char>)>) -> Seq<char>
    decreases m.len(),
{
    if m.len() == 0 {
        Seq::empty()
    } else {
        spec_record_lines(m.drop_last()) + m.last().0 + seq![':', ' '] + m.last().1 + seq!['\n']
    }
}

/// The full record rendering: the lines block in braces.
pub open spec fn spec_nu_record(m: Seq<(Seq<char>, Seq<char>)>) -> Seq<char> {
    seq!['{'] + spec_record_lines(m) + seq!['}']
}

impl<'a, 'b> NuRecord<'a, 'b> {
    /// Wrap a pair list for rendering.
    pub fn of(map: &'a [(&'b str, &'b str)]) -> (r: Self)
        ensures
            r@ == map.deep_view(),
    {
        Self(map)
    }

    /// Render the record as text, one `name: value` line per pair.
    pub fn render(&self) -> (r: String)
        ensures
            r@ == spec_nu_record(self@),
    {
        let n: usize = self.0.len();
        let mut r = String::new();
        push_char(&mut r, '{');
        let mut i: usize = 0;
        while i < n
            invariant
                n == self@.len(),
                i <= n,
                self@ == self.0.deep_view(),
                r@ =~= seq!['{'] + spec_record_lines(self@.subrange(0, i as int)),
            decreases n - i,
        {
            let pair = &self.0[i];
            r.append(pair.0);
            push_char(&mut r, ':');
            push_char(&mut r, ' ');
            r.append(pair.1);
            push_char(&mut r, '\n');
            proof {
                let pre = self@.subrange(0, i as int);
                let cur = self@.subrange(0, i + 1 as int);
                assert(cur.drop_last() =~= pre);
                assert(cur.last() == self@[i as int]);
                assert(self@[i as int] == self.0.deep_view()[i as int]);
                assert(((((seq!['{'] + spec_record_lines(pre)) + self@[i as int].0).push(
                    ':',
                ).push(' ') + self@[i as int].1).push('\n')) =~= seq!['{'] + spec_record_lines(
                    cur,
                ));
            }
            i = i + 1;
        }
        push_char(&mut r, '}');
        proof {
            assert(self@.subrange(0, n as int) =~= self@);
            assert((seq!['{'] + spec_record_lines(self@)).push('}') =~= spec_nu_record(self@));
        }
        r
    }
}

impl<'a, 'b> View for NuRecord<'a, 'b> {
    type V = Seq<(Seq<char>, Seq<char>)>;

    closed spec fn view(&self) -> Seq<(Seq<char>, Seq<char>)> {
        self.0.deep_view()
    }
}

} // verus!
