//! Character-level string utilities: substring search, splitting, trimming
//! and ASCII case folding, each against a spec over `Seq<char>`.

use vstd::prelude::*;

verus! {

/// Relies on std's `String::push`: appends exactly the given character.
#[verifier::external_body]
pub(crate) fn push_char(s: &mut String, c: char)
    ensures
        final(s)@ == old(s)@.push(c),
{
    s.push(c);
}

/// `pat` occurs in `s` starting at position `i`.
pub open spec fn match_at(s: Seq<char>, pat: Seq<char>, i: int) -> bool {
    &&& 0 <= i
    &&& i + pat.len() <= s.len()
    &&& s.subrange(i, i + pat.len() as int) == pat
}

/// Position of the first occurrence of `pat` in `s`, if any.
pub open spec fn spec_find(s: Seq<char>, pat: Seq<char>) -> Option<int>
    decreases s.len(),
{
    if pat.len() == 0 {
        Some(0)
    } else if s.len() < pat.len() {
        None
    } else if s.subrange(0, pat.len() as int) == pat {
        Some(0)
    } else {
        match spec_find(s.drop_first(), pat) {
            Some(i) => Some(i + 1),
            None => None,
        }
    }
}

/// `spec_find` returns the first match position, and `None` only when no
/// position matches.
pub proof fn lemma_spec_find_correct(s: Seq<char>, pat: Seq<char>)
    ensures
        match spec_find(s, pat) {
            Some(i) => match_at(s, pat, i) && (forall|j: int| 0 <= j < i ==> !match_at(s, pat, j)),
            None => forall|j: int| !match_at(s, pat, j),
        },
    decreases s.len(),
{
    if pat.len() == 0 {
        assert(s.subrange(0, 0) =~= pat);
        assert(match_at(s, pat, 0));
    } else if s.len() < pat.len() {
        assert(forall|j: int| !match_at(s, pat, j));
    } else if s.subrange(0, pat.len() as int) == pat {
        assert(match_at(s, pat, 0));
    } else {
        lemma_spec_find_correct(s.drop_first(), pat);
        assert forall|j: int| 1 <= j implies match_at(s, pat, j) == match_at(
            s.drop_first(),
            pat,
            j - 1,
        ) by {
            lemma_match_shift(s, pat, j);
        }
        assert(!match_at(s, pat, 0));
    }
}

/// Matching `pat` at `j >= 1` in `s` is matching it at `j - 1` in the tail.
proof fn lemma_match_shift(s: Seq<char>, pat: Seq<char>, j: int)
    requires
        1 <= j,
        1 <= s.len(),
    ensures
        match_at(s, pat, j) == match_at(s.drop_first(), pat, j - 1),
{
    if j + pat.len() <= s.len() {
        let t = s.drop_first();
        assert(t.subrange(j - 1, j - 1 + pat.len() as int) =~= s.subrange(
            j,
            j + pat.len() as int,
        )) by {
            assert forall|k: int| 0 <= k < pat.len() implies #[trigger] t.subrange(
                j - 1,
                j - 1 + pat.len() as int,
            )[k] == s.subrange(j, j + pat.len() as int)[k] by {
                assert(t.subrange(j - 1, j - 1 + pat.len() as int)[k] == t[j - 1 + k]);
                assert(t[j - 1 + k] == s[j + k]);
            }
        }
    }
}

/// Position of the first occurrence of the character `c` in `s`, if any.
pub open spec fn spec_find_char(s: Seq<char>, c: char) -> Option<int>
    decreases s.len(),
{
    if s.len() == 0 {
        None
    } else if s[0] == c {
        Some(0)
    } else {
        match spec_find_char(s.drop_first(), c) {
            Some(i) => Some(i + 1),
            None => None,
        }
    }
}

/// `spec_find_char` returns the first position holding `c`, and `None` only
/// when no position holds it.
pub proof fn lemma_spec_find_char_correct(s: Seq<char>, c: char)
    ensures
        match spec_find_char(s, c) {
            Some(i) => 0 <= i < s.len() && s[i] == c && (forall|j: int|
                0 <= j < i ==> s[j] != c),
            None => forall|j: int| 0 <= j < s.len() ==> s[j] != c,
        },
    decreases s.len(),
{
    if s.len() == 0 {
    } else if s[0] == c {
    } else {
        lemma_spec_find_char_correct(s.drop_first(), c);
        assert(forall|j: int| 1 <= j < s.len() ==> #[trigger] s[j] == s.drop_first()[j - 1]);
    }
}

/// First index at which `pat` occurs in `s`, scanning left to right.
pub fn find_sub(s: &str, pat: &str) -> (r: Option<usize>)
    ensures
        match r {
            Some(i) => spec_find(s@, pat@) == Some(i as int),
            None => spec_find(s@, pat@) is None,
        },
{
    let n: usize = s.unicode_len();
    let m: usize = pat.unicode_len();
    proof {
        lemma_spec_find_correct(s@, pat@);
    }
    if m > n {
        return None;
    }
    let mut i: usize = 0;
    while i <= n - m
        invariant
            m <= n,
            n == s@.len(),
            m == pat@.len(),
            i <= n - m + 1,
            forall|j: int| 0 <= j < i ==> !match_at(s@, pat@, j),
            match spec_find(s@, pat@) {
                Some(k) => match_at(s@, pat@, k) && (forall|j: int|
                    0 <= j < k ==> !match_at(s@, pat@, j)),
                None => forall|j: int| !match_at(s@, pat@, j),
            },
        decreases n - m + 1 - i,
    {
        let seg = s.substring_char(i, i + m);
        if str_eq(seg, pat) {
            proof {
                assert(match_at(s@, pat@, i as int));
            }
            return Some(i);
        }
        proof {
            assert(!match_at(s@, pat@, i as int));
        }
        i = i + 1;
    }
    proof {
        assert(forall|j: int| !match_at(s@, pat@, j));
    }
    None
}

/// First index of the character `c` in `s`.
pub fn find_char(s: &str, c: char) -> (r: Option<usize>)
    ensures
        match r {
            Some(i) => spec_find_char(s@, c) == Some(i as int),
            None => spec_find_char(s@, c) is None,
        },
{
    let n: usize = s.unicode_len();
    proof {
        lemma_spec_find_char_correct(s@, c);
    }
    let mut i: usize = 0;
    while i < n
        invariant
            n == s@.len(),
            i <= n,
            forall|j: int| 0 <= j < i ==> s@[j] != c,
            match spec_find_char(s@, c) {
                Some(k) => 0 <= k < s@.len() && s@[k] == c && (forall|j: int|
                    0 <= j < k ==> s@[j] != c),
                None => forall|j: int| 0 <= j < s@.len() ==> s@[j] != c,
            },
        decreases n - i,
    {
        if s.get_char(i) == c {
            return Some(i);
        }
        i = i + 1;
    }
    None
}

/// The two strings hold the same characters.
pub fn str_eq(a: &str, b: &str) -> (r: bool)
    ensures
        r == (a@ == b@),
{
    let n: usize = a.unicode_len();
    if n != b.unicode_len() {
        return false;
    }
    let mut i: usize = 0;
    while i < n
        invariant
            n == a@.len(),
            n == b@.len(),
            i <= n,
            forall|j: int| 0 <= j < i ==> a@[j] == b@[j],
        decreases n - i,
    {
        if a.get_char(i) != b.get_char(i) {
            return false;
        }
        i = i + 1;
    }
    proof {
        assert(a@ =~= b@);
    }
    true
}

/// `s` split around the first occurrence of `pat`: the part before it
/// and the part after it, the occurrence itself dropped.
pub open spec fn spec_split_at_sub(s: Seq<char>, pat: Seq<char>) -> Option<(Seq<char>, Seq<char>)> {
    match spec_find(s, pat) {
        Some(i) => Some((s.subrange(0, i), s.subrange(i + pat.len() as int, s.len() as int))),
        None => None,
    }
}

/// Split `s` at the first occurrence of `pat`.
pub fn split_at_sub<'a>(s: &'a str, pat: &str) -> (r: Option<(&'a str, &'a str)>)
    ensures
        match r {
            Some(p) => spec_split_at_sub(s@, pat@) == Some((p.0@, p.1@)),
            None => spec_split_at_sub(s@, pat@) is None,
        },
{
    let n: usize = s.unicode_len();
    let m: usize = pat.unicode_len();
    match find_sub(s, pat) {
        Some(i) => {
            proof {
                lemma_spec_find_correct(s@, pat@);
            }
            let before = s.substring_char(0, i);
            let after = s.substring_char(i + m, n);
            Some((before, after))
        },
        None => None,
    }
}

/// Segments of `s` between occurrences of `sep`: always at least one
/// segment, one more segment per separator, separators not kept.
pub open spec fn spec_split_char(s: Seq<char>, sep: char) -> Seq<Seq<char>>
    decreases s.len(),
{
    if s.len() == 0 {
        seq![Seq::<char>::empty()]
    } else {
        let rest = spec_split_char(s.drop_first(), sep);
        if s[0] == sep {
            seq![Seq::<char>::empty()] + rest
        } else {
            seq![seq![s[0]] + rest[0]] + rest.drop_first()
        }
    }
}

pub proof fn lemma_split_char_len(s: Seq<char>, sep: char)
    ensures
        spec_split_char(s, sep).len() >= 1,
    decreases s.len(),
{
    if s.len() > 0 {
        lemma_split_char_len(s.drop_first(), sep);
    }
}

/// Extending the input by one character extends the last segment, or opens
/// a new empty one when the character is the separator.
proof fn lemma_split_char_push(s: Seq<char>, sep: char, c: char)
    ensures
        c == sep ==> spec_split_char(s.push(c), sep) =~= spec_split_char(s, sep) + seq![
            Seq::<char>::empty(),
        ],
        c != sep ==> spec_split_char(s.push(c), sep) =~= spec_split_char(s, sep).drop_last()
            + seq![spec_split_char(s, sep).last().push(c)],
    decreases s.len(),
{
    lemma_split_char_len(s, sep);
    if s.len() == 0 {
        assert(s.push(c).drop_first() =~= Seq::<char>::empty());
        assert(spec_split_char(s, sep) =~= seq![Seq::<char>::empty()]);
        if c != sep {
            assert(seq![s.push(c)[0]] + spec_split_char(s.push(c).drop_first(), sep)[0]
                =~= seq![c]);
            assert(spec_split_char(s, sep).last().push(c) =~= seq![c]);
        } else {
            assert(spec_split_char(s.push(c), sep) =~= seq![Seq::<char>::empty()]
                + spec_split_char(Seq::<char>::empty(), sep));
        }
    } else {
        lemma_split_char_push(s.drop_first(), sep, c);
        lemma_split_char_len(s.drop_first(), sep);
        assert(s.push(c).drop_first() =~= s.drop_first().push(c));
        let rest = spec_split_char(s.drop_first(), sep);
        let restc = spec_split_char(s.drop_first().push(c), sep);
        if s[0] == sep {
            assert(spec_split_char(s.push(c), sep) =~= seq![Seq::<char>::empty()] + restc);
            assert(spec_split_char(s, sep) =~= seq![Seq::<char>::empty()] + rest);
        } else {
            assert(spec_split_char(s.push(c), sep) =~= seq![seq![s[0]] + restc[0]]
                + restc.drop_first());
            assert(spec_split_char(s, sep) =~= seq![seq![s[0]] + rest[0]] + rest.drop_first());
            if c == sep {
                assert(restc =~= rest + seq![Seq::<char>::empty()]);
                assert(restc[0] == rest[0]);
                assert(restc.drop_first() =~= rest.drop_first() + seq![Seq::<char>::empty()]);
            } else {
                assert(restc =~= rest.drop_last() + seq![rest.last().push(c)]);
                if rest.len() == 1 {
                    assert(restc[0] == rest[0].push(c));
                    assert((seq![seq![s[0]] + restc[0]])[0] =~= (seq![s[0]] + rest[0]).push(c));
                } else {
                    assert(restc[0] == rest[0]);
                    assert(restc.drop_first() =~= rest.drop_first().drop_last() + seq![
                        rest.last().push(c),
                    ]);
                }
            }
        }
    }
}

/// Split `s` into the segments between occurrences of `sep`.
pub fn split_char(s: &str, sep: char) -> (parts: Vec<String>)
    ensures
        parts.deep_view() == spec_split_char(s@, sep),
{
    let n: usize = s.unicode_len();
    let mut done: Vec<String> = Vec::new();
    let mut cur: String = String::new();
    let mut i: usize = 0;
    while i < n
        invariant
            n == s@.len(),
            i <= n,
            done.deep_view() + seq![cur@] =~= spec_split_char(s@.subrange(0, i as int), sep),
        decreases n - i,
    {
        let c = s.get_char(i);
        proof {
            lemma_split_char_push(s@.subrange(0, i as int), sep, c);
            lemma_split_char_len(s@.subrange(0, i as int), sep);
            assert(s@.subrange(0, i + 1 as int) =~= s@.subrange(0, i as int).push(c));
        }
        if c == sep {
            let ghost prev_done = done.deep_view();
            let ghost prev_cur = cur@;
            done.push(cur);
            cur = String::new();
            proof {
                assert(done.deep_view() =~= prev_done.push(prev_cur));
                assert(done.deep_view() + seq![cur@] =~= spec_split_char(
                    s@.subrange(0, i + 1 as int),
                    sep,
                ));
            }
        } else {
            push_char(&mut cur, c);
            proof {
                assert(done.deep_view() + seq![cur@] =~= spec_split_char(
                    s@.subrange(0, i + 1 as int),
                    sep,
                ));
            }
        }
        i = i + 1;
    }
    proof {
        assert(s@.subrange(0, n as int) =~= s@);
    }
    let ghost prev_done = done.deep_view();
    let ghost prev_cur = cur@;
    done.push(cur);
    proof {
        assert(done.deep_view() =~= prev_done.push(prev_cur));
        assert(done.deep_view() =~= spec_split_char(s@, sep));
    }
    done
}

/// The characters counted as whitespace when a value is trimmed.
pub open spec fn is_ws(c: char) -> bool {
    c == ' ' || c == '\t' || c == '\n' || c == '\r' || c == '\u{B}' || c == '\u{C}'
}

/// `s` without its leading whitespace.
pub open spec fn spec_trim_start(s: Seq<char>) -> Seq<char>
    decreases s.len(),
{
    if s.len() > 0 && is_ws(s[0]) {
        spec_trim_start(s.drop_first())
    } else {
        s
    }
}

/// `s` without its trailing whitespace.
pub open spec fn spec_trim_end(s: Seq<char>) -> Seq<char>
    decreases s.len(),
{
    if s.len() > 0 && is_ws(s.last()) {
        spec_trim_end(s.drop_last())
    } else {
        s
    }
}

/// `s` without leading and trailing whitespace.
pub open spec fn spec_trim(s: Seq<char>) -> Seq<char> {
    spec_trim_end(spec_trim_start(s))
}

proof fn lemma_trim_start_at(s: Seq<char>, a: int)
    requires
        0 <= a <= s.len(),
        forall|j: int| 0 <= j < a ==> is_ws(s[j]),
        a < s.len() ==> !is_ws(s[a]),
    ensures
        spec_trim_start(s) =~= s.subrange(a, s.len() as int),
    decreases a,
{
    if a == 0 {
        if s.len() > 0 && is_ws(s[0]) {
            assert(false);
        }
        assert(s.subrange(0, s.len() as int) =~= s);
    } else {
        lemma_trim_start_at(s.drop_first(), a - 1);
        assert(s.drop_first().subrange(a - 1, s.drop_first().len() as int) =~= s.subrange(
            a,
            s.len() as int,
        ));
    }
}

proof fn lemma_trim_end_at(s: Seq<char>, b: int)
    requires
        0 <= b <= s.len(),
        forall|j: int| b <= j < s.len() ==> is_ws(s[j]),
        b > 0 ==> !is_ws(s[b - 1]),
    ensures
        spec_trim_end(s) =~= s.subrange(0, b),
    decreases s.len() - b,
{
    if b == s.len() {
        if s.len() > 0 && is_ws(s.last()) {
            assert(false);
        }
        assert(s.subrange(0, s.len() as int) =~= s);
    } else {
        assert(is_ws(s.last()));
        lemma_trim_end_at(s.drop_last(), b);
        assert(s.drop_last().subrange(0, b) =~= s.subrange(0, b));
    }
}

/// `s` with leading and trailing whitespace removed.
pub fn trim(s: &str) -> (r: &str)
    ensures
        r@ == spec_trim(s@),
{
    let n: usize = s.unicode_len();
    let mut a: usize = 0;
    while a < n && is_ws_char(s.get_char(a))
        invariant
            n == s@.len(),
            a <= n,
            forall|j: int| 0 <= j < a ==> is_ws(s@[j]),
        decreases n - a,
    {
        a = a + 1;
    }
    let mut b: usize = n;
    while b > a && is_ws_char(s.get_char(b - 1))
        invariant
            n == s@.len(),
            a <= b <= n,
            forall|j: int| 0 <= j < a ==> is_ws(s@[j]),
            a < n ==> !is_ws(s@[a as int]),
            forall|j: int| b <= j < n ==> is_ws(s@[j]),
        decreases b,
    {
        b = b - 1;
    }
    let r = s.substring_char(a, b);
    proof {
        lemma_trim_start_at(s@, a as int);
        let t = s@.subrange(a as int, n as int);
        if b > a {
            lemma_trim_end_at(t, b - a);
        } else {
            lemma_trim_end_at(t, 0);
        }
        assert(t.subrange(0, b - a) =~= s@.subrange(a as int, b as int));
    }
    r
}

/// Whether trimming treats `c` as whitespace.
pub fn is_ws_char(c: char) -> (r: bool)
    ensures
        r == is_ws(c),
{
    c == ' ' || c == '\t' || c == '\n' || c == '\r' || c == '\u{B}' || c == '\u{C}'
}

/// A lower-case ASCII letter mapped to upper case; other characters kept.
pub open spec fn upper_char(c: char) -> char {
    if 'a' <= c && c <= 'z' {
        ((c as u8) - 32) as char
    } else {
        c
    }
}

/// Character-wise ASCII upper-casing of a whole string.
pub open spec fn spec_upper(s: Seq<char>) -> Seq<char> {
    Seq::new(s.len(), |i: int| upper_char(s[i]))
}

/// ASCII upper-casing: enough to recognize the fixed tokens of the
/// request line, which are all ASCII.
pub fn ascii_upper(s: &str) -> (r: String)
    ensures
        r@ == spec_upper(s@),
{
    let n: usize = s.unicode_len();
    let mut r = String::new();
    let mut i: usize = 0;
    while i < n
        invariant
            n == s@.len(),
            i <= n,
            r@ =~= spec_upper(s@).subrange(0, i as int),
        decreases n - i,
    {
        let c = s.get_char(i);
        let u: char = if 'a' <= c && c <= 'z' {
            ((c as u8) - 32) as char
        } else {
            c
        };
        push_char(&mut r, u);
        proof {
            assert(r@ =~= spec_upper(s@).subrange(0, i + 1 as int));
        }
        i = i + 1;
    }
    proof {
        assert(spec_upper(s@).subrange(0, n as int) =~= spec_upper(s@));
    }
    r
}

/// `s` begins with `pat`.
pub fn starts_with_sub(s: &str, pat: &str) -> (r: bool)
    ensures
        r == match_at(s@, pat@, 0),
{
    let n: usize = s.unicode_len();
    let m: usize = pat.unicode_len();
    if m > n {
        return false;
    }
    let head = s.substring_char(0, m);
    let r = str_eq(head, pat);
    proof {
        assert(head@ == s@.subrange(0, m as int));
    }
    r
}

} // verus!
