//! The `resource "TYPE" "NAME" {` block headers of a Terraform file.
//!
//! A header is the keyword `resource`, one or more whitespace characters, a
//! double-quoted non-empty type, one or more whitespace characters, a
//! double-quoted non-empty name, optional whitespace and an opening brace.
//! Whitespace is the Unicode `White_Space` property. The file is scanned
//! from the start; after a header the scan resumes right after its brace,
//! and elsewhere it moves on by one character. This is not an HCL parser:
//! a header inside a comment or a string counts too.

use vstd::prelude::*;

verus! {

/// The Unicode `White_Space` characters.
pub open spec fn is_space(c: char) -> bool {
    let u = c as u32;
    ||| 0x09 <= u <= 0x0d
    ||| u == 0x20
    ||| u == 0x85
    ||| u == 0xa0
    ||| u == 0x1680
    ||| 0x2000 <= u <= 0x200a
    ||| u == 0x2028
    ||| u == 0x2029
    ||| u == 0x202f
    ||| u == 0x205f
    ||| u == 0x3000
}

/// The keyword that opens a header.
pub open spec fn keyword() -> Seq<char> {
    seq!['r', 'e', 's', 'o', 'u', 'r', 'c', 'e']
}

/// The first index at or after `i` whose character is not whitespace
/// (`c.len()` when there is none).
pub open spec fn space_end(c: Seq<char>, i: int) -> int
    decreases c.len() - i,
{
    if 0 <= i < c.len() && is_space(c[i]) {
        space_end(c, i + 1)
    } else {
        i
    }
}

/// The first index at or after `i` that holds a double quote (`c.len()`
/// when there is none).
pub open spec fn quote_end(c: Seq<char>, i: int) -> int
    decreases c.len() - i,
{
    if 0 <= i < c.len() && c[i] != '"' {
        quote_end(c, i + 1)
    } else {
        i
    }
}

/// The header that starts at `p`, as the bounds of its type, the bounds of
/// its name, and the index right after its brace.
pub open spec fn header_at(c: Seq<char>, p: int) -> Option<(int, int, int, int, int)> {
    if !(0 <= p && p + 8 <= c.len() && c.subrange(p, p + 8) == keyword()) {
        None
    } else {
        let a = p + 8;
        let b = space_end(c, a);
        if b == a || b >= c.len() || c[b] != '"' {
            None
        } else {
            let t0 = b + 1;
            let t1 = quote_end(c, t0);
            if t1 == t0 || t1 >= c.len() {
                None
            } else {
                let d = t1 + 1;
                let e = space_end(c, d);
                if e == d || e >= c.len() || c[e] != '"' {
                    None
                } else {
                    let n0 = e + 1;
                    let n1 = quote_end(c, n0);
                    if n1 == n0 || n1 >= c.len() {
                        None
                    } else {
                        let f = space_end(c, n1 + 1);
                        if f >= c.len() || c[f] != '{' {
                            None
                        } else {
                            Some((t0, t1, n0, n1, f + 1))
                        }
                    }
                }
            }
        }
    }
}

pub proof fn lemma_space_end_bounds(c: Seq<char>, i: int)
    requires
        0 <= i <= c.len(),
    ensures
        i <= space_end(c, i) <= c.len(),
        forall|k: int| i <= k < space_end(c, i) ==> is_space(#[trigger] c[k]),
        space_end(c, i) < c.len() ==> !is_space(c[space_end(c, i)]),
    decreases c.len() - i,
{
    if i < c.len() && is_space(c[i]) {
        lemma_space_end_bounds(c, i + 1);
    }
}

pub proof fn lemma_quote_end_bounds(c: Seq<char>, i: int)
    requires
        0 <= i <= c.len(),
    ensures
        i <= quote_end(c, i) <= c.len(),
        forall|k: int| i <= k < quote_end(c, i) ==> #[trigger] c[k] != '"',
        quote_end(c, i) < c.len() ==> c[quote_end(c, i)] == '"',
    decreases c.len() - i,
{
    if i < c.len() && c[i] != '"' {
        lemma_quote_end_bounds(c, i + 1);
    }
}

/// A header found at `p` lies within `c`, after `p`, with its parts in order.
pub proof fn lemma_header_at_bounds(c: Seq<char>, p: int)
    requires
        header_at(c, p) is Some,
    ensures
        ({
            let (t0, t1, n0, n1, end) = header_at(c, p)->0;
            &&& p + 8 < t0 < t1 < n0 < n1 < end <= c.len()
            &&& c[t0 - 1] == '"' && c[t1] == '"' && c[n0 - 1] == '"' && c[n1] == '"'
            &&& c[end - 1] == '{'
            &&& forall|k: int| t0 <= k < t1 ==> #[trigger] c[k] != '"'
            &&& forall|k: int| n0 <= k < n1 ==> #[trigger] c[k] != '"'
        }),
{
    let a = p + 8;
    lemma_space_end_bounds(c, a);
    let b = space_end(c, a);
    let t0 = b + 1;
    lemma_quote_end_bounds(c, t0);
    let t1 = quote_end(c, t0);
    let d = t1 + 1;
    lemma_space_end_bounds(c, d);
    let e = space_end(c, d);
    let n0 = e + 1;
    lemma_quote_end_bounds(c, n0);
    let n1 = quote_end(c, n0);
    lemma_space_end_bounds(c, n1 + 1);
}

/// The (type, name) pairs of the headers found by scanning `c` from `p`.
pub open spec fn headers_from(c: Seq<char>, p: int) -> Seq<(Seq<char>, Seq<char>)>
    decreases c.len() - p,
{
    if 0 <= p < c.len() {
        match header_at(c, p) {
            Some(h) => {
                proof {
                    lemma_header_at_bounds(c, p);
                }
                seq![(c.subrange(h.0, h.1), c.subrange(h.2, h.3))] + headers_from(c, h.4)
            },
            None => headers_from(c, p + 1),
        }
    } else {
        Seq::empty()
    }
}

/// The (type, name) pairs of all headers in `c`, in order.
pub open spec fn resource_headers(c: Seq<char>) -> Seq<(Seq<char>, Seq<char>)> {
    headers_from(c, 0)
}

/// The view of a list of (type, name) pairs.
pub open spec fn pairs_view(v: Seq<(String, String)>) -> Seq<(Seq<char>, Seq<char>)> {
    v.map_values(|p: (String, String)| (p.0@, p.1@))
}

fn is_space_char(c: char) -> (r: bool)
    ensures
        r == is_space(c),
{
    let u = c as u32;
    (0x09 <= u && u <= 0x0d) || u == 0x20 || u == 0x85 || u == 0xa0 || u == 0x1680 || (0x2000
        <= u && u <= 0x200a) || u == 0x2028 || u == 0x2029 || u == 0x202f || u == 0x205f || u
        == 0x3000
}

fn skip_spaces(c: &Vec<char>, i: usize) -> (r: usize)
    requires
        i <= c@.len(),
    ensures
        r == space_end(c@, i as int),
{
    let mut k = i;
    while k < c.len() && is_space_char(c[k])
        invariant
            i <= k <= c@.len(),
            space_end(c@, i as int) == space_end(c@, k as int),
        decreases c@.len() - k,
    {
        k = k + 1;
    }
    k
}

fn skip_to_quote(c: &Vec<char>, i: usize) -> (r: usize)
    requires
        i <= c@.len(),
    ensures
        r == quote_end(c@, i as int),
{
    let mut k = i;
    while k < c.len() && c[k] != '"'
        invariant
            i <= k <= c@.len(),
            quote_end(c@, i as int) == quote_end(c@, k as int),
        decreases c@.len() - k,
    {
        k = k + 1;
    }
    k
}

fn keyword_at(c: &Vec<char>, p: usize) -> (r: bool)
    requires
        p <= c@.len(),
    ensures
        r == (p + 8 <= c@.len() && c@.subrange(p as int, p + 8) == keyword()),
{
    if c.len() - p < 8 {
        return false;
    }
    let r = c[p] == 'r' && c[p + 1] == 'e' && c[p + 2] == 's' && c[p + 3] == 'o' && c[p + 4]
        == 'u' && c[p + 5] == 'r' && c[p + 6] == 'c' && c[p + 7] == 'e';
    assert(r == (c@.subrange(p as int, p + 8) =~= keyword()));
    r
}

fn match_header(c: &Vec<char>, p: usize) -> (r: Option<(usize, usize, usize, usize, usize)>)
    requires
        p < c@.len(),
    ensures
        match r {
            Some(h) => header_at(c@, p as int) == Some(
                (h.0 as int, h.1 as int, h.2 as int, h.3 as int, h.4 as int),
            ),
            None => header_at(c@, p as int) is None,
        },
{
    if !keyword_at(c, p) {
        return None;
    }
    assert(p + 8 <= c.len());
    let a = p + 8;
    let b = skip_spaces(c, a);
    proof {
        lemma_space_end_bounds(c@, a as int);
    }
    if b == a || b >= c.len() || c[b] != '"' {
        return None;
    }
    let t0 = b + 1;
    let t1 = skip_to_quote(c, t0);
    proof {
        lemma_quote_end_bounds(c@, t0 as int);
    }
    if t1 == t0 || t1 >= c.len() {
        return None;
    }
    let d = t1 + 1;
    let e = skip_spaces(c, d);
    proof {
        lemma_space_end_bounds(c@, d as int);
    }
    if e == d || e >= c.len() || c[e] != '"' {
        return None;
    }
    let n0 = e + 1;
    let n1 = skip_to_quote(c, n0);
    proof {
        lemma_quote_end_bounds(c@, n0 as int);
    }
    if n1 == n0 || n1 >= c.len() {
        return None;
    }
    let f = skip_spaces(c, n1 + 1);
    proof {
        lemma_space_end_bounds(c@, n1 + 1);
    }
    if f >= c.len() || c[f] != '{' {
        return None;
    }
    Some((t0, t1, n0, n1, f + 1))
}

/// The (type, name) pairs of the resource headers of `content`, in the
/// order in which they stand.
pub fn find_resource_headers(content: &str) -> (res: Vec<(String, String)>)
    ensures
        pairs_view(res@) == resource_headers(content@),
{
    let c = crate::text::chars_of(content);
    let mut res: Vec<(String, String)> = Vec::new();
    let mut p: usize = 0;
    while p < c.len()
        invariant
            p <= c@.len(),
            c@ == content@,
            pairs_view(res@) + headers_from(c@, p as int) == headers_from(c@, 0),
        decreases c@.len() - p,
    {
        let ghost old_res = res@;
        match match_header(&c, p) {
            Some(h) => {
                proof {
                    lemma_header_at_bounds(c@, p as int);
                }
                let t = crate::text::string_of_range(&c, h.0, h.1);
                let n = crate::text::string_of_range(&c, h.2, h.3);
                res.push((t, n));
                assert(pairs_view(res@) == pairs_view(old_res).push((t@, n@)));
                assert(headers_from(c@, p as int) == seq![(t@, n@)] + headers_from(c@, h.4 as int));
                assert(pairs_view(res@) + headers_from(c@, h.4 as int) == pairs_view(old_res)
                    + headers_from(c@, p as int));
                p = h.4;
            },
            None => {
                assert(headers_from(c@, p as int) == headers_from(c@, p + 1));
                p = p + 1;
            },
        }
    }
    assert(headers_from(c@, p as int) == Seq::<(Seq<char>, Seq<char>)>::empty());
    assert(pairs_view(res@) + Seq::<(Seq<char>, Seq<char>)>::empty() == pairs_view(res@));
    res
}

/// Every header found has a non-empty type and a non-empty name, and
/// neither holds a double quote.
pub proof fn lemma_headers_well_formed(c: Seq<char>, p: int)
    requires
        0 <= p,
    ensures
        forall|k: int|
            0 <= k < headers_from(c, p).len() ==> {
                let h = #[trigger] headers_from(c, p)[k];
                &&& h.0.len() > 0 && h.1.len() > 0
                &&& !h.0.contains('"') && !h.1.contains('"')
            },
    decreases c.len() - p,
{
    if 0 <= p < c.len() {
        match header_at(c, p) {
            Some(h) => {
                lemma_header_at_bounds(c, p);
                lemma_headers_well_formed(c, h.4);
                let first = (c.subrange(h.0, h.1), c.subrange(h.2, h.3));
                let rest = headers_from(c, h.4);
                assert(headers_from(c, p) == seq![first] + rest);
                assert forall|k: int| 0 <= k < headers_from(c, p).len() implies {
                    let g = #[trigger] headers_from(c, p)[k];
                    &&& g.0.len() > 0 && g.1.len() > 0
                    &&& !g.0.contains('"') && !g.1.contains('"')
                } by {
                    if k == 0 {
                        assert(headers_from(c, p)[k] == first);
                        assert forall|i: int| 0 <= i < first.0.len() implies first.0[i] != '"' by {
                            assert(first.0[i] == c[h.0 + i]);
                        }
                        assert forall|i: int| 0 <= i < first.1.len() implies first.1[i] != '"' by {
                            assert(first.1[i] == c[h.2 + i]);
                        }
                    } else {
                        assert(headers_from(c, p)[k] == rest[k - 1]);
                    }
                }
            },
            None => {
                lemma_headers_well_formed(c, p + 1);
                assert(headers_from(c, p) == headers_from(c, p + 1));
            },
        }
    }
}

proof fn lemma_quote_end_skip(c: Seq<char>, i: int, j: int)
    requires
        0 <= i <= j <= c.len(),
        forall|k: int| i <= k < j ==> #[trigger] c[k] != '"',
    ensures
        quote_end(c, i) == quote_end(c, j),
    decreases j - i,
{
    if i < j {
        lemma_quote_end_skip(c, i + 1, j);
    }
}

/// The text of the header `resource "t" "n" {` (single spaces).
pub open spec fn header_text(t: Seq<char>, n: Seq<char>) -> Seq<char> {
    keyword() + seq![' ', '"'] + t + seq!['"', ' ', '"'] + n + seq!['"', ' ', '{']
}

proof fn lemma_space_end_shift(a: Seq<char>, b: Seq<char>, i: int)
    requires
        0 <= i <= b.len(),
    ensures
        space_end(a + b, a.len() + i) == a.len() + space_end(b, i),
    decreases b.len() - i,
{
    if i < b.len() {
        assert((a + b)[a.len() + i] == b[i]);
        lemma_space_end_shift(a, b, i + 1);
    }
}

proof fn lemma_quote_end_shift(a: Seq<char>, b: Seq<char>, i: int)
    requires
        0 <= i <= b.len(),
    ensures
        quote_end(a + b, a.len() + i) == a.len() + quote_end(b, i),
    decreases b.len() - i,
{
    if i < b.len() {
        assert((a + b)[a.len() + i] == b[i]);
        lemma_quote_end_shift(a, b, i + 1);
    }
}

proof fn lemma_header_at_shift(a: Seq<char>, b: Seq<char>, p: int)
    requires
        0 <= p < b.len(),
    ensures
        header_at(a + b, a.len() + p) == match header_at(b, p) {
            Some(h) => Some(
                (a.len() + h.0, a.len() + h.1, a.len() + h.2, a.len() + h.3, a.len() + h.4),
            ),
            None => None::<(int, int, int, int, int)>,
        },
{
    let c = a + b;
    let o = a.len() as int;
    if p + 8 <= b.len() {
        assert(c.subrange(o + p, o + p + 8) =~= b.subrange(p, p + 8));
    }
    if header_at(b, p) is Some {
        lemma_header_at_bounds(b, p);
    }
    let a1 = p + 8;
    if a1 <= b.len() {
        lemma_space_end_shift(a, b, a1);
        lemma_space_end_bounds(b, a1);
        let bb = space_end(b, a1);
        if bb < b.len() {
            assert(c[o + bb] == b[bb]);
            let t0 = bb + 1;
            lemma_quote_end_shift(a, b, t0);
            lemma_quote_end_bounds(b, t0);
            let t1 = quote_end(b, t0);
            if t1 < b.len() {
                let d = t1 + 1;
                lemma_space_end_shift(a, b, d);
                lemma_space_end_bounds(b, d);
                let e = space_end(b, d);
                if e < b.len() {
                    assert(c[o + e] == b[e]);
                    let n0 = e + 1;
                    lemma_quote_end_shift(a, b, n0);
                    lemma_quote_end_bounds(b, n0);
                    let n1 = quote_end(b, n0);
                    if n1 < b.len() {
                        lemma_space_end_shift(a, b, n1 + 1);
                        lemma_space_end_bounds(b, n1 + 1);
                        let f = space_end(b, n1 + 1);
                        if f < b.len() {
                            assert(c[o + f] == b[f]);
                        }
                    }
                }
            }
        }
    }
}

/// Scanning `a + b` from inside `b` finds what scanning `b` finds there.
proof fn lemma_headers_from_shift(a: Seq<char>, b: Seq<char>, p: int)
    requires
        0 <= p <= b.len(),
    ensures
        headers_from(a + b, a.len() + p) == headers_from(b, p),
    decreases b.len() - p,
{
    let c = a + b;
    let o = a.len() as int;
    if p < b.len() {
        lemma_header_at_shift(a, b, p);
        match header_at(b, p) {
            Some(h) => {
                lemma_header_at_bounds(b, p);
                lemma_headers_from_shift(a, b, h.4);
                assert(c.subrange(o + h.0, o + h.1) =~= b.subrange(h.0, h.1));
                assert(c.subrange(o + h.2, o + h.3) =~= b.subrange(h.2, h.3));
            },
            None => {
                lemma_headers_from_shift(a, b, p + 1);
            },
        }
    }
}

/// A header with a non-empty, quote-free type and name at the start of a
/// text is found, with its type and name whatever other characters they
/// hold, and the scan goes on over the rest of the text as over a text of
/// its own: so a run of headers gives all of them, in order.
pub proof fn lemma_header_found_then_rest(t: Seq<char>, n: Seq<char>, rest: Seq<char>)
    requires
        t.len() > 0,
        n.len() > 0,
        !t.contains('"'),
        !n.contains('"'),
    ensures
        resource_headers(header_text(t, n) + rest) == seq![(t, n)] + resource_headers(rest),
{
    let h = header_text(t, n);
    let c = h + rest;
    let lt = t.len() as int;
    let ln = n.len() as int;
    assert(h.len() == 16 + lt + ln);
    assert forall|k: int| 0 <= k < h.len() implies #[trigger] c[k] == h[k] by {}
    assert(c.subrange(0, 8) =~= keyword());
    assert(c[8] == ' ');
    assert(c[9] == '"');
    assert(space_end(c, 9) == 9);
    assert(space_end(c, 8) == 9);
    assert forall|k: int| 10 <= k < 10 + lt implies #[trigger] c[k] != '"' by {
        assert(c[k] == h[k]);
        assert(h[k] == t[k - 10]);
    }
    lemma_quote_end_skip(c, 10, 10 + lt);
    assert(c[10 + lt] == '"');
    assert(quote_end(c, 10) == 10 + lt);
    assert(c[11 + lt] == ' ');
    assert(c[12 + lt] == '"');
    assert(space_end(c, 12 + lt) == 12 + lt);
    assert(space_end(c, 11 + lt) == 12 + lt);
    assert forall|k: int| 13 + lt <= k < 13 + lt + ln implies #[trigger] c[k] != '"' by {
        assert(c[k] == h[k]);
        assert(h[k] == n[k - 13 - lt]);
    }
    lemma_quote_end_skip(c, 13 + lt, 13 + lt + ln);
    assert(c[13 + lt + ln] == '"');
    assert(quote_end(c, 13 + lt) == 13 + lt + ln);
    assert(c[14 + lt + ln] == ' ');
    assert(c[15 + lt + ln] == '{');
    assert(space_end(c, 15 + lt + ln) == 15 + lt + ln);
    assert(space_end(c, 14 + lt + ln) == 15 + lt + ln);
    assert(header_at(c, 0) == Some((10int, 10 + lt, 13 + lt, 13 + lt + ln, 16 + lt + ln)));
    assert(c.subrange(10, 10 + lt) =~= t);
    assert(c.subrange(13 + lt, 13 + lt + ln) =~= n);
    lemma_headers_from_shift(h, rest, 0);
    assert(headers_from(c, 0) == seq![(t, n)] + headers_from(c, 16 + lt + ln));
}

proof fn lemma_skip_from(x: Seq<char>, rest: Seq<char>, p: int)
    requires
        0 <= p <= x.len(),
        !x.contains('r'),
    ensures
        headers_from(x + rest, p) == headers_from(x + rest, x.len() as int),
    decreases x.len() - p,
{
    let c = x + rest;
    if p < x.len() {
        assert(c[p] == x[p]);
        if p + 8 <= c.len() {
            assert(c.subrange(p, p + 8)[0] == c[p]);
        }
        assert(header_at(c, p) is None);
        lemma_skip_from(x, rest, p + 1);
    }
}

/// Text without the letter `r` holds no header and does not change what
/// the text after it gives: headers separated by such text are all found.
pub proof fn lemma_text_without_r_skipped(x: Seq<char>, rest: Seq<char>)
    requires
        !x.contains('r'),
    ensures
        resource_headers(x + rest) == resource_headers(rest),
{
    lemma_skip_from(x, rest, 0);
    lemma_headers_from_shift(x, rest, 0);
}

/// Every header with a non-empty, quote-free type and name is found, with
/// its type and name, whatever other characters they hold.
pub proof fn lemma_header_found(t: Seq<char>, n: Seq<char>)
    requires
        t.len() > 0,
        n.len() > 0,
        !t.contains('"'),
        !n.contains('"'),
    ensures
        resource_headers(header_text(t, n)) == seq![(t, n)],
{
    lemma_header_found_then_rest(t, n, Seq::empty());
    assert(header_text(t, n) + Seq::<char>::empty() == header_text(t, n));
    assert(resource_headers(Seq::<char>::empty()) == Seq::<(Seq<char>, Seq<char>)>::empty());
    assert(seq![(t, n)] + Seq::<(Seq<char>, Seq<char>)>::empty() == seq![(t, n)]);
}

} // verus!
