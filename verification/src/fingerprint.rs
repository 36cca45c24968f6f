//! The fingerprint of a request, which is its cache and deduplication key.

use vstd::prelude::*;
use vstd::relations::{sorted_by, total_ordering};
use vstd::seq_lib::{lemma_sorted_unique, to_multiset_build, to_multiset_insert};
use vstd::utf8::char_u32_cast;
use crate::method_utils::{method_name, HttpMethod};
use crate::models::EnhancedRequest;
use crate::string_map::{StringMap, Text};
use crate::text::{chars_of, string_of};

verus! {

pub type Pair = (Text, Text);

/// Dictionary order on text, character by character, by code point.
pub open spec fn text_le(a: Text, b: Text) -> bool
    decreases a.len(),
{
    if a.len() == 0 {
        true
    } else if b.len() == 0 {
        false
    } else if a[0] != b[0] {
        (a[0] as u32) < (b[0] as u32)
    } else {
        text_le(a.drop_first(), b.drop_first())
    }
}

/// Parameters are ordered by name, and by value under equal names.
pub open spec fn pair_le(a: Pair, b: Pair) -> bool {
    if a.0 == b.0 {
        text_le(a.1, b.1)
    } else {
        text_le(a.0, b.0)
    }
}

pub open spec fn pair_order() -> spec_fn(Pair, Pair) -> bool {
    |a: Pair, b: Pair| pair_le(a, b)
}

pub proof fn lemma_text_le_reflexive(a: Text)
    ensures
        text_le(a, a),
    decreases a.len(),
{
    if a.len() > 0 {
        lemma_text_le_reflexive(a.drop_first());
    }
}

pub proof fn lemma_text_le_antisymmetric(a: Text, b: Text)
    requires
        text_le(a, b),
        text_le(b, a),
    ensures
        a == b,
    decreases a.len(),
{
    if a.len() == 0 {
        assert(a =~= b);
    } else {
        lemma_text_le_antisymmetric(a.drop_first(), b.drop_first());
        assert(a =~= seq![a[0]] + a.drop_first());
        assert(b =~= seq![b[0]] + b.drop_first());
    }
}

pub proof fn lemma_text_le_transitive(a: Text, b: Text, c: Text)
    requires
        text_le(a, b),
        text_le(b, c),
    ensures
        text_le(a, c),
    decreases a.len(),
{
    if a.len() > 0 && a[0] == b[0] && b[0] == c[0] {
        lemma_text_le_transitive(a.drop_first(), b.drop_first(), c.drop_first());
    }
}

pub proof fn lemma_text_le_connected(a: Text, b: Text)
    ensures
        text_le(a, b) || text_le(b, a),
    decreases a.len(),
{
    if a.len() > 0 && b.len() > 0 {
        if a[0] == b[0] {
            lemma_text_le_connected(a.drop_first(), b.drop_first());
        } else {
            char_u32_cast(a[0], a[0] as u32);
            char_u32_cast(b[0], b[0] as u32);
        }
    }
}

/// The order on parameters is total, so a collection of parameters has
/// exactly one sorted arrangement.
pub proof fn lemma_pair_order_total()
    ensures
        total_ordering(pair_order()),
{
    let r = pair_order();
    assert forall|x: Pair| #[trigger] r(x, x) by {
        lemma_text_le_reflexive(x.1);
    }
    assert forall|x: Pair, y: Pair| #[trigger] r(x, y) && #[trigger] r(y, x) implies x == y by {
        if x.0 == y.0 {
            lemma_text_le_antisymmetric(x.1, y.1);
        } else {
            lemma_text_le_antisymmetric(x.0, y.0);
        }
    }
    assert forall|x: Pair, y: Pair, z: Pair| #[trigger] r(x, y) && #[trigger] r(y, z) implies r(
        x,
        z,
    ) by {
        if x.0 == y.0 && y.0 == z.0 {
            lemma_text_le_transitive(x.1, y.1, z.1);
        } else if x.0 == y.0 {
        } else if y.0 == z.0 {
        } else {
            lemma_text_le_transitive(x.0, y.0, z.0);
            if x.0 == z.0 {
                lemma_text_le_antisymmetric(x.0, y.0);
            }
        }
    }
    assert forall|x: Pair, y: Pair| #[trigger] r(x, y) || #[trigger] r(y, x) by {
        lemma_text_le_connected(x.0, y.0);
        lemma_text_le_connected(x.1, y.1);
    }
}

/// The parameters in their one sorted arrangement.
pub open spec fn sorted_params(q: Seq<Pair>) -> Seq<Pair> {
    q.sort_by(pair_order())
}

/// The character that marks the next one as part of the text.
pub open spec fn escape_char() -> char {
    '\\'
}

/// A character that is written with the escape character before it: the
/// escape character itself, and the character that ends the field.
pub open spec fn is_special(c: char, end: char) -> bool {
    c == escape_char() || c == end
}

/// How one character of a field is written.
pub open spec fn escaped_char(c: char, end: char) -> Text {
    if is_special(c, end) {
        seq![escape_char(), c]
    } else {
        seq![c]
    }
}

/// A text with its special characters escaped.
pub open spec fn escaped(t: Text, end: char) -> Text
    decreases t.len(),
{
    if t.len() == 0 {
        Seq::<char>::empty()
    } else {
        escaped_char(t[0], end) + escaped(t.drop_first(), end)
    }
}

/// A text as one field of a fingerprint: escaped, then ended by `end`. The
/// end is the first `end` in the field that no escape character precedes,
/// so a field can be told from whatever follows it.
pub open spec fn field(t: Text, end: char) -> Text {
    escaped(t, end) + seq![end]
}

/// Parameters written one after the other, each as `name=value&`.
pub open spec fn render_params(s: Seq<Pair>) -> Text
    decreases s.len(),
{
    if s.len() == 0 {
        Seq::<char>::empty()
    } else {
        field(s[0].0, '=') + field(s[0].1, '&') + render_params(s.drop_first())
    }
}

/// The fingerprint of a request: its method ended by a space, its URL ended
/// by a question mark, and its query parameters in sorted order. A request
/// for `https://example.com/items` with `b=2` and `a=1` has the fingerprint
/// `GET https://example.com/items?a=1&b=2&`.
pub open spec fn fingerprint_spec(method: Text, url: Text, query: Seq<Pair>) -> Text {
    field(method, ' ') + field(url, '?') + render_params(sorted_params(query))
}

/// Two requests with the same method, the same URL and the same query
/// parameters, in whatever order each lists them, have the same fingerprint.
pub proof fn lemma_fingerprint_ignores_parameter_order(
    method: Text,
    url: Text,
    q1: Seq<Pair>,
    q2: Seq<Pair>,
)
    requires
        q1.to_multiset() == q2.to_multiset(),
    ensures
        fingerprint_spec(method, url, q1) == fingerprint_spec(method, url, q2),
{
    lemma_pair_order_total();
    q1.lemma_sort_by_ensures(pair_order());
    q2.lemma_sort_by_ensures(pair_order());
    lemma_sorted_unique(sorted_params(q1), sorted_params(q2), pair_order());
}

pub proof fn lemma_escaped_concat(a: Text, b: Text, end: char)
    ensures
        escaped(a + b, end) == escaped(a, end) + escaped(b, end),
    decreases a.len(),
{
    if a.len() == 0 {
        assert(a + b =~= b);
        assert(escaped(a, end) + escaped(b, end) =~= escaped(b, end));
    } else {
        lemma_escaped_concat(a.drop_first(), b, end);
        assert((a + b).drop_first() =~= a.drop_first() + b);
        assert((a + b)[0] == a[0]);
        assert(escaped(a + b, end) =~= escaped(a, end) + escaped(b, end));
    }
}

pub proof fn lemma_render_params_concat(p: Seq<Pair>, q: Seq<Pair>)
    ensures
        render_params(p + q) == render_params(p) + render_params(q),
    decreases p.len(),
{
    if p.len() == 0 {
        assert(p + q =~= q);
        assert(render_params(p) + render_params(q) =~= render_params(q));
    } else {
        lemma_render_params_concat(p.drop_first(), q);
        assert((p + q).drop_first() =~= p.drop_first() + q);
        assert((p + q)[0] == p[0]);
        assert(render_params(p + q) =~= render_params(p) + render_params(q));
    }
}

/// A field can be read back: where two fields, each followed by anything,
/// make the same text, they are the same field followed by the same thing.
pub proof fn lemma_field_reads_back(a: Text, x: Text, b: Text, y: Text, end: char)
    requires
        end != escape_char(),
        field(a, end) + x == field(b, end) + y,
    ensures
        a == b,
        x == y,
    decreases a.len(),
{
    let left = field(a, end) + x;
    let right = field(b, end) + y;
    if a.len() == 0 {
        assert(left =~= seq![end] + x);
        if b.len() == 0 {
            assert(right =~= seq![end] + y);
            assert(x =~= left.drop_first());
            assert(y =~= right.drop_first());
            assert(a =~= b);
        } else {
            assert(right =~= escaped_char(b[0], end) + (field(b.drop_first(), end) + y));
            assert(right[0] != end);
            assert(left[0] == end);
        }
    } else {
        let a1 = a.drop_first();
        assert(left =~= escaped_char(a[0], end) + (field(a1, end) + x));
        if b.len() == 0 {
            assert(right =~= seq![end] + y);
            assert(right[0] == end);
            assert(left[0] != end);
        } else {
            let b1 = b.drop_first();
            assert(right =~= escaped_char(b[0], end) + (field(b1, end) + y));
            if is_special(a[0], end) {
                assert(left[0] == escape_char());
                assert(left[1] == a[0]);
                if is_special(b[0], end) {
                    assert(right[1] == b[0]);
                    assert(left.skip(2) =~= field(a1, end) + x);
                    assert(right.skip(2) =~= field(b1, end) + y);
                    lemma_field_reads_back(a1, x, b1, y, end);
                    assert(a =~= seq![a[0]] + a1);
                    assert(b =~= seq![b[0]] + b1);
                } else {
                    assert(right[0] == b[0]);
                }
            } else {
                assert(left[0] == a[0]);
                if is_special(b[0], end) {
                    assert(right[0] == escape_char());
                } else {
                    assert(right[0] == b[0]);
                    assert(left.skip(1) =~= field(a1, end) + x);
                    assert(right.skip(1) =~= field(b1, end) + y);
                    lemma_field_reads_back(a1, x, b1, y, end);
                    assert(a =~= seq![a[0]] + a1);
                    assert(b =~= seq![b[0]] + b1);
                }
            }
        }
    }
}

/// Parameters can be read back from the way they are written.
pub proof fn lemma_render_params_injective(p: Seq<Pair>, q: Seq<Pair>)
    requires
        render_params(p) == render_params(q),
    ensures
        p == q,
    decreases p.len(),
{
    if p.len() == 0 {
        if q.len() > 0 {
            assert(render_params(q).len() > 0);
        }
        assert(p =~= q);
    } else if q.len() == 0 {
        assert(render_params(p).len() > 0);
    } else {
        let rest_p = field(p[0].1, '&') + render_params(p.drop_first());
        let rest_q = field(q[0].1, '&') + render_params(q.drop_first());
        assert(render_params(p) =~= field(p[0].0, '=') + rest_p);
        assert(render_params(q) =~= field(q[0].0, '=') + rest_q);
        lemma_field_reads_back(p[0].0, rest_p, q[0].0, rest_q, '=');
        lemma_field_reads_back(
            p[0].1,
            render_params(p.drop_first()),
            q[0].1,
            render_params(q.drop_first()),
            '&',
        );
        lemma_render_params_injective(p.drop_first(), q.drop_first());
        assert(p =~= seq![p[0]] + p.drop_first());
        assert(q =~= seq![q[0]] + q.drop_first());
    }
}

/// Two requests have the same fingerprint only if they have the same method,
/// the same URL and the same query parameters.
pub proof fn lemma_fingerprint_tells_requests_apart(
    m1: Text,
    u1: Text,
    q1: Seq<Pair>,
    m2: Text,
    u2: Text,
    q2: Seq<Pair>,
)
    requires
        fingerprint_spec(m1, u1, q1) == fingerprint_spec(m2, u2, q2),
    ensures
        m1 == m2,
        u1 == u2,
        q1.to_multiset() == q2.to_multiset(),
{
    let s1 = sorted_params(q1);
    let s2 = sorted_params(q2);
    let rest1 = field(u1, '?') + render_params(s1);
    let rest2 = field(u2, '?') + render_params(s2);
    assert(fingerprint_spec(m1, u1, q1) =~= field(m1, ' ') + rest1);
    assert(fingerprint_spec(m2, u2, q2) =~= field(m2, ' ') + rest2);
    lemma_field_reads_back(m1, rest1, m2, rest2, ' ');
    lemma_field_reads_back(u1, render_params(s1), u2, render_params(s2), '?');
    lemma_render_params_injective(s1, s2);
    lemma_pair_order_total();
    q1.lemma_sort_by_ensures(pair_order());
    q2.lemma_sort_by_ensures(pair_order());
}

/// The key under which a request is cached and deduplicated: the caller's
/// explicit key where one is given, word for word, else the fingerprint.
pub open spec fn cache_key_spec(
    explicit: Option<Text>,
    method: Text,
    url: Text,
    query: Seq<Pair>,
) -> Text {
    match explicit {
        Some(k) => k,
        None => fingerprint_spec(method, url, query),
    }
}

pub open spec fn pairs_view(v: Seq<(Vec<char>, Vec<char>)>) -> Seq<Pair> {
    Seq::new(v.len(), |i: int| (v[i].0@, v[i].1@))
}

fn text_le_exec(a: &Vec<char>, b: &Vec<char>) -> (r: bool)
    ensures
        r == text_le(a@, b@),
{
    let mut i: usize = 0;
    assert(a@.skip(0) =~= a@ && b@.skip(0) =~= b@);
    while i < a.len()
        invariant
            i <= a.len(),
            i <= b.len(),
            text_le(a@, b@) == text_le(a@.skip(i as int), b@.skip(i as int)),
        decreases a.len() - i,
    {
        if i >= b.len() {
            return false;
        }
        let x = a[i] as u32;
        let y = b[i] as u32;
        assert(a@.skip(i as int)[0] == a@[i as int]);
        assert(b@.skip(i as int)[0] == b@[i as int]);
        proof {
            char_u32_cast(a@[i as int], x);
            char_u32_cast(b@[i as int], y);
        }
        if x != y {
            return x < y;
        }
        assert(a@.skip(i as int).drop_first() == a@.skip(i + 1));
        assert(b@.skip(i as int).drop_first() == b@.skip(i + 1));
        i = i + 1;
    }
    true
}

fn pair_le_exec(a: &(Vec<char>, Vec<char>), b: &(Vec<char>, Vec<char>)) -> (r: bool)
    ensures
        r == pair_le((a.0@, a.1@), (b.0@, b.1@)),
{
    let forth = text_le_exec(&a.0, &b.0);
    let back = text_le_exec(&b.0, &a.0);
    if forth && back {
        proof {
            lemma_text_le_antisymmetric(a.0@, b.0@);
        }
        text_le_exec(&a.1, &b.1)
    } else {
        proof {
            if a.0@ == b.0@ {
                lemma_text_le_reflexive(a.0@);
            }
        }
        forth
    }
}

/// The entries of `query` as character vectors, sorted.
fn sort_params(query: &StringMap) -> (sorted: Vec<(Vec<char>, Vec<char>)>)
    ensures
        pairs_view(sorted@) == sorted_params(query@),
{
    let mut sorted: Vec<(Vec<char>, Vec<char>)> = Vec::new();
    let n = query.len();
    let mut i: usize = 0;
    proof {
        lemma_pair_order_total();
        assert(pairs_view(sorted@) =~= Seq::<Pair>::empty());
        assert(query@.take(0) =~= Seq::<Pair>::empty());
    }
    while i < n
        invariant
            n == query@.len(),
            i <= n,
            total_ordering(pair_order()),
            sorted_by(pairs_view(sorted@), pair_order()),
            pairs_view(sorted@).to_multiset() == query@.take(i as int).to_multiset(),
        decreases n - i,
    {
        let item = (chars_of(query.key_at(i).as_str()), chars_of(query.value_at(i).as_str()));
        let ghost pitem: Pair = (item.0@, item.1@);
        assert(pitem == query@[i as int]);
        let mut p: usize = 0;
        while p < sorted.len() && pair_le_exec(&sorted[p], &item)
            invariant
                p <= sorted.len(),
                pitem == (item.0@, item.1@),
                forall|j: int| 0 <= j < p ==> pair_le(#[trigger] pairs_view(sorted@)[j], pitem),
            decreases sorted.len() - p,
        {
            p = p + 1;
        }
        let ghost before = pairs_view(sorted@);
        sorted.insert(p, item);
        proof {
            let after = pairs_view(sorted@);
            let r = pair_order();
            assert(after =~= before.insert(p as int, pitem));
            to_multiset_insert(before, p as int, pitem);
            to_multiset_build(query@.take(i as int), pitem);
            assert(query@.take(i + 1) =~= query@.take(i as int).push(pitem));
            assert forall|x: int, y: int| 0 <= x < y < after.len() implies #[trigger] r(
                after[x],
                after[y],
            ) by {
                if y < p {
                    assert(r(before[x], before[y]));
                } else if y == p {
                    assert(pair_le(before[x], pitem));
                } else if x == p {
                    // pitem sits before everything that is not below it
                    assert(!pair_le(before[p as int], pitem));
                    assert(r(before[p as int], pitem) || r(pitem, before[p as int]));
                    if y - 1 > p {
                        assert(r(before[p as int], before[y - 1]));
                        assert(r(pitem, before[p as int]) && r(before[p as int], before[y - 1])
                            ==> r(pitem, before[y - 1]));
                    }
                } else if x < p {
                    assert(r(before[x], before[y - 1]));
                } else {
                    assert(r(before[x - 1], before[y - 1]));
                }
            }
        }
        i = i + 1;
    }
    proof {
        assert(query@.take(n as int) =~= query@);
        query@.lemma_sort_by_ensures(pair_order());
        lemma_sorted_unique(pairs_view(sorted@), sorted_params(query@), pair_order());
    }
    sorted
}

/// Appends `text` to `out` as a field that ends with `end`.
fn write_field(out: &mut Vec<char>, text: &Vec<char>, end: char)
    ensures
        final(out)@ == old(out)@ + field(text@, end),
{
    let mut i: usize = 0;
    assert(text@.take(0) =~= Seq::<char>::empty());
    assert(out@ =~= old(out)@ + escaped(text@.take(0), end));
    while i < text.len()
        invariant
            i <= text.len(),
            out@ == old(out)@ + escaped(text@.take(i as int), end),
        decreases text.len() - i,
    {
        let c = text[i];
        let ghost before = out@;
        if c == '\\' || c == end {
            out.push('\\');
        }
        out.push(c);
        proof {
            let one = seq![c];
            assert(text@.take(i + 1) =~= text@.take(i as int) + one);
            lemma_escaped_concat(text@.take(i as int), one, end);
            assert(one.drop_first() =~= Seq::<char>::empty());
            assert(escaped(one.drop_first(), end) =~= Seq::<char>::empty());
            assert(one[0] == c);
            assert(escaped(one, end) =~= escaped_char(c, end));
            assert(out@ =~= before + escaped_char(c, end));
        }
        i = i + 1;
    }
    assert(text@.take(text@.len() as int) =~= text@);
    out.push(end);
    assert(out@ =~= old(out)@ + field(text@, end));
}

/// Derives the fingerprint of a request from its method, URL and query
/// parameters. The parameters are sorted first, so the order in which the
/// request lists them leaves no trace.
pub fn fingerprint(method: &HttpMethod, url: &str, query: &StringMap) -> (f: String)
    ensures
        f@ == fingerprint_spec(method_name(method@), url@, query@),
{
    let sorted = sort_params(query);
    let name = method.name();
    let mut out: Vec<char> = Vec::new();
    write_field(&mut out, &chars_of(name.as_str()), ' ');
    write_field(&mut out, &chars_of(url), '?');
    let ghost head = out@;
    assert(head =~= field(method_name(method@), ' ') + field(url@, '?'));
    let ghost params = pairs_view(sorted@);
    let mut i: usize = 0;
    assert(params.take(0) =~= Seq::<Pair>::empty());
    assert(out@ =~= head + render_params(params.take(0)));
    while i < sorted.len()
        invariant
            i <= sorted.len(),
            params == pairs_view(sorted@),
            out@ == head + render_params(params.take(i as int)),
        decreases sorted.len() - i,
    {
        let ghost so_far = out@;
        write_field(&mut out, &sorted[i].0, '=');
        write_field(&mut out, &sorted[i].1, '&');
        proof {
            let one = seq![params[i as int]];
            assert(params.take(i + 1) =~= params.take(i as int) + one);
            lemma_render_params_concat(params.take(i as int), one);
            assert(one.drop_first() =~= Seq::<Pair>::empty());
            assert(render_params(one.drop_first()) =~= Seq::<char>::empty());
            assert(one[0] == params[i as int]);
            assert(render_params(one) =~= field(params[i as int].0, '=') + field(
                params[i as int].1,
                '&',
            ));
            assert(params[i as int] == (sorted@[i as int].0@, sorted@[i as int].1@));
            assert(out@ =~= so_far + render_params(one));
        }
        i = i + 1;
    }
    assert(params.take(sorted@.len() as int) =~= params);
    string_of(&out)
}

/// The key under which `request` is cached and deduplicated.
pub fn cache_key(request: &EnhancedRequest, method: &HttpMethod) -> (k: String)
    ensures
        k@ == cache_key_spec(
            match request.cache_key {
                Some(s) => Some(s@),
                None => None,
            },
            method_name(method@),
            request.request.url@,
            request.request.query_params@,
        ),
{
    match &request.cache_key {
        Some(k) => k.clone(),
        None => fingerprint(method, request.request.url.as_str(), &request.request.query_params),
    }
}

} // verus!
