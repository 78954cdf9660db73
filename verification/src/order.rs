//! Dictionary order, on numbers, characters, texts and paths.
use vstd::prelude::*;

verus! {

/// Whether one sequence of numbers comes strictly before another in
/// dictionary order.
pub open spec fn before(a: Seq<int>, b: Seq<int>) -> bool
    decreases b.len(),
{
    if b.len() == 0 {
        false
    } else if a.len() == 0 {
        true
    } else if a[0] != b[0] {
        a[0] < b[0]
    } else {
        before(a.drop_first(), b.drop_first())
    }
}

/// The code points of a text.
pub open spec fn points(text: Seq<char>) -> Seq<int> {
    text.map_values(|c: char| c as int)
}

/// The values of some bytes.
pub open spec fn octets(bytes: Seq<u8>) -> Seq<int> {
    bytes.map_values(|b: u8| b as int)
}

/// Whether one text comes strictly before another, by code point.
pub open spec fn text_before(a: Seq<char>, b: Seq<char>) -> bool {
    before(points(a), points(b))
}

/// Whether one run of bytes comes strictly before another.
pub open spec fn bytes_before(a: Seq<u8>, b: Seq<u8>) -> bool {
    before(octets(a), octets(b))
}

/// Whether one path of texts comes strictly before another, segment by
/// segment.
pub open spec fn path_before(a: Seq<Seq<char>>, b: Seq<Seq<char>>) -> bool
    decreases b.len(),
{
    if b.len() == 0 {
        false
    } else if a.len() == 0 {
        true
    } else if a[0] != b[0] {
        text_before(a[0], b[0])
    } else {
        path_before(a.drop_first(), b.drop_first())
    }
}

/// Nothing comes before itself.
pub proof fn lemma_before_irreflexive(a: Seq<int>)
    ensures
        !before(a, a),
    decreases a.len(),
{
    if a.len() > 0 {
        lemma_before_irreflexive(a.drop_first());
    }
}

/// Coming before is transitive.
pub proof fn lemma_before_transitive(a: Seq<int>, b: Seq<int>, c: Seq<int>)
    requires
        before(a, b),
        before(b, c),
    ensures
        before(a, c),
    decreases c.len(),
{
    if a.len() > 0 && b.len() > 0 && c.len() > 0 && a[0] == b[0] && b[0] == c[0] {
        lemma_before_transitive(a.drop_first(), b.drop_first(), c.drop_first());
    }
}

/// Of two different sequences one comes before the other.
pub proof fn lemma_before_total(a: Seq<int>, b: Seq<int>)
    requires
        a != b,
    ensures
        before(a, b) || before(b, a),
    decreases b.len(),
{
    if a.len() > 0 && b.len() > 0 && a[0] == b[0] {
        if a.drop_first() == b.drop_first() {
            assert(a =~= seq![a[0]] + a.drop_first());
            assert(b =~= seq![b[0]] + b.drop_first());
        } else {
            lemma_before_total(a.drop_first(), b.drop_first());
        }
    } else if a.len() == 0 && b.len() == 0 {
        assert(a =~= b);
    }
}

/// Different texts have different code points.
pub proof fn lemma_points_injective(a: Seq<char>, b: Seq<char>)
    requires
        points(a) == points(b),
    ensures
        a == b,
{
    assert(a.len() == points(a).len() == b.len());
    assert forall|i: int| 0 <= i < a.len() implies a[i] == b[i] by {
        assert(points(a)[i] == a[i] as int);
        assert(points(b)[i] == b[i] as int);
    }
    assert(a =~= b);
}

/// No path comes before itself.
pub proof fn lemma_path_irreflexive(a: Seq<Seq<char>>)
    ensures
        !path_before(a, a),
    decreases a.len(),
{
    if a.len() > 0 {
        lemma_path_irreflexive(a.drop_first());
    }
}

/// The order of paths is transitive.
pub proof fn lemma_path_transitive(a: Seq<Seq<char>>, b: Seq<Seq<char>>, c: Seq<Seq<char>>)
    requires
        path_before(a, b),
        path_before(b, c),
    ensures
        path_before(a, c),
    decreases c.len(),
{
    if a.len() > 0 && b.len() > 0 && c.len() > 0 {
        if a[0] == b[0] && b[0] == c[0] {
            lemma_path_transitive(a.drop_first(), b.drop_first(), c.drop_first());
        } else if a[0] != b[0] && b[0] != c[0] {
            lemma_before_transitive(points(a[0]), points(b[0]), points(c[0]));
            if a[0] == c[0] {
                lemma_before_irreflexive(points(a[0]));
            }
        }
    }
}

/// Of two different paths one comes before the other.
pub proof fn lemma_path_total(a: Seq<Seq<char>>, b: Seq<Seq<char>>)
    requires
        a != b,
    ensures
        path_before(a, b) || path_before(b, a),
    decreases b.len(),
{
    if a.len() > 0 && b.len() > 0 {
        if a[0] == b[0] {
            if a.drop_first() == b.drop_first() {
                assert(a =~= seq![a[0]] + a.drop_first());
                assert(b =~= seq![b[0]] + b.drop_first());
            } else {
                lemma_path_total(a.drop_first(), b.drop_first());
            }
        } else {
            if points(a[0]) == points(b[0]) {
                lemma_points_injective(a[0], b[0]);
            }
            lemma_before_total(points(a[0]), points(b[0]));
        }
    } else if a.len() == 0 && b.len() == 0 {
        assert(a =~= b);
    }
}

/// Skipping equal heads does not change which comes first.
proof fn lemma_before_skip(a: Seq<int>, b: Seq<int>, n: int)
    requires
        0 <= n <= a.len(),
        n <= b.len(),
        a.take(n) == b.take(n),
    ensures
        before(a, b) == before(a.skip(n), b.skip(n)),
    decreases n,
{
    if n == 0 {
        assert(a.skip(0) =~= a);
        assert(b.skip(0) =~= b);
    } else {
        assert(a[0] == a.take(n)[0] == b.take(n)[0] == b[0]);
        assert(a.drop_first().take(n - 1) =~= a.take(n).drop_first());
        assert(b.drop_first().take(n - 1) =~= b.take(n).drop_first());
        lemma_before_skip(a.drop_first(), b.drop_first(), n - 1);
        assert(a.drop_first().skip(n - 1) =~= a.skip(n));
        assert(b.drop_first().skip(n - 1) =~= b.skip(n));
    }
}

/// Whether one text comes strictly before another, by code point.
pub fn text_is_before(a: &Vec<char>, b: &Vec<char>) -> (answer: bool)
    ensures
        answer == text_before(a@, b@),
{
    let mut at: usize = 0;
    let ghost p = points(a@);
    let ghost q = points(b@);
    while at < a.len() && at < b.len() && a[at] == b[at]
        invariant
            at <= a@.len(),
            at <= b@.len(),
            p == points(a@),
            q == points(b@),
            forall|i: int| 0 <= i < at ==> a@[i] == b@[i],
        decreases a@.len() - at,
    {
        at += 1;
    }
    assert(p.take(at as int) =~= q.take(at as int));
    proof {
        lemma_before_skip(p, q, at as int);
    }
    if at == b.len() {
        false
    } else if at == a.len() {
        true
    } else {
        assert(p.skip(at as int)[0] == a@[at as int] as int);
        assert(q.skip(at as int)[0] == b@[at as int] as int);
        a[at] < b[at]
    }
}

/// Whether one run of bytes comes strictly before another.
pub fn bytes_are_before(a: &Vec<u8>, b: &Vec<u8>) -> (answer: bool)
    ensures
        answer == bytes_before(a@, b@),
{
    let mut at: usize = 0;
    let ghost p = octets(a@);
    let ghost q = octets(b@);
    while at < a.len() && at < b.len() && a[at] == b[at]
        invariant
            at <= a@.len(),
            at <= b@.len(),
            p == octets(a@),
            q == octets(b@),
            forall|i: int| 0 <= i < at ==> a@[i] == b@[i],
        decreases a@.len() - at,
    {
        at += 1;
    }
    assert(p.take(at as int) =~= q.take(at as int));
    proof {
        lemma_before_skip(p, q, at as int);
    }
    if at == b.len() {
        false
    } else if at == a.len() {
        true
    } else {
        assert(p.skip(at as int)[0] == a@[at as int] as int);
        assert(q.skip(at as int)[0] == b@[at as int] as int);
        a[at] < b[at]
    }
}

} // verus!
