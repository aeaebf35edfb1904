//! The order of `String`s as sequences of characters, and a stable sort of
//! values by a text key.
use vstd::prelude::*;

verus! {

/// `a` comes before or equals `b` in the order of `String`: lexicographic
/// by characters, a proper prefix first.
pub open spec fn text_le(a: Seq<char>, b: Seq<char>) -> bool
    decreases a.len(),
{
    if a.len() == 0 {
        true
    } else if b.len() == 0 {
        false
    } else if a[0] != b[0] {
        (a[0] as int) < (b[0] as int)
    } else {
        text_le(a.drop_first(), b.drop_first())
    }
}

pub proof fn lemma_text_le_reflexive(a: Seq<char>)
    ensures
        text_le(a, a),
    decreases a.len(),
{
    if a.len() > 0 {
        lemma_text_le_reflexive(a.drop_first());
    }
}

pub proof fn lemma_text_le_total(a: Seq<char>, b: Seq<char>)
    ensures
        text_le(a, b) || text_le(b, a),
    decreases a.len(),
{
    if a.len() > 0 && b.len() > 0 {
        if a[0] == b[0] {
            lemma_text_le_total(a.drop_first(), b.drop_first());
        } else {
            assert((a[0] as int) != (b[0] as int));
        }
    }
}

pub proof fn lemma_text_le_transitive(a: Seq<char>, b: Seq<char>, c: Seq<char>)
    requires
        text_le(a, b),
        text_le(b, c),
    ensures
        text_le(a, c),
    decreases a.len(),
{
    if a.len() > 0 && b.len() > 0 && c.len() > 0 && a[0] == b[0] && b[0] == c[0] {
        lemma_text_le_transitive(a.drop_first(), b.drop_first(), c.drop_first());
    }
}

pub proof fn lemma_text_le_skip(a: Seq<char>, b: Seq<char>, i: int)
    requires
        0 <= i <= a.len(),
        i <= b.len(),
        forall|j: int| 0 <= j < i ==> a[j] == b[j],
    ensures
        text_le(a, b) == text_le(a.skip(i), b.skip(i)),
    decreases i,
{
    if i > 0 {
        lemma_text_le_skip(a, b, i - 1);
        let x = a.skip(i - 1);
        let y = b.skip(i - 1);
        assert(x[0] == y[0]);
        assert(x.drop_first() =~= a.skip(i));
        assert(y.drop_first() =~= b.skip(i));
    } else {
        assert(a.skip(0) =~= a);
        assert(b.skip(0) =~= b);
    }
}

pub fn text_le_exec(a: &Vec<char>, b: &Vec<char>) -> (r: bool)
    ensures
        r == text_le(a@, b@),
{
    let mut i: usize = 0;
    while i < a.len() && i < b.len() && a[i] == b[i]
        invariant
            i <= a.len(),
            i <= b.len(),
            forall|j: int| 0 <= j < i ==> a@[j] == b@[j],
        decreases a.len() - i,
    {
        i += 1;
    }
    proof {
        lemma_text_le_skip(a@, b@, i as int);
    }
    if i == a.len() {
        true
    } else if i == b.len() {
        false
    } else {
        assert(a@.skip(i as int)[0] == a@[i as int]);
        assert(b@.skip(i as int)[0] == b@[i as int]);
        a[i] < b[i]
    }
}

pub proof fn lemma_filter_none<A>(s: Seq<A>, p: spec_fn(A) -> bool)
    requires
        forall|k: int| 0 <= k < s.len() ==> !p(#[trigger] s[k]),
    ensures
        s.filter(p) == Seq::<A>::empty(),
{
    if s.filter(p).len() > 0 {
        s.lemma_filter_pred(p, 0);
        assert(s.filter(p).contains(s.filter(p)[0]));
        s.lemma_filter_contains_rev(p, s.filter(p)[0]);
    }
    assert(s.filter(p) =~= Seq::<A>::empty());
}

pub proof fn lemma_filter_single<A>(x: A, p: spec_fn(A) -> bool)
    ensures
        seq![x].filter(p) == if p(x) {
            seq![x]
        } else {
            Seq::<A>::empty()
        },
{
    Seq::<A>::empty().lemma_filter_len(p);
    assert(Seq::<A>::empty().filter(p) =~= Seq::<A>::empty());
    Seq::<A>::empty().lemma_filter_push(x, p);
    assert(Seq::<A>::empty().push(x) =~= seq![x]);
}

/// `a` may come before `b`: ascending, or descending when `desc`.
pub open spec fn in_order(desc: bool, a: Seq<char>, b: Seq<char>) -> bool {
    if desc {
        text_le(b, a)
    } else {
        text_le(a, b)
    }
}

/// Each value's key is in order with the keys of the values after it.
pub open spec fn sorted_by<T>(s: Seq<T>, key: spec_fn(T) -> Seq<char>, desc: bool) -> bool {
    forall|i: int, j: int| 0 <= i < j < s.len() ==> in_order(desc, key(s[i]), key(s[j]))
}

/// A value whose key is `k`.
pub open spec fn key_is<T>(key: spec_fn(T) -> Seq<char>, k: Seq<char>) -> spec_fn(T) -> bool {
    |x: T| key(x) == k
}

/// Two sequences with the same values for every key hold the same values.
pub proof fn lemma_same_keys_contains<T>(a: Seq<T>, b: Seq<T>, key: spec_fn(T) -> Seq<char>, x: T)
    requires
        forall|k: Seq<char>| #[trigger] a.filter(key_is(key, k)) == b.filter(key_is(key, k)),
        a.contains(x),
    ensures
        b.contains(x),
{
    let p = key_is(key, key(x));
    let i = choose|i: int| 0 <= i < a.len() && a[i] == x;
    a.lemma_filter_contains(p, i);
    assert(a.filter(p) == b.filter(p));
    b.lemma_filter_contains_rev(p, x);
}

proof fn lemma_in_order_total(desc: bool, a: Seq<char>, b: Seq<char>)
    ensures
        in_order(desc, a, b) || in_order(desc, b, a),
{
    lemma_text_le_total(a, b);
}

proof fn lemma_in_order_transitive(desc: bool, a: Seq<char>, b: Seq<char>, c: Seq<char>)
    requires
        in_order(desc, a, b),
        in_order(desc, b, c),
    ensures
        in_order(desc, a, c),
{
    if desc {
        lemma_text_le_transitive(c, b, a);
    } else {
        lemma_text_le_transitive(a, b, c);
    }
}

fn in_order_exec(desc: bool, a: &Vec<char>, b: &Vec<char>) -> (r: bool)
    ensures
        r == in_order(desc, a@, b@),
{
    if desc {
        text_le_exec(b, a)
    } else {
        text_le_exec(a, b)
    }
}

/// Sorts `items` by their keys `keys`, ascending or descending, keeping the
/// order of values with equal keys.
pub(crate) fn stable_sort_by<T>(
    items: Vec<T>,
    keys: Vec<Vec<char>>,
    desc: bool,
    Ghost(key): Ghost<spec_fn(T) -> Seq<char>>,
) -> (r: Vec<T>)
    requires
        keys@.len() == items@.len(),
        forall|i: int| 0 <= i < items@.len() ==> #[trigger] keys@[i]@ == key(items@[i]),
    ensures
        r@.len() == items@.len(),
        sorted_by(r@, key, desc),
        forall|k: Seq<char>| #[trigger] r@.filter(key_is(key, k)) == items@.filter(key_is(key, k)),
{
    let ghost orig = items@;
    let ghost okeys = keys@;
    let total: usize = items.len();
    assert(orig.len() == total);
    let mut items = items;
    let mut keys = keys;
    let mut out: Vec<T> = Vec::new();
    let mut out_keys: Vec<Vec<char>> = Vec::new();
    let mut i: usize = 0;
    assert(orig.skip(0) =~= orig);
    assert(okeys.skip(0) =~= okeys);
    while items.len() > 0
        invariant
            i <= orig.len(),
            orig.len() <= usize::MAX,
            items@ == orig.skip(i as int),
            keys@ == okeys.skip(i as int),
            okeys.len() == orig.len(),
            forall|m: int| 0 <= m < orig.len() ==> #[trigger] okeys[m]@ == key(orig[m]),
            out@.len() == i,
            out_keys@.len() == out@.len(),
            forall|m: int| 0 <= m < out_keys@.len() ==> #[trigger] out_keys@[m]@ == key(out@[m]),
            sorted_by(out@, key, desc),
            forall|k: Seq<char>| #[trigger] out@.filter(key_is(key, k)) == orig.take(i as int).filter(key_is(key, k)),
        decreases items@.len(),
    {
        let x = items.remove(0);
        let kx = keys.remove(0);
        assert(orig.skip(i as int)[0] == orig[i as int]);
        assert(okeys.skip(i as int)[0] == okeys[i as int]);
        assert(orig.skip(i as int).drop_first() =~= orig.skip(i + 1));
        assert(okeys.skip(i as int).drop_first() =~= okeys.skip(i + 1));
        assert(kx@ == key(x));
        let mut j: usize = 0;
        while j < out.len() && in_order_exec(desc, &out_keys[j], &kx)
            invariant
                j <= out@.len(),
                out_keys@.len() == out@.len(),
                forall|m: int| 0 <= m < out_keys@.len() ==> #[trigger] out_keys@[m]@ == key(out@[m]),
                forall|m: int| 0 <= m < j ==> in_order(desc, key(#[trigger] out@[m]), kx@),
            decreases out@.len() - j,
        {
            j += 1;
        }
        let ghost o = out@;
        let ghost ok = out_keys@;
        proof {
            assert forall|b: int| j <= b < o.len() implies !in_order(desc, key(#[trigger] o[b]), kx@) by {
                if in_order(desc, key(o[b]), kx@) {
                    assert(out_keys@[j as int]@ == key(o[j as int]));
                    if b > j {
                        lemma_in_order_transitive(desc, key(o[j as int]), key(o[b]), kx@);
                    }
                }
            }
            assert forall|b: int| j <= b < o.len() implies in_order(desc, kx@, key(#[trigger] o[b])) by {
                lemma_in_order_total(desc, kx@, key(o[b]));
            }
        }
        out.insert(j, x);
        out_keys.insert(j, kx);
        proof {
            let n = out@;
            assert(n =~= o.take(j as int) + seq![x] + o.skip(j as int));
            assert forall|a: int, b: int| 0 <= a < b < n.len() implies in_order(desc, key(n[a]), key(n[b])) by {
                if b < j {
                } else if b == j {
                } else if a == j {
                } else if a < j {
                    lemma_in_order_transitive(desc, key(o[a]), kx@, key(o[b - 1]));
                } else {
                }
            }
            assert forall|m: int| 0 <= m < out_keys@.len() implies #[trigger] out_keys@[m]@ == key(out@[m]) by {
                if m > j {
                    assert(out_keys@[m] == ok[m - 1]);
                    assert(n[m] == o[m - 1]);
                }
            }
            assert(orig.take(i + 1) =~= orig.take(i as int).push(x));
            assert forall|k: Seq<char>| #[trigger] n.filter(key_is(key, k)) == orig.take(i + 1).filter(key_is(key, k)) by {
                let p = key_is(key, k);
                orig.take(i as int).lemma_filter_push(x, p);
                Seq::filter_distributes_over_add(o.take(j as int) + seq![x], o.skip(j as int), p);
                Seq::filter_distributes_over_add(o.take(j as int), seq![x], p);
                Seq::filter_distributes_over_add(o.take(j as int), o.skip(j as int), p);
                assert(o =~= o.take(j as int) + o.skip(j as int));
                lemma_filter_single(x, p);
                if key(x) == k {
                    assert forall|m: int| 0 <= m < o.skip(j as int).len() implies !p(#[trigger] o.skip(j as int)[m]) by {
                        assert(o.skip(j as int)[m] == o[j + m]);
                        if key(o[j + m]) == kx@ {
                            lemma_text_le_reflexive(kx@);
                        }
                    }
                    lemma_filter_none(o.skip(j as int), p);
                    assert(n.filter(p) =~= o.filter(p).push(x));
                } else {
                    assert(n.filter(p) =~= o.filter(p));
                }
            }
        }
        i += 1;
    }
    assert(orig.take(orig.len() as int) =~= orig);
    out
}

} // verus!
