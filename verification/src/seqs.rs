//! Facts about prefixes of sequences, used to step through loops.

use vstd::prelude::*;

verus! {

/// A prefix grown by one element is the shorter prefix with that element pushed.
pub proof fn lemma_take_step<A>(s: Seq<A>, i: int)
    requires
        0 <= i < s.len(),
    ensures
        s.take(i + 1) == s.take(i).push(s[i]),
{
    assert(s.take(i + 1) =~= s.take(i).push(s[i]));
}

/// Filtering a prefix grown by one element keeps or skips exactly that element.
pub proof fn lemma_filter_step<A>(s: Seq<A>, i: int, p: spec_fn(A) -> bool)
    requires
        0 <= i < s.len(),
    ensures
        s.take(i + 1).filter(p) == (if p(s[i]) {
            s.take(i).filter(p).push(s[i])
        } else {
            s.take(i).filter(p)
        }),
{
    lemma_take_step(s, i);
    s.take(i).lemma_filter_push(s[i], p);
}

/// Mapping a prefix grown by one element appends the image of that element.
pub proof fn lemma_map_step<A, B>(s: Seq<A>, i: int, f: spec_fn(A) -> B)
    requires
        0 <= i < s.len(),
    ensures
        s.take(i + 1).map_values(f) == s.take(i).map_values(f).push(f(s[i])),
{
    assert(s.take(i + 1).map_values(f) =~= s.take(i).map_values(f).push(f(s[i])));
}

/// `filter_map` over a prefix grown by one element.
pub proof fn lemma_filter_map_step<A, B>(s: Seq<A>, i: int, f: spec_fn(A) -> Option<B>)
    requires
        0 <= i < s.len(),
    ensures
        s.take(i + 1).filter_map(f) == (match f(s[i]) {
            Some(b) => s.take(i).filter_map(f).push(b),
            None => s.take(i).filter_map(f),
        }),
{
    let t = s.take(i + 1);
    assert(t.drop_last() =~= s.take(i));
    assert(t.last() == s[i]);
    match f(s[i]) {
        Some(b) => {
            assert(s.take(i).filter_map(f) + seq![b] =~= s.take(i).filter_map(f).push(b));
        },
        None => {},
    }
}

/// The full prefix is the sequence itself.
pub proof fn lemma_take_all<A>(s: Seq<A>)
    ensures
        s.take(s.len() as int) == s,
{
    assert(s.take(s.len() as int) =~= s);
}

/// The empty prefix filters and maps to the empty sequence.
pub proof fn lemma_take_none<A>(s: Seq<A>, p: spec_fn(A) -> bool)
    ensures
        s.take(0) == Seq::<A>::empty(),
        s.take(0).filter(p) == Seq::<A>::empty(),
{
    assert(s.take(0) =~= Seq::<A>::empty());
    reveal(Seq::filter);
}

/// Where a filter drops nothing, every element passes it.
pub proof fn lemma_filter_full<A>(s: Seq<A>, p: spec_fn(A) -> bool)
    requires
        s.filter(p).len() == s.len(),
    ensures
        forall|i: int| 0 <= i < s.len() ==> p(#[trigger] s[i]),
    decreases s.len(),
{
    reveal(Seq::filter);
    if s.len() > 0 {
        s.drop_last().lemma_filter_len(p);
        lemma_filter_full(s.drop_last(), p);
        assert forall|i: int| 0 <= i < s.len() implies p(#[trigger] s[i]) by {
            if i < s.len() - 1 {
                assert(s.drop_last()[i] == s[i]);
            }
        }
    }
}

/// Inserting an element that a filter drops does not change what it keeps.
pub proof fn lemma_filter_insert_dropped<A>(s: Seq<A>, at: int, e: A, p: spec_fn(A) -> bool)
    requires
        0 <= at <= s.len(),
        !p(e),
    ensures
        s.insert(at, e).filter(p) == s.filter(p),
{
    let front = s.take(at);
    let back = s.skip(at);
    assert(s =~= front + back);
    assert(s.insert(at, e) =~= front.push(e) + back);
    front.lemma_filter_push(e, p);
    Seq::filter_distributes_over_add(front, back, p);
    Seq::filter_distributes_over_add(front.push(e), back, p);
}

/// Where every element passes a filter, it drops nothing.
pub proof fn lemma_filter_keeps_all<A>(s: Seq<A>, p: spec_fn(A) -> bool)
    requires
        forall|i: int| 0 <= i < s.len() ==> p(#[trigger] s[i]),
    ensures
        s.filter(p) == s,
    decreases s.len(),
{
    reveal(Seq::filter);
    if s.len() > 0 {
        let front = s.drop_last();
        assert forall|i: int| 0 <= i < front.len() implies p(#[trigger] front[i]) by {
            assert(front[i] == s[i]);
        }
        lemma_filter_keeps_all(front, p);
        assert(p(s[s.len() - 1]));
        assert(s =~= front.push(s.last()));
    }
}

/// Everything that a filter keeps stands in the sequence and passes.
pub proof fn lemma_filter_members<A>(s: Seq<A>, p: spec_fn(A) -> bool)
    ensures
        forall|i: int|
            0 <= i < s.filter(p).len() ==> p(#[trigger] s.filter(p)[i]) && exists|j: int|
                0 <= j < s.len() && s[j] == s.filter(p)[i],
    decreases s.len(),
{
    reveal(Seq::filter);
    if s.len() > 0 {
        let front = s.drop_last();
        lemma_filter_members(front, p);
        assert forall|i: int| 0 <= i < s.filter(p).len() implies p(#[trigger] s.filter(p)[i])
            && exists|j: int| 0 <= j < s.len() && s[j] == s.filter(p)[i] by {
            if i < front.filter(p).len() {
                assert(front.filter(p)[i] == s.filter(p)[i]);
                let j = choose|j: int| 0 <= j < front.len() && front[j] == front.filter(p)[i];
                assert(s[j] == s.filter(p)[i]);
            } else {
                assert(s[s.len() - 1] == s.filter(p)[i]);
            }
        }
    }
}

/// An element that passes a filter is among those that it keeps.
pub proof fn lemma_filter_keeps<A>(s: Seq<A>, p: spec_fn(A) -> bool, i: int)
    requires
        0 <= i < s.len(),
        p(s[i]),
    ensures
        s.filter(p).contains(s[i]),
        s.filter(p).len() > 0,
    decreases s.len(),
{
    reveal(Seq::filter);
    let front = s.drop_last();
    if i < front.len() {
        lemma_filter_keeps(front, p, i);
        let k = choose|k: int| 0 <= k < front.filter(p).len() && front.filter(p)[k] == front[i];
        assert(s.filter(p)[k] == s[i]);
    } else {
        assert(s.filter(p)[s.filter(p).len() - 1] == s[i]);
    }
}

/// Three places whose elements pass a filter leave at least three.
pub proof fn lemma_filter_keeps_three<A>(s: Seq<A>, p: spec_fn(A) -> bool, i: int, j: int, k: int)
    requires
        0 <= i < j < k < s.len(),
        p(s[i]),
        p(s[j]),
        p(s[k]),
    ensures
        s.filter(p).len() >= 3,
{
    let a = s.take(i + 1);
    let b = s.subrange(i + 1, j + 1);
    let c = s.skip(j + 1);
    assert(s =~= a + b + c);
    assert(s.take(j + 1) =~= a + b);
    Seq::filter_distributes_over_add(a, b, p);
    Seq::filter_distributes_over_add(a + b, c, p);
    assert(a[i] == s[i]);
    assert(b[j - i - 1] == s[j]);
    assert(c[k - j - 1] == s[k]);
    lemma_filter_keeps(a, p, i);
    lemma_filter_keeps(b, p, j - i - 1);
    lemma_filter_keeps(c, p, k - j - 1);
}

/// Filtering twice is filtering by both.
pub proof fn lemma_filter_twice<A>(
    s: Seq<A>,
    p: spec_fn(A) -> bool,
    q: spec_fn(A) -> bool,
    both: spec_fn(A) -> bool,
)
    requires
        forall|a: A| #[trigger] both(a) == (p(a) && q(a)),
    ensures
        s.filter(p).filter(q) == s.filter(both),
    decreases s.len(),
{
    reveal(Seq::filter);
    if s.len() > 0 {
        let front = s.drop_last();
        lemma_filter_twice(front, p, q, both);
        let last = s.last();
        assert(both(last) == (p(last) && q(last)));
        if p(last) {
            front.filter(p).lemma_filter_push(last, q);
            assert(s.filter(p) == front.filter(p).push(last));
        }
    }
}

/// What `filter_map` gives is exactly what the function gives for some element.
pub proof fn lemma_filter_map_members<A, B>(s: Seq<A>, f: spec_fn(A) -> Option<B>, b: B)
    ensures
        s.filter_map(f).contains(b) <==> exists|i: int|
            0 <= i < s.len() && f(#[trigger] s[i]) == Some(b),
    decreases s.len(),
{
    reveal(Seq::filter_map);
    if s.len() > 0 {
        let front = s.drop_last();
        let n = s.len() - 1;
        lemma_take_all(s);
        assert(s.take(n) =~= front);
        lemma_filter_map_step(s, n, f);
        lemma_filter_map_members(front, f, b);
        if front.filter_map(f).contains(b) {
            let i = choose|i: int| 0 <= i < front.len() && f(#[trigger] front[i]) == Some(b);
            assert(f(s[i]) == Some(b));
            let k = choose|k: int|
                0 <= k < front.filter_map(f).len() && front.filter_map(f)[k] == b;
            assert(s.filter_map(f)[k] == b);
        }
        if f(s[n]) == Some(b) {
            assert(s.filter_map(f)[s.filter_map(f).len() - 1] == b);
        }
        if s.filter_map(f).contains(b) && !front.filter_map(f).contains(b) {
            let k = choose|k: int| 0 <= k < s.filter_map(f).len() && s.filter_map(f)[k] == b;
            if k < front.filter_map(f).len() {
                assert(front.filter_map(f)[k] == b);
            }
            assert(f(s[n]) == Some(b));
        }
        if exists|i: int| 0 <= i < s.len() && f(#[trigger] s[i]) == Some(b) {
            let i = choose|i: int| 0 <= i < s.len() && f(#[trigger] s[i]) == Some(b);
            if i < n {
                assert(f(front[i]) == Some(b));
            }
        }
    }
}

// ── association lists ────────────────────────────────────────────────────

/// The map that a list of key-value pairs stands for.
pub open spec fn assoc<K, V>(s: Seq<(K, V)>) -> Map<K, V>
    decreases s.len(),
{
    if s.len() == 0 {
        Map::empty()
    } else {
        assoc(s.drop_last()).insert(s.last().0, s.last().1)
    }
}

/// Whether no key occurs twice.
pub open spec fn keys_distinct<K, V>(s: Seq<(K, V)>) -> bool {
    forall|i: int, j: int| 0 <= i < j < s.len() ==> (#[trigger] s[i]).0 != (#[trigger] s[j]).0
}

/// With distinct keys the map holds exactly the listed pairs.
pub proof fn lemma_assoc<K, V>(s: Seq<(K, V)>)
    requires
        keys_distinct(s),
    ensures
        forall|i: int|
            0 <= i < s.len() ==> assoc(s).contains_key((#[trigger] s[i]).0) && assoc(s)[s[i].0]
                == s[i].1,
        forall|k: K| #[trigger]
            assoc(s).contains_key(k) ==> exists|i: int|
                0 <= i < s.len() && (#[trigger] s[i]).0 == k,
    decreases s.len(),
{
    if s.len() > 0 {
        let front = s.drop_last();
        assert forall|i: int, j: int| 0 <= i < j < front.len() implies (#[trigger] front[i]).0 != (
        #[trigger] front[j]).0 by {
            assert(front[i] == s[i] && front[j] == s[j]);
        }
        lemma_assoc(front);
        assert forall|i: int| 0 <= i < s.len() implies assoc(s).contains_key((#[trigger] s[i]).0)
            && assoc(s)[s[i].0] == s[i].1 by {
            if i < front.len() {
                assert(front[i] == s[i]);
                assert(s[i].0 != s[s.len() - 1].0);
            }
        }
        assert forall|k: K| #[trigger] assoc(s).contains_key(k) implies exists|i: int|
            0 <= i < s.len() && (#[trigger] s[i]).0 == k by {
            if k == s.last().0 {
                assert(s[s.len() - 1].0 == k);
            } else {
                assert(assoc(front).contains_key(k));
                let i = choose|i: int| 0 <= i < front.len() && (#[trigger] front[i]).0 == k;
                assert(s[i].0 == k);
            }
        }
    }
}

/// Replacing the value of a listed key inserts it into the map.
pub proof fn lemma_assoc_update<K, V>(s: Seq<(K, V)>, i: int, v: V)
    requires
        keys_distinct(s),
        0 <= i < s.len(),
    ensures
        keys_distinct(s.update(i, (s[i].0, v))),
        assoc(s.update(i, (s[i].0, v))) == assoc(s).insert(s[i].0, v),
{
    let t = s.update(i, (s[i].0, v));
    assert forall|a: int, b: int| 0 <= a < b < t.len() implies (#[trigger] t[a]).0 != (
    #[trigger] t[b]).0 by {
        assert(t[a].0 == s[a].0 && t[b].0 == s[b].0);
    }
    lemma_assoc(s);
    lemma_assoc(t);
    let goal = assoc(s).insert(s[i].0, v);
    assert forall|k: K| #[trigger] assoc(t).contains_key(k) <==> goal.contains_key(k) by {
        if assoc(t).contains_key(k) {
            let a = choose|a: int| 0 <= a < t.len() && (#[trigger] t[a]).0 == k;
            assert(s[a].0 == k);
        }
        if assoc(s).contains_key(k) {
            let a = choose|a: int| 0 <= a < s.len() && (#[trigger] s[a]).0 == k;
            assert(t[a].0 == k);
        }
        assert(t[i].0 == s[i].0);
    }
    assert forall|k: K| #[trigger] assoc(t).contains_key(k) implies assoc(t)[k] == goal[k] by {
        let a = choose|a: int| 0 <= a < t.len() && (#[trigger] t[a]).0 == k;
        assert(s[a].0 == k);
    }
    assert(assoc(t) =~= goal);
}

/// Listing a new key inserts it into the map.
pub proof fn lemma_assoc_push<K, V>(s: Seq<(K, V)>, k: K, v: V)
    requires
        keys_distinct(s),
        forall|i: int| 0 <= i < s.len() ==> (#[trigger] s[i]).0 != k,
    ensures
        keys_distinct(s.push((k, v))),
        assoc(s.push((k, v))) == assoc(s).insert(k, v),
        !assoc(s).contains_key(k),
{
    let t = s.push((k, v));
    assert(t.drop_last() =~= s);
    assert forall|a: int, b: int| 0 <= a < b < t.len() implies (#[trigger] t[a]).0 != (
    #[trigger] t[b]).0 by {
        assert(t[a] == s[a]);
        if b < s.len() {
            assert(t[b] == s[b]);
        }
    }
    lemma_assoc(s);
}

/// Striking a listed key removes it from the map.
pub proof fn lemma_assoc_remove<K, V>(s: Seq<(K, V)>, i: int)
    requires
        keys_distinct(s),
        0 <= i < s.len(),
    ensures
        keys_distinct(s.remove(i)),
        assoc(s.remove(i)) == assoc(s).remove(s[i].0),
{
    let t = s.remove(i);
    assert forall|a: int, b: int| 0 <= a < b < t.len() implies (#[trigger] t[a]).0 != (
    #[trigger] t[b]).0 by {
        let a1 = if a < i {
            a
        } else {
            a + 1
        };
        let b1 = if b < i {
            b
        } else {
            b + 1
        };
        assert(t[a] == s[a1] && t[b] == s[b1]);
    }
    lemma_assoc(s);
    lemma_assoc(t);
    let goal = assoc(s).remove(s[i].0);
    assert forall|k: K| #[trigger] assoc(t).contains_key(k) <==> goal.contains_key(k) by {
        if assoc(t).contains_key(k) {
            let a = choose|a: int| 0 <= a < t.len() && (#[trigger] t[a]).0 == k;
            let a1 = if a < i {
                a
            } else {
                a + 1
            };
            assert(t[a] == s[a1]);
            assert(s[a1].0 == k && s[a1].0 != s[i].0);
        }
        if goal.contains_key(k) {
            assert(assoc(s).contains_key(k));
            let a = choose|a: int| 0 <= a < s.len() && (#[trigger] s[a]).0 == k;
            let a1 = if a < i {
                a
            } else {
                a - 1
            };
            assert(t[a1] == s[a]);
        }
    }
    assert forall|k: K| #[trigger] assoc(t).contains_key(k) implies assoc(t)[k] == goal[k] by {
        let a = choose|a: int| 0 <= a < t.len() && (#[trigger] t[a]).0 == k;
        let a1 = if a < i {
            a
        } else {
            a + 1
        };
        assert(t[a] == s[a1]);
    }
    assert(assoc(t) =~= goal);
}

} // verus!
