//! Stable sorting by falling score.
use vstd::prelude::*;

verus! {

/// The key by which numbers rank themselves.
pub open spec fn by_value() -> spec_fn(int) -> int {
    |x: int| x
}

/// `s` with `x` put behind the last element whose key is not below that of `x`.
pub open spec fn insert_ranked<T>(s: Seq<T>, x: T, key: spec_fn(T) -> int) -> Seq<T>
    decreases s.len(),
{
    if s.len() == 0 || key(s.last()) >= key(x) {
        s.push(x)
    } else {
        insert_ranked(s.drop_last(), x, key).push(s.last())
    }
}

/// `s` sorted by falling key; elements with equal keys keep their order.
pub open spec fn ranked<T>(s: Seq<T>, key: spec_fn(T) -> int) -> Seq<T>
    decreases s.len(),
{
    if s.len() == 0 {
        s
    } else {
        insert_ranked(ranked(s.drop_last(), key), s.last(), key)
    }
}

/// The keys of `s` never rise.
pub open spec fn falls<T>(s: Seq<T>, key: spec_fn(T) -> int) -> bool {
    forall|i: int, j: int| 0 <= i <= j < s.len() ==> key(#[trigger] s[i]) >= key(#[trigger] s[j])
}

/// Where `insert_ranked` puts `x` into a falling sequence.
pub proof fn lemma_insert_place<T>(s: Seq<T>, x: T, key: spec_fn(T) -> int) -> (j: int)
    requires
        falls(s, key),
    ensures
        0 <= j <= s.len(),
        insert_ranked(s, x, key) =~= s.take(j).push(x) + s.skip(j),
        forall|i: int| 0 <= i < j ==> key(#[trigger] s[i]) >= key(x),
        forall|i: int| j <= i < s.len() ==> key(#[trigger] s[i]) < key(x),
        falls(insert_ranked(s, x, key), key),
    decreases s.len(),
{
    if s.len() == 0 || key(s.last()) >= key(x) {
        s.len() as int
    } else {
        let j = lemma_insert_place(s.drop_last(), x, key);
        let t = s.drop_last();
        assert(t.take(j) =~= s.take(j));
        assert(t.skip(j).push(s.last()) =~= s.skip(j));
        assert(insert_ranked(s, x, key) =~= s.take(j).push(x) + s.skip(j));
        assert forall|i: int| j <= i < s.len() implies key(#[trigger] s[i]) < key(x) by {
            if i < s.len() - 1 {
                assert(t[i] == s[i]);
            }
        }
        assert forall|i: int| 0 <= i < j implies key(#[trigger] s[i]) >= key(x) by {
            assert(t[i] == s[i]);
        }
        j
    }
}

/// Sorting keeps the length, the elements and their number, and makes the keys fall.
pub proof fn lemma_ranked<T>(s: Seq<T>, key: spec_fn(T) -> int)
    ensures
        ranked(s, key).len() == s.len(),
        falls(ranked(s, key), key),
        ranked(s, key).to_multiset() == s.to_multiset(),
        forall|x: T| #[trigger] ranked(s, key).contains(x) <==> s.contains(x),
    decreases s.len(),
{
    broadcast use vstd::seq_lib::group_to_multiset_ensures;

    if s.len() > 0 {
        let t = s.drop_last();
        let x = s.last();
        lemma_ranked(t, key);
        let r = ranked(t, key);
        let j = lemma_insert_place(r, x, key);
        assert(r.take(j) + r.skip(j) =~= r);
        assert(ranked(s, key) =~= r.take(j).push(x) + r.skip(j));
        assert(r.take(j).push(x) + r.skip(j) =~= r.insert(j, x));
        assert(s =~= t.push(x));
        assert(ranked(s, key).to_multiset() =~= s.to_multiset());
    }
    assert forall|x: T| #[trigger] ranked(s, key).contains(x) <==> s.contains(x) by {
        assert(ranked(s, key).contains(x) <==> ranked(s, key).to_multiset().count(x) > 0);
        assert(s.contains(x) <==> s.to_multiset().count(x) > 0);
    }
}

/// The score of a scored item.
pub open spec fn score_of<T>(item: (T, i128)) -> int {
    item.1 as int
}

/// The key by which scored items are ranked.
pub open spec fn by_score<T>() -> spec_fn((T, i128)) -> int {
    |item: (T, i128)| score_of(item)
}

/// Sorts scored items by falling score; items with equal scores keep their order.
pub fn rank<T: Copy>(items: Vec<(T, i128)>) -> (sorted: Vec<(T, i128)>)
    ensures
        sorted@ == ranked(items@, by_score()),
{
    let mut sorted = items;
    let n = sorted.len();
    assert(sorted@.take(0) =~= Seq::<(T, i128)>::empty());
    let mut i: usize = 0;
    while i < n
        invariant
            i <= n,
            n == items@.len(),
            sorted@.len() == n,
            sorted@.take(i as int) == ranked(items@.take(i as int), by_score()),
            forall|k: int| i <= k < n ==> sorted@[k] == items@[k],
        decreases n - i,
    {
        let ghost head = sorted@.take(i as int);
        let ghost x = sorted@[i as int];
        let ghost before = sorted@;
        proof {
            assert(items@.take(i + 1).drop_last() =~= items@.take(i as int));
            assert(items@.take(i + 1).last() == x);
            assert(head.take(i as int) =~= head);
        }
        let mut j: usize = i;
        while j > 0 && sorted[j - 1].1 < sorted[j].1
            invariant
                j <= i < n,
                sorted@.len() == n,
                head.len() == i,
                x == before[i as int],
                head == before.take(i as int),
                before.len() == n,
                sorted@.take(j as int) =~= head.take(j as int),
                sorted@[j as int] == x,
                forall|k: int| j <= k < i ==> #[trigger] sorted@[k + 1] == head[k],
                forall|k: int| i < k < n ==> sorted@[k] == before[k],
                insert_ranked(head, x, by_score()) == insert_ranked(head.take(j as int), x, by_score()) + head.skip(j as int),
            decreases j,
        {
            let ghost s0 = sorted@;
            let low = sorted[j - 1];
            let high = sorted[j];
            sorted[j - 1] = high;
            sorted[j] = low;
            proof {
                let t = head.take(j as int);
                assert(s0.take(j as int)[j - 1] == t[j - 1]);
                assert(low == head[j - 1]);
                assert(t.drop_last() =~= head.take(j - 1));
                assert(t.last() == low);
                assert(insert_ranked(t, x, by_score()) == insert_ranked(head.take(j - 1), x, by_score()).push(low));
                assert(head.skip(j - 1) =~= seq![low] + head.skip(j as int));
                assert(insert_ranked(head.take(j - 1), x, by_score()).push(low) + head.skip(j as int)
                    =~= insert_ranked(head.take(j - 1), x, by_score()) + head.skip(j - 1));
                assert forall|k: int| 0 <= k < j - 1 implies sorted@[k] == head[k] by {
                    assert(s0.take(j as int)[k] == head.take(j as int)[k]);
                }
                assert(sorted@.take(j - 1) =~= head.take(j - 1));
            }
            j = j - 1;
        }
        proof {
            let t = head.take(j as int);
            if j > 0 {
                assert(sorted@.take(j as int)[j - 1] == t[j - 1]);
                assert(t.last() == sorted@[j - 1]);
            }
            assert(insert_ranked(t, x, by_score()) == t.push(x));
            assert forall|k: int| 0 <= k < j implies sorted@[k] == head[k] by {
                assert(sorted@.take(j as int)[k] == head.take(j as int)[k]);
            }
            assert(sorted@.take(i + 1) =~= t.push(x) + head.skip(j as int)) by {
                assert forall|k: int| j < k <= i implies sorted@[k] == head.skip(j as int)[k - j - 1] by {
                    assert(sorted@[(k - 1) + 1] == head[k - 1]);
                }
            }
        }
        i = i + 1;
    }
    proof {
        assert(sorted@.take(n as int) =~= sorted@);
        assert(items@.take(n as int) =~= items@);
    }
    sorted
}

/// What scored items hold.
pub open spec fn firsts<T>(items: Seq<(T, i128)>) -> Seq<T> {
    Seq::new(items.len(), |i: int| items[i].0)
}

proof fn lemma_insert_firsts<T>(items: Seq<(T, i128)>, x: (T, i128), key: spec_fn(T) -> int)
    requires
        forall|i: int| 0 <= i < items.len() ==> (#[trigger] items[i]).1 == key(items[i].0),
        x.1 == key(x.0),
    ensures
        firsts(insert_ranked(items, x, by_score())) == insert_ranked(firsts(items), x.0, key),
        forall|i: int|
            0 <= i < insert_ranked(items, x, by_score()).len() ==> (#[trigger] insert_ranked(
                items,
                x,
                by_score(),
            )[i]).1 == key(insert_ranked(items, x, by_score())[i].0),
    decreases items.len(),
{
    let a = insert_ranked(items, x, by_score());
    if items.len() == 0 || by_score()(items.last()) >= by_score()(x) {
        assert(firsts(a) =~= firsts(items).push(x.0));
        if items.len() > 0 {
            assert(items[items.len() - 1].1 == key(items[items.len() - 1].0));
        }
    } else {
        lemma_insert_firsts(items.drop_last(), x, key);
        assert(firsts(items.drop_last()) =~= firsts(items).drop_last());
        let b = insert_ranked(items.drop_last(), x, by_score());
        assert(firsts(a) =~= firsts(b).push(items.last().0));
        assert(items[items.len() - 1].1 == key(items[items.len() - 1].0));
        assert forall|i: int| 0 <= i < a.len() implies (#[trigger] a[i]).1 == key(a[i].0) by {
            if i < b.len() {
                assert(a[i] == b[i]);
            }
        }
    }
}

/// Ranking scored items ranks what they hold by what their scores stand for.
pub proof fn lemma_ranked_firsts<T>(items: Seq<(T, i128)>, key: spec_fn(T) -> int)
    requires
        forall|i: int| 0 <= i < items.len() ==> (#[trigger] items[i]).1 == key(items[i].0),
    ensures
        firsts(ranked(items, by_score())) == ranked(firsts(items), key),
        forall|i: int|
            0 <= i < ranked(items, by_score()).len() ==> (#[trigger] ranked(items, by_score())[i]).1 == key(
                ranked(items, by_score())[i].0,
            ),
    decreases items.len(),
{
    if items.len() == 0 {
        assert(firsts(items) =~= Seq::<T>::empty());
    } else {
        let t = items.drop_last();
        lemma_ranked_firsts(t, key);
        assert(firsts(t) =~= firsts(items).drop_last());
        assert(items[items.len() - 1].1 == key(items[items.len() - 1].0));
        lemma_insert_firsts(ranked(t, by_score()), items.last(), key);
    }
}

/// The items of `items`, ranked by their scores.
pub(crate) fn rank_by<T: Copy>(items: Vec<(T, i128)>, Ghost(key): Ghost<spec_fn(T) -> int>) -> (r: Vec<T>)
    requires
        forall|i: int| 0 <= i < items@.len() ==> (#[trigger] items@[i]).1 == key(items@[i].0),
    ensures
        r@ == ranked(firsts(items@), key),
{
    proof {
        lemma_ranked_firsts(items@, key);
    }
    let sorted = rank(items);
    let mut r: Vec<T> = Vec::new();
    let mut i: usize = 0;
    while i < sorted.len()
        invariant
            i <= sorted@.len(),
            r@ == firsts(sorted@).take(i as int),
        decreases sorted@.len() - i,
    {
        r.push(sorted[i].0);
        assert(r@ =~= firsts(sorted@).take(i + 1));
        i = i + 1;
    }
    assert(firsts(sorted@).take(i as int) =~= firsts(sorted@));
    r
}

/// What is ranked already stays as it is.
pub proof fn lemma_ranked_already<T>(s: Seq<T>, key: spec_fn(T) -> int)
    requires
        falls(s, key),
    ensures
        ranked(s, key) == s,
    decreases s.len(),
{
    if s.len() > 0 {
        let t = s.drop_last();
        assert(falls(t, key));
        lemma_ranked_already(t, key);
        if t.len() > 0 {
            assert(key(s[t.len() - 1]) >= key(s[s.len() - 1]));
        }
        assert(t.push(s.last()) =~= s);
    }
}

/// `x` stands before `y` in `s`.
pub open spec fn stands_before<T>(s: Seq<T>, x: T, y: T) -> bool {
    exists|a: int, b: int| 0 <= a < b < s.len() && #[trigger] s[a] == x && #[trigger] s[b] == y
}

/// What comes earlier, and has a key not below, comes earlier in the ranking: elements with equal keys keep
/// their order.
pub proof fn law_ranking_keeps_the_order<T>(s: Seq<T>, key: spec_fn(T) -> int, i: int, j: int)
    requires
        0 <= i < j < s.len(),
        key(s[i]) >= key(s[j]),
    ensures
        stands_before(ranked(s, key), s[i], s[j]),
    decreases s.len(),
{
    let t = s.drop_last();
    let x = s.last();
    let r = ranked(t, key);
    lemma_ranked(t, key);
    let at = lemma_insert_place(r, x, key);
    let all = ranked(s, key);
    assert(all =~= r.take(at).push(x) + r.skip(at));
    if j < t.len() {
        law_ranking_keeps_the_order(t, key, i, j);
        let (a, b) = choose|a: int, b: int| 0 <= a < b < r.len() && #[trigger] r[a] == t[i] && #[trigger] r[b] == t[j];
        let c = if a < at {
            a
        } else {
            a + 1
        };
        let d = if b < at {
            b
        } else {
            b + 1
        };
        assert(all[c] == s[i] && all[d] == s[j]);
    } else {
        assert(t[i] == s[i]);
        assert(t.contains(s[i]));
        assert(r.contains(s[i]));
        let a = choose|a: int| 0 <= a < r.len() && r[a] == s[i];
        assert(key(r[a]) >= key(x));
        assert(a < at);
        assert(all[a] == s[i] && all[at] == x);
    }
}

} // verus!
