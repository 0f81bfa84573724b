//! Vectors kept in ascending, duplicate-free key order.

use vstd::prelude::*;

use crate::text::{order_of, precedes, precedes_is_strict_total_order, TextOrder};

verus! {

/// A value that a textual key identifies.
pub trait Keyed: View {
    /// The key of a value with this model.
    spec fn key_of(model: Self::V) -> Seq<char>;

    /// What holds of the model of every value.
    spec fn sound(model: Self::V) -> bool;

    /// Returns the key.
    fn key_text(&self) -> (r: &str)
        ensures
            r@ == Self::key_of(self@),
            Self::sound(self@),
    ;
}

/// The models of the items, in their order.
pub open spec fn views<T: View>(items: Seq<T>) -> Seq<T::V> {
    Seq::new(items.len(), |i: int| items[i]@)
}

/// The keys of the models, in their order.
pub open spec fn keys<T: Keyed>(models: Seq<T::V>) -> Seq<Seq<char>> {
    Seq::new(models.len(), |i: int| T::key_of(models[i]))
}

/// How many of the models come before the key.
pub open spec fn rank<T: Keyed>(models: Seq<T::V>, key: Seq<char>) -> nat
    decreases models.len(),
{
    if models.len() == 0 {
        0
    } else if precedes(T::key_of(models.last()), key) {
        models.len()
    } else {
        rank::<T>(models.drop_last(), key)
    }
}

/// The models with one more at its place.
pub open spec fn placed<T: Keyed>(models: Seq<T::V>, model: T::V) -> Seq<T::V> {
    models.insert(rank::<T>(models, T::key_of(model)) as int, model)
}

/// The models in the order of their keys.
pub open spec fn arranged<T: Keyed>(models: Seq<T::V>) -> Seq<T::V>
    decreases models.len(),
{
    if models.len() == 0 {
        Seq::empty()
    } else {
        placed::<T>(arranged::<T>(models.drop_last()), models.last())
    }
}

/// The first index whose name occurs before it, or the length.
pub open spec fn first_repeat(names: Seq<Seq<char>>) -> int
    decreases names.len(),
{
    if names.len() == 0 {
        0
    } else {
        let earlier = first_repeat(names.drop_last());
        if earlier < names.len() - 1 {
            earlier
        } else if names.drop_last().contains(names.last()) {
            names.len() - 1
        } else {
            names.len() as int
        }
    }
}

/// Each name comes before all that follow it; so none occurs twice.
pub open spec fn ascending(names: Seq<Seq<char>>) -> bool {
    forall|i: int, j: int|
        0 <= i < j < names.len() ==> precedes(#[trigger] names[i], #[trigger] names[j])
}

/// The place where `key` stands among ascending names, or would stand.
pub open spec fn splits(names: Seq<Seq<char>>, key: Seq<char>, at: int) -> bool {
    &&& 0 <= at <= names.len()
    &&& forall|j: int| 0 <= j < at ==> precedes(#[trigger] names[j], key)
    &&& forall|j: int| at <= j < names.len() ==> precedes(key, #[trigger] names[j])
}

/// Names that stay clear of a key on both sides do not hold it.
pub proof fn splits_excludes(names: Seq<Seq<char>>, key: Seq<char>, at: int)
    requires
        splits(names, key, at),
    ensures
        !names.contains(key),
{
    precedes_is_strict_total_order(key, key, key);
}

/// Ascending names hold each name at one place.
pub proof fn ascending_distinct(names: Seq<Seq<char>>)
    requires
        ascending(names),
    ensures
        names.no_duplicates(),
{
    assert forall|i: int, j: int|
        0 <= i < names.len() && 0 <= j < names.len() && i != j implies names[i] != names[j] by {
        precedes_is_strict_total_order(names[i], names[j], names[i]);
        precedes_is_strict_total_order(names[j], names[i], names[j]);
    }
}

/// Inserting a key at its place keeps the names ascending.
pub proof fn insert_keeps_ascending(names: Seq<Seq<char>>, key: Seq<char>, at: int)
    requires
        ascending(names),
        splits(names, key, at),
    ensures
        ascending(names.insert(at, key)),
        forall|n: Seq<char>| #[trigger]
            names.insert(at, key).contains(n) <==> n == key || names.contains(n),
{
    let more = names.insert(at, key);
    assert forall|i: int, j: int| 0 <= i < j < more.len() implies precedes(
        #[trigger] more[i],
        #[trigger] more[j],
    ) by {
        let a = if i < at { i } else { i - 1 };
        let b = if j < at { j } else { j - 1 };
        if i != at && j != at {
            assert(more[i] == names[a] && more[j] == names[b]);
        } else if i == at {
            assert(more[j] == names[b]);
        } else {
            assert(more[i] == names[a]);
        }
    }
    assert forall|n: Seq<char>| #[trigger] more.contains(n) <==> n == key || names.contains(n) by {
        if more.contains(n) {
            let i = choose|i: int| 0 <= i < more.len() && more[i] == n;
            if i < at {
                assert(names[i] == n);
            } else if i > at {
                assert(names[i - 1] == n);
            }
        }
        if names.contains(n) {
            let i = choose|i: int| 0 <= i < names.len() && names[i] == n;
            if i < at {
                assert(more[i] == n);
            } else {
                assert(more[i + 1] == n);
            }
        }
        if n == key {
            assert(more[at] == n);
        }
    }
}

/// Ascending names are determined by which names they are.
pub proof fn ascending_unique(a: Seq<Seq<char>>, b: Seq<Seq<char>>)
    requires
        ascending(a),
        ascending(b),
        forall|n: Seq<char>|
            #![trigger a.contains(n)]
            #![trigger b.contains(n)]
            a.contains(n) <==> b.contains(n),
    ensures
        a == b,
    decreases a.len(),
{
    if a.len() == 0 {
        if b.len() > 0 {
            assert(b.contains(b[0]));
        }
        assert(a =~= b);
    } else {
        assert(a.contains(a[0]));
        assert(b.len() > 0);
        assert(b.contains(b[0]));
        assert(a[0] == b[0]) by {
            let i = choose|i: int| 0 <= i < b.len() && b[i] == a[0];
            let j = choose|j: int| 0 <= j < a.len() && a[j] == b[0];
            if i > 0 && j > 0 {
                assert(precedes(b[0], b[i]));
                assert(precedes(a[0], a[j]));
                precedes_is_strict_total_order(a[0], b[0], a[0]);
            }
        }
        let (x, y) = (a.drop_first(), b.drop_first());
        assert(ascending(x)) by {
            assert forall|i: int, j: int| 0 <= i < j < x.len() implies precedes(
                #[trigger] x[i],
                #[trigger] x[j],
            ) by {
                assert(x[i] == a[i + 1] && x[j] == a[j + 1]);
            }
        }
        assert(ascending(y)) by {
            assert forall|i: int, j: int| 0 <= i < j < y.len() implies precedes(
                #[trigger] y[i],
                #[trigger] y[j],
            ) by {
                assert(y[i] == b[i + 1] && y[j] == b[j + 1]);
            }
        }
        ascending_distinct(a);
        ascending_distinct(b);
        assert forall|n: Seq<char>|
            #![trigger x.contains(n)]
            #![trigger y.contains(n)]
            x.contains(n) <==> y.contains(n) by {
            if x.contains(n) {
                let i = choose|i: int| 0 <= i < x.len() && x[i] == n;
                assert(a[i + 1] == n);
                assert(a.contains(n));
                let k = choose|k: int| 0 <= k < b.len() && b[k] == n;
                assert(n != a[0]);
                assert(y[k - 1] == n);
            }
            if y.contains(n) {
                let i = choose|i: int| 0 <= i < y.len() && y[i] == n;
                assert(b[i + 1] == n);
                assert(b.contains(n));
                let k = choose|k: int| 0 <= k < a.len() && a[k] == n;
                assert(n != b[0]);
                assert(x[k - 1] == n);
            }
        }
        ascending_unique(x, y);
        assert(a =~= seq![a[0]] + x);
        assert(b =~= seq![b[0]] + y);
    }
}

/// A rank is at most the number of models.
pub proof fn rank_in_range<T: Keyed>(models: Seq<T::V>, key: Seq<char>)
    ensures
        rank::<T>(models, key) <= models.len(),
    decreases models.len(),
{
    if models.len() > 0 {
        rank_in_range::<T>(models.drop_last(), key);
    }
}

/// A key that the ascending models do not have stands at its rank.
pub proof fn rank_splits<T: Keyed>(models: Seq<T::V>, key: Seq<char>)
    requires
        ascending(keys::<T>(models)),
        !keys::<T>(models).contains(key),
    ensures
        splits(keys::<T>(models), key, rank::<T>(models, key) as int),
    decreases models.len(),
{
    let names = keys::<T>(models);
    if models.len() > 0 {
        let last = models.len() - 1;
        assert(names.contains(names[last]));
        precedes_is_strict_total_order(names[last], key, key);
        if precedes(names[last], key) {
            assert forall|j: int| 0 <= j < names.len() implies precedes(
                #[trigger] names[j],
                key,
            ) by {
                if j < last {
                    precedes_is_strict_total_order(names[j], names[last], key);
                }
            }
        } else {
            let front = keys::<T>(models.drop_last());
            assert(front =~= names.drop_last());
            assert forall|i: int, j: int| 0 <= i < j < front.len() implies precedes(
                #[trigger] front[i],
                #[trigger] front[j],
            ) by {
                assert(front[i] == names[i] && front[j] == names[j]);
            }
            if front.contains(key) {
                let k = choose|k: int| 0 <= k < front.len() && front[k] == key;
                assert(names[k] == key);
            }
            rank_splits::<T>(models.drop_last(), key);
            rank_in_range::<T>(models.drop_last(), key);
            let at = rank::<T>(models, key) as int;
            assert forall|j: int| 0 <= j < at implies precedes(#[trigger] names[j], key) by {
                assert(front[j] == names[j]);
            }
            assert forall|j: int| at <= j < names.len() implies precedes(
                key,
                #[trigger] names[j],
            ) by {
                if j < last {
                    assert(front[j] == names[j]);
                }
            }
        }
    }
}

/// The place of a key is unique.
pub proof fn splits_unique(names: Seq<Seq<char>>, key: Seq<char>, a: int, b: int)
    requires
        splits(names, key, a),
        splits(names, key, b),
    ensures
        a == b,
{
    if a < b {
        assert(precedes(names[a], key) && precedes(key, names[a]));
        precedes_is_strict_total_order(names[a], key, key);
    }
    if b < a {
        assert(precedes(names[b], key) && precedes(key, names[b]));
        precedes_is_strict_total_order(names[b], key, key);
    }
}

/// Placing a model whose key is new keeps the order and adds that key.
pub proof fn placed_keeps_order<T: Keyed>(models: Seq<T::V>, model: T::V)
    requires
        ascending(keys::<T>(models)),
        !keys::<T>(models).contains(T::key_of(model)),
    ensures
        ascending(keys::<T>(placed::<T>(models, model))),
        placed::<T>(models, model).len() == models.len() + 1,
        forall|n: Seq<char>| #[trigger]
            keys::<T>(placed::<T>(models, model)).contains(n) <==> n == T::key_of(model) || keys::<
                T,
            >(models).contains(n),
        forall|m: T::V| #[trigger]
            placed::<T>(models, model).contains(m) <==> m == model || models.contains(m),
{
    let key = T::key_of(model);
    let at = rank::<T>(models, key) as int;
    rank_splits::<T>(models, key);
    insert_keeps_ascending(keys::<T>(models), key, at);
    let more = placed::<T>(models, model);
    assert(keys::<T>(more) =~= keys::<T>(models).insert(at, key));
    assert forall|m: T::V| #[trigger] more.contains(m) <==> m == model || models.contains(m) by {
        if more.contains(m) {
            let i = choose|i: int| 0 <= i < more.len() && more[i] == m;
            if i < at {
                assert(models[i] == m);
            } else if i > at {
                assert(models[i - 1] == m);
            }
        }
        if models.contains(m) {
            let i = choose|i: int| 0 <= i < models.len() && models[i] == m;
            assert(more[if i < at { i } else { i + 1 }] == m);
        }
        assert(more[at] == model);
    }
}

/// Where no key repeats, `arranged` holds the same models, in ascending order
/// of their keys.
pub proof fn arranged_is_sorted<T: Keyed>(models: Seq<T::V>)
    requires
        keys::<T>(models).no_duplicates(),
    ensures
        ascending(keys::<T>(arranged::<T>(models))),
        arranged::<T>(models).len() == models.len(),
        forall|n: Seq<char>| #[trigger]
            keys::<T>(arranged::<T>(models)).contains(n) <==> keys::<T>(models).contains(n),
        forall|m: T::V| #[trigger] arranged::<T>(models).contains(m) <==> models.contains(m),
    decreases models.len(),
{
    if models.len() > 0 {
        let front = models.drop_last();
        let names = keys::<T>(models);
        let earlier = keys::<T>(front);
        assert(earlier =~= names.drop_last());
        assert(earlier.no_duplicates()) by {
            assert forall|i: int, j: int|
                0 <= i < earlier.len() && 0 <= j < earlier.len() && i != j implies earlier[i]
                != earlier[j] by {
                assert(earlier[i] == names[i] && earlier[j] == names[j]);
            }
        }
        arranged_is_sorted::<T>(front);
        let last = models.last();
        let key = T::key_of(last);
        if earlier.contains(key) {
            let k = choose|k: int| 0 <= k < earlier.len() && earlier[k] == key;
            assert(names[k] == names[models.len() - 1]);
        }
        placed_keeps_order::<T>(arranged::<T>(front), last);
        assert forall|n: Seq<char>| #[trigger] keys::<T>(arranged::<T>(models)).contains(n)
            <==> names.contains(n) by {
            if names.contains(n) {
                let k = choose|k: int| 0 <= k < names.len() && names[k] == n;
                if k < earlier.len() {
                    assert(earlier[k] == n);
                }
            }
            if earlier.contains(n) {
                let k = choose|k: int| 0 <= k < earlier.len() && earlier[k] == n;
                assert(names[k] == n);
            }
            assert(names[models.len() - 1] == key);
            assert(keys::<T>(arranged::<T>(front)).contains(n) <==> earlier.contains(n));
        }
        assert forall|m: T::V| #[trigger] arranged::<T>(models).contains(m) <==> models.contains(
            m,
        ) by {
            assert(arranged::<T>(front).contains(m) <==> front.contains(m));
            if models.contains(m) {
                let k = choose|k: int| 0 <= k < models.len() && models[k] == m;
                if k < front.len() {
                    assert(front[k] == m);
                }
            }
            if front.contains(m) {
                let k = choose|k: int| 0 <= k < front.len() && front[k] == m;
                assert(models[k] == m);
            }
            assert(models[models.len() - 1] == last);
        }
    }
}

/// Ascending models are determined by which models they are.
pub proof fn arrangement_unique<T: Keyed>(a: Seq<T::V>, b: Seq<T::V>)
    requires
        ascending(keys::<T>(a)),
        ascending(keys::<T>(b)),
        forall|m: T::V|
            #![trigger a.contains(m)]
            #![trigger b.contains(m)]
            a.contains(m) <==> b.contains(m),
    ensures
        a == b,
{
    let (x, y) = (keys::<T>(a), keys::<T>(b));
    assert forall|n: Seq<char>|
        #![trigger x.contains(n)]
        #![trigger y.contains(n)]
        x.contains(n) <==> y.contains(n) by {
        if x.contains(n) {
            let i = choose|i: int| 0 <= i < x.len() && x[i] == n;
            assert(a.contains(a[i]));
            let j = choose|j: int| 0 <= j < b.len() && b[j] == a[i];
            assert(y[j] == n);
        }
        if y.contains(n) {
            let i = choose|i: int| 0 <= i < y.len() && y[i] == n;
            assert(b.contains(b[i]));
            let j = choose|j: int| 0 <= j < a.len() && a[j] == b[i];
            assert(x[j] == n);
        }
    }
    ascending_unique(x, y);
    ascending_distinct(x);
    assert(a.len() == x.len() && b.len() == y.len());
    assert forall|i: int| 0 <= i < a.len() implies a[i] == b[i] by {
        assert(a.contains(a[i]));
        let j = choose|j: int| 0 <= j < b.len() && b[j] == a[i];
        assert(y[j] == x[i]);
        assert(x[j] == x[i]);
    }
    assert(a =~= b);
}

/// The order in which models come does not change their arrangement.
pub proof fn arrangement_ignores_order<T: Keyed>(a: Seq<T::V>, b: Seq<T::V>)
    requires
        keys::<T>(a).no_duplicates(),
        keys::<T>(b).no_duplicates(),
        forall|m: T::V|
            #![trigger a.contains(m)]
            #![trigger b.contains(m)]
            a.contains(m) <==> b.contains(m),
    ensures
        arranged::<T>(a) == arranged::<T>(b),
{
    arranged_is_sorted::<T>(a);
    arranged_is_sorted::<T>(b);
    let (x, y) = (arranged::<T>(a), arranged::<T>(b));
    assert forall|m: T::V|
        #![trigger x.contains(m)]
        #![trigger y.contains(m)]
        x.contains(m) <==> y.contains(m) by {
        assert(x.contains(m) <==> a.contains(m));
        assert(y.contains(m) <==> b.contains(m));
    }
    arrangement_unique::<T>(x, y);
}

/// Models that are in order are their own arrangement.
pub proof fn arranged_of_ascending<T: Keyed>(models: Seq<T::V>)
    requires
        ascending(keys::<T>(models)),
    ensures
        arranged::<T>(models) == models,
    decreases models.len(),
{
    if models.len() == 0 {
        assert(arranged::<T>(models) =~= models);
    } else {
        let front = models.drop_last();
        let names = keys::<T>(models);
        assert(keys::<T>(front) =~= names.drop_last());
        assert(ascending(keys::<T>(front))) by {
            assert forall|i: int, j: int| 0 <= i < j < front.len() implies precedes(
                #[trigger] keys::<T>(front)[i],
                #[trigger] keys::<T>(front)[j],
            ) by {
                assert(names[i] == keys::<T>(front)[i] && names[j] == keys::<T>(front)[j]);
            }
        }
        arranged_of_ascending::<T>(front);
        if front.len() > 0 {
            assert(precedes(names[front.len() - 1], names[models.len() - 1]));
        }
        assert(rank::<T>(front, T::key_of(models.last())) == front.len());
        assert(placed::<T>(front, models.last()) =~= models);
    }
}

/// What `first_repeat` says: no name repeats before it, and the one there
/// occurs before.
pub proof fn first_repeat_is_first(names: Seq<Seq<char>>)
    ensures
        0 <= first_repeat(names) <= names.len(),
        names.take(first_repeat(names)).no_duplicates(),
        first_repeat(names) < names.len() ==> names.take(first_repeat(names)).contains(
            names[first_repeat(names)],
        ),
        first_repeat(names) == names.len() <==> names.no_duplicates(),
    decreases names.len(),
{
    if names.len() > 0 {
        let front = names.drop_last();
        first_repeat_is_first(front);
        let earlier = first_repeat(front);
        let at = first_repeat(names);
        if earlier < front.len() {
            assert(names.take(at) =~= front.take(earlier));
            let k = choose|k: int| 0 <= k < at && names.take(at)[k] == names[at];
            assert(names[k] == names[at]);
        } else if front.contains(names.last()) {
            assert(names.take(at) =~= front);
            assert(front.take(earlier) =~= front);
            let k = choose|k: int| 0 <= k < front.len() && front[k] == names.last();
            assert(names[k] == names[at]);
        } else {
            assert(names.take(at) =~= names);
            assert(front.take(earlier) =~= front);
            assert forall|i: int, j: int|
                0 <= i < names.len() && 0 <= j < names.len() && i != j implies names[i]
                != names[j] by {
                if i < front.len() && j < front.len() {
                    assert(front[i] != front[j]);
                } else if i < front.len() {
                    assert(front[i] == names[i]);
                } else {
                    assert(front[j] == names[j]);
                }
            }
        }
    } else {
        assert(names.take(0) =~= names);
    }
}

/// Once a name has repeated, longer sequences repeat at the same index.
pub proof fn first_repeat_stays(names: Seq<Seq<char>>, n: int)
    requires
        0 <= n <= names.len(),
    ensures
        first_repeat(names.take(n)) < n ==> first_repeat(names) == first_repeat(names.take(n)),
        first_repeat(names.take(n)) == n ==> first_repeat(names) >= n,
        n < names.len() && first_repeat(names.take(n)) == n && names.take(n).contains(names[n])
            ==> first_repeat(names) == n,
    decreases names.len() - n,
{
    first_repeat_is_first(names.take(n));
    if n == names.len() {
        assert(names.take(n) =~= names);
    } else {
        assert(names.take(n + 1).drop_last() =~= names.take(n));
        first_repeat_stays(names, n + 1);
    }
}

/// The second list holds the items of the first, in whatever order.
pub open spec fn rearranged<M>(a: Seq<M>, b: Seq<M>) -> bool {
    a.to_multiset() == b.to_multiset()
}

/// Items in another order are as many and the same, and their keys repeat no
/// more than before.
pub proof fn rearrangement_keeps<T: Keyed>(a: Seq<T::V>, b: Seq<T::V>)
    requires
        rearranged(a, b),
        keys::<T>(a).no_duplicates(),
    ensures
        a.len() == b.len(),
        keys::<T>(b).no_duplicates(),
        forall|m: T::V|
            #![trigger a.contains(m)]
            #![trigger b.contains(m)]
            a.contains(m) <==> b.contains(m),
{
    broadcast use vstd::seq_lib::group_to_multiset_ensures;

    assert(a.len() == a.to_multiset().len());
    assert(b.len() == b.to_multiset().len());
    assert forall|m: T::V|
        #![trigger a.contains(m)]
        #![trigger b.contains(m)]
        a.contains(m) <==> b.contains(m) by {
        assert(a.contains(m) <==> a.to_multiset().count(m) > 0);
        assert(b.contains(m) <==> b.to_multiset().count(m) > 0);
    }
    let names = keys::<T>(a);
    assert forall|i: int, j: int| 0 <= i < a.len() && 0 <= j < a.len() && i != j implies a[i]
        != a[j] by {
        assert(names[i] != names[j]);
    }
    a.lemma_multiset_has_no_duplicates();
    b.lemma_multiset_has_no_duplicates_conv();
    let other = keys::<T>(b);
    assert forall|i: int, j: int|
        0 <= i < other.len() && 0 <= j < other.len() && i != j implies other[i] != other[j] by {
        assert(b[i] != b[j]);
        assert(b.contains(b[i]) && b.contains(b[j]));
        let (k, l) = (a.index_of(b[i]), a.index_of(b[j]));
        assert(names[k] == other[i] && names[l] == other[j]);
    }
}

/// The sum of the weights of items.
pub open spec fn total<M>(items: Seq<M>, weight: spec_fn(M) -> int) -> int
    decreases items.len(),
{
    if items.len() == 0 {
        0
    } else {
        total(items.drop_last(), weight) + weight(items.last())
    }
}

/// Without one item the sum is less by its weight.
pub proof fn total_without<M>(items: Seq<M>, weight: spec_fn(M) -> int, i: int)
    requires
        0 <= i < items.len(),
    ensures
        total(items, weight) == total(items.remove(i), weight) + weight(items[i]),
    decreases items.len(),
{
    let last = items.len() - 1;
    if i == last {
        assert(items.remove(i) =~= items.drop_last());
    } else {
        total_without(items.drop_last(), weight, i);
        assert(items.remove(i).drop_last() =~= items.drop_last().remove(i));
        assert(items.remove(i).last() == items.last());
    }
}

/// The sum does not depend on the order.
pub proof fn total_ignores_order<M>(a: Seq<M>, b: Seq<M>, weight: spec_fn(M) -> int)
    requires
        rearranged(a, b),
    ensures
        total(a, weight) == total(b, weight),
    decreases a.len(),
{
    broadcast use vstd::seq_lib::group_to_multiset_ensures;

    assert(a.len() == a.to_multiset().len());
    assert(b.len() == b.to_multiset().len());
    if a.len() > 0 {
        let x = b.last();
        assert(b[b.len() - 1] == x);
        assert(b.contains(x));
        assert(b.to_multiset().count(x) > 0);
        assert(a.contains(x));
        let i = a.index_of(x);
        total_without(a, weight, i);
        let rest = b.remove(b.len() - 1);
        assert(rest =~= b.drop_last());
        assert(a.remove(i).to_multiset() =~= a.to_multiset().remove(a[i]));
        assert(rest.to_multiset() =~= b.to_multiset().remove(b[b.len() - 1]));
        total_ignores_order(a.remove(i), rest, weight);
    }
}

/// Finds the item with the key, or the place where it would stand.
pub(crate) fn locate<T: Keyed>(items: &[T], key: &str) -> (r: Result<usize, usize>)
    requires
        ascending(keys::<T>(views(items@))),
    ensures
        match r {
            Ok(i) => i < items@.len() && T::key_of(items@[i as int]@) == key@ && T::sound(
                items@[i as int]@,
            ),
            Err(i) => splits(keys::<T>(views(items@)), key@, i as int),
        },
{
    let ghost names = keys::<T>(views(items@));
    let mut low: usize = 0;
    let mut high: usize = items.len();
    while low < high
        invariant
            names == keys::<T>(views(items@)),
            ascending(names),
            low <= high <= items@.len(),
            forall|j: int| 0 <= j < low ==> precedes(#[trigger] names[j], key@),
            forall|j: int| high <= j < names.len() ==> precedes(key@, #[trigger] names[j]),
        decreases high - low,
    {
        let middle: usize = low + (high - low) / 2;
        let found = items[middle].key_text();
        assert(found@ == names[middle as int]);
        match order_of(found, key) {
            TextOrder::Same => {
                return Ok(middle);
            },
            TextOrder::Before => {
                proof {
                    assert forall|j: int| 0 <= j < middle + 1 implies precedes(
                        #[trigger] names[j],
                        key@,
                    ) by {
                        if j < middle {
                            precedes_is_strict_total_order(names[j], names[middle as int], key@);
                        }
                    }
                }
                low = middle + 1;
            },
            TextOrder::After => {
                proof {
                    precedes_is_strict_total_order(names[middle as int], key@, key@);
                    assert forall|j: int| middle <= j < names.len() implies precedes(
                        key@,
                        #[trigger] names[j],
                    ) by {
                        if j > middle {
                            precedes_is_strict_total_order(key@, names[middle as int], names[j]);
                        }
                    }
                }
                high = middle;
            },
        }
    }
    Err(low)
}

/// The model with the key among the models.
pub open spec fn find<T: Keyed>(models: Seq<T::V>, key: Seq<char>) -> Option<T::V>
    decreases models.len(),
{
    if models.len() == 0 {
        None
    } else if T::key_of(models.last()) == key {
        Some(models.last())
    } else {
        find::<T>(models.drop_last(), key)
    }
}

/// What `find` says.
pub proof fn find_is_exact<T: Keyed>(models: Seq<T::V>, key: Seq<char>)
    ensures
        find::<T>(models, key) is Some <==> keys::<T>(models).contains(key),
        find::<T>(models, key) matches Some(m) ==> models.contains(m) && T::key_of(m) == key,
    decreases models.len(),
{
    let names = keys::<T>(models);
    if models.len() > 0 {
        let front = models.drop_last();
        find_is_exact::<T>(front, key);
        assert(names[models.len() - 1] == T::key_of(models.last()));
        assert(models.contains(models.last()));
        if keys::<T>(front).contains(key) {
            let k = choose|k: int| 0 <= k < front.len() && keys::<T>(front)[k] == key;
            assert(names[k] == key);
        }
        if names.contains(key) && T::key_of(models.last()) != key {
            let k = choose|k: int| 0 <= k < names.len() && names[k] == key;
            assert(keys::<T>(front)[k] == key);
        }
        match find::<T>(front, key) {
            Some(m) => {
                if T::key_of(models.last()) != key {
                    let k = choose|k: int| 0 <= k < front.len() && front[k] == m;
                    assert(models[k] == m);
                }
            },
            None => {},
        }
    }
}

/// Where no key repeats, the model at an index is the one found by its key.
pub proof fn find_at<T: Keyed>(models: Seq<T::V>, i: int)
    requires
        keys::<T>(models).no_duplicates(),
        0 <= i < models.len(),
    ensures
        find::<T>(models, T::key_of(models[i])) == Some(models[i]),
{
    let key = T::key_of(models[i]);
    let names = keys::<T>(models);
    assert(names[i] == key);
    find_is_exact::<T>(models, key);
    let m = find::<T>(models, key)->Some_0;
    let k = choose|k: int| 0 <= k < models.len() && models[k] == m;
    assert(names[k] == names[i]);
}

/// Looks an item up by its key.
pub(crate) fn lookup<'a, T: Keyed>(items: &'a [T], key: &str) -> (r: Option<&'a T>)
    requires
        ascending(keys::<T>(views(items@))),
    ensures
        match (r, find::<T>(views(items@), key@)) {
            (Some(item), Some(model)) => item@ == model && items@.contains(*item) && T::sound(
                model,
            ),
            (None, None) => true,
            _ => false,
        },
{
    let ghost models = views(items@);
    match locate(items, key) {
        Ok(i) => {
            proof {
                ascending_distinct(keys::<T>(models));
                find_at::<T>(models, i as int);
            }
            Some(&items[i])
        },
        Err(i) => {
            proof {
                splits_excludes(keys::<T>(models), key@, i as int);
                find_is_exact::<T>(models, key@);
            }
            None
        },
    }
}

/// Tests whether one of the items has the key.
pub(crate) fn holds<T: Keyed>(items: &[T], key: &str) -> (r: bool)
    requires
        ascending(keys::<T>(views(items@))),
    ensures
        r == keys::<T>(views(items@)).contains(key@),
{
    let ghost names = keys::<T>(views(items@));
    match locate(items, key) {
        Ok(i) => {
            assert(names[i as int] == key@);
            true
        },
        Err(i) => {
            proof {
                splits_excludes(names, key@, i as int);
            }
            false
        },
    }
}

/// Inserts an item at the place that its key has, unless the key is taken.
pub(crate) fn insert_new<T: Keyed>(items: &mut Vec<T>, item: T) -> (r: bool)
    requires
        ascending(keys::<T>(views(old(items)@))),
    ensures
        ascending(keys::<T>(views(final(items)@))),
        r == !keys::<T>(views(old(items)@)).contains(T::key_of(item@)),
        !r ==> final(items)@ == old(items)@,
        r ==> views(final(items)@) == placed::<T>(views(old(items)@), item@),
        r ==> final(items)@.len() == old(items)@.len() + 1,
        r ==> forall|n: Seq<char>| #[trigger]
            keys::<T>(views(final(items)@)).contains(n) <==> n == T::key_of(item@) || keys::<T>(
                views(old(items)@),
            ).contains(n),
        forall|t: T| #[trigger]
            final(items)@.contains(t) ==> t == item || old(items)@.contains(t),
{
    let ghost models = views(items@);
    let ghost names = keys::<T>(models);
    let ghost model = item@;
    match locate(items.as_slice(), item.key_text()) {
        Ok(i) => {
            assert(names[i as int] == T::key_of(model));
            false
        },
        Err(i) => {
            let ghost before = items@;
            proof {
                splits_excludes(names, T::key_of(model), i as int);
                rank_splits::<T>(models, T::key_of(model));
                splits_unique(
                    names,
                    T::key_of(model),
                    i as int,
                    rank::<T>(models, T::key_of(model)) as int,
                );
                placed_keeps_order::<T>(models, model);
            }
            let ghost added = item;
            items.insert(i, item);
            proof {
                assert(items@ == before.insert(i as int, added));
                assert(views(items@) =~= placed::<T>(models, model));
                assert forall|t: T| #[trigger] items@.contains(t) implies t == added
                    || before.contains(t) by {
                    let k = choose|k: int| 0 <= k < items@.len() && items@[k] == t;
                    if k < i {
                        assert(before[k] == t);
                    } else if k > i {
                        assert(before[k - 1] == t);
                    }
                }
            }
            true
        },
    }
}

/// What collecting items under a maximum number comes to.
pub open spec fn collection<T: Keyed>(models: Seq<T::V>, maximum: nat) -> Collected<T::V> {
    let repeat = first_repeat(keys::<T>(models));
    if repeat < models.len() && repeat < maximum {
        Collected::Repeats(T::key_of(models[repeat]))
    } else if models.len() > maximum {
        Collected::TooMany
    } else {
        Collected::All(arranged::<T>(models))
    }
}

/// The outcome of collecting items.
pub ghost enum Collected<M> {
    /// All items, in the order of their keys.
    All(Seq<M>),
    /// This key repeats.
    Repeats(Seq<char>),
    /// There are more items than the maximum.
    TooMany,
}

/// The outcome of collecting items.
pub enum Collection<T> {
    /// All items, in the order of their keys.
    All(Vec<T>),
    /// The key of this item occurred before.
    Repeats(T),
    /// There are more items than the maximum.
    TooMany,
}

/// Puts items in the order of their keys, up to the first that repeats a key
/// or exceeds the maximum number.
pub(crate) fn collect_unique<T: Keyed>(items: Vec<T>, maximum: usize) -> (r: Collection<T>)
    ensures
        match (r, collection::<T>(views(items@), maximum as nat)) {
            (Collection::All(sorted), Collected::All(models)) => {
                &&& views(sorted@) == models
                &&& ascending(keys::<T>(models))
                &&& keys::<T>(views(items@)).no_duplicates()
                &&& models.len() == items@.len()
                &&& models.len() <= maximum
                &&& forall|i: int| 0 <= i < models.len() ==> T::sound(#[trigger] models[i])
                &&& forall|t: T| #[trigger] sorted@.contains(t) ==> items@.contains(t)
            },
            (Collection::Repeats(item), Collected::Repeats(key)) => T::key_of(item@) == key
                && items@.contains(item),
            (Collection::TooMany, Collected::TooMany) => true,
            _ => false,
        },
{
    let ghost all = items@;
    let ghost models = views(all);
    let ghost names = keys::<T>(models);
    let mut sorted: Vec<T> = Vec::new();
    proof {
        assert(models.take(0) =~= Seq::<T::V>::empty());
        assert(views(sorted@) =~= arranged::<T>(models.take(0)));
        assert(names.take(0) =~= Seq::<Seq<char>>::empty());
        assert(keys::<T>(arranged::<T>(models.take(0))) =~= Seq::<Seq<char>>::empty());
    }
    for item in entries: items
        invariant
            entries.seq() == all,
            models == views(all),
            names == keys::<T>(models),
            sorted@.len() == entries.index(),
            sorted@.len() <= maximum,
            ascending(keys::<T>(views(sorted@))),
            views(sorted@) == arranged::<T>(models.take(sorted@.len() as int)),
            forall|n: Seq<char>| #[trigger]
                keys::<T>(views(sorted@)).contains(n) <==> names.take(
                    sorted@.len() as int,
                ).contains(n),
            first_repeat(names.take(sorted@.len() as int)) == sorted@.len(),
            forall|t: T| #[trigger] sorted@.contains(t) ==> all.contains(t),
            forall|t: T| #[trigger] sorted@.contains(t) ==> T::sound(t@),
    {
        let ghost n = sorted@.len() as int;
        proof {
            assert(item == all[n]);
            assert(all.contains(item));
            assert(models[n] == item@);
            assert(names[n] == T::key_of(item@));
            assert(models.take(n + 1).drop_last() =~= models.take(n));
            assert(names.take(n + 1).drop_last() =~= names.take(n));
            assert(names.take(n + 1).last() == names[n]);
            first_repeat_stays(names, n);
        }
        if sorted.len() == maximum {
            return Collection::TooMany;
        }
        if holds(sorted.as_slice(), item.key_text()) {
            return Collection::Repeats(item);
        }
        let ghost before = sorted@;
        insert_new(&mut sorted, item);
        proof {
            let (x, y) = (names.take(n), names.take(n + 1));
            assert forall|name: Seq<char>| #[trigger]
                keys::<T>(views(sorted@)).contains(name) <==> y.contains(name) by {
                assert(keys::<T>(views(before)).contains(name) <==> x.contains(name));
                if x.contains(name) {
                    let k = choose|k: int| 0 <= k < x.len() && x[k] == name;
                    assert(y[k] == name);
                }
                if y.contains(name) {
                    let k = choose|k: int| 0 <= k < y.len() && y[k] == name;
                    if k < n {
                        assert(x[k] == name);
                    }
                }
                assert(y[n] == names[n]);
            }
        }
    }
    proof {
        assert(models.take(models.len() as int) =~= models);
        assert(names.take(names.len() as int) =~= names);
        first_repeat_is_first(names);
        assert forall|i: int| 0 <= i < sorted@.len() implies T::sound(
            #[trigger] arranged::<T>(models)[i],
        ) by {
            assert(sorted@.contains(sorted@[i]));
        }
    }
    Collection::All(sorted)
}

} // verus!
