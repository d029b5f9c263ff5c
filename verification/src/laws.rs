//! What holds of the canonical form, for every JSON value.

use crate::canonical::{
    canonical, canonical_items, canonical_values, insert_position, is_canonical, keys_sorted,
    lemma_insert_position_bounds, lemma_sort_members, lemma_sort_members_sorted, sort_members,
};
use crate::order::{lemma_key_le_antisym, lemma_key_le_refl};
use crate::value::Json;
use vstd::prelude::*;

verus! {

/// One step down into a JSON value: to the members of an object that have a
/// given key, or to the element of an array at a given place.
pub enum Step {
    Key(Seq<char>),
    Index(int),
}

/// Following `path` from the root of `value` leads to the scalar `scalar`.
pub open spec fn scalar_at(value: Json, path: Seq<Step>, scalar: Json) -> bool
    decreases path.len(),
{
    if path.len() == 0 {
        value.is_scalar() && value == scalar
    } else {
        match (path[0], value) {
            (Step::Index(i), Json::Array(items)) => 0 <= i < items.len() && scalar_at(
                items[i],
                path.drop_first(),
                scalar,
            ),
            (Step::Key(key), Json::Object(members)) => exists|j: int|
                0 <= j < members.len() && (#[trigger] members[j]).0 == key && scalar_at(
                    members[j].1,
                    path.drop_first(),
                    scalar,
                ),
            _ => false,
        }
    }
}

/// Every scalar in `value`, each with the path that leads to it.
pub open spec fn leaves(value: Json) -> Set<(Seq<Step>, Json)> {
    Set::new(|leaf: (Seq<Step>, Json)| scalar_at(value, leaf.0, leaf.1))
}

/// The canonical form is in canonical form: at every depth the keys of each
/// object never step down from one member to the next.
pub proof fn law_canonical_keys_sorted(value: Json)
    ensures
        is_canonical(canonical(value)),
    decreases value,
{
    match value {
        Json::Array(items) => {
            let out = canonical_items(items);
            assert forall|i: int| 0 <= i < out.len() implies is_canonical(#[trigger] out[i]) by {
                law_canonical_keys_sorted(items[i]);
            }
        },
        Json::Object(members) => {
            let inner = canonical_values(members);
            let out = sort_members(inner);
            lemma_sort_members(inner);
            assert forall|j: int| 0 <= j < out.len() implies is_canonical((#[trigger] out[j]).1) by {
                assert(out.contains(out[j]));
                assert(inner.contains(out[j]));
                let i = choose|i: int| 0 <= i < inner.len() && inner[i] == out[j];
                law_canonical_keys_sorted(members[i].1);
            }
        },
        _ => {},
    }
}

/// A value in canonical form is its own canonical form.
pub proof fn law_canonical_fixed(value: Json)
    requires
        is_canonical(value),
    ensures
        canonical(value) == value,
    decreases value,
{
    match value {
        Json::Array(items) => {
            let out = canonical_items(items);
            assert forall|i: int| 0 <= i < out.len() implies out[i] == items[i] by {
                law_canonical_fixed(items[i]);
            }
            assert(out =~= items);
        },
        Json::Object(members) => {
            let inner = canonical_values(members);
            assert forall|i: int| 0 <= i < inner.len() implies inner[i] == members[i] by {
                law_canonical_fixed(members[i].1);
            }
            assert(inner =~= members);
            lemma_sort_members_sorted(members);
        },
        _ => {},
    }
}

/// Bringing a value into canonical form twice gives what doing it once gives.
pub proof fn law_canonical_idempotent(value: Json)
    ensures
        canonical(canonical(value)) == canonical(value),
{
    law_canonical_keys_sorted(value);
    law_canonical_fixed(canonical(value));
}

/// An array keeps its length and the order of its elements: the element at
/// each place of the canonical form is the canonical form of the element
/// that stood at that place.
pub proof fn law_array_order_kept(items: Seq<Json>)
    ensures
        canonical(Json::Array(items)) is Array,
        canonical(Json::Array(items))->Array_0.len() == items.len(),
        forall|i: int|
            0 <= i < items.len() ==> #[trigger] canonical(Json::Array(items))->Array_0[i]
                == canonical(items[i]),
{
}

/// The members of an object's canonical form are the members of the object,
/// each with its value in canonical form and each as often as it occurred, in
/// key order.
pub proof fn law_object_members_kept(members: Seq<(Seq<char>, Json)>)
    ensures
        canonical(Json::Object(members)) is Object,
        canonical(Json::Object(members))->Object_0.len() == members.len(),
        keys_sorted(canonical(Json::Object(members))->Object_0),
        canonical(Json::Object(members))->Object_0.to_multiset() == canonical_values(
            members,
        ).to_multiset(),
        forall|m: (Seq<char>, Json)|
            #[trigger] canonical(Json::Object(members))->Object_0.contains(m)
                <==> canonical_values(members).contains(m),
{
    lemma_sort_members(canonical_values(members));
}

/// Whether a member has the key `key`.
pub open spec fn has_key(key: Seq<char>) -> spec_fn((Seq<char>, Json)) -> bool {
    |member: (Seq<char>, Json)| member.0 == key
}

/// The members that have the key `key`, in their order.
pub open spec fn with_key(members: Seq<(Seq<char>, Json)>, key: Seq<char>) -> Seq<
    (Seq<char>, Json),
> {
    members.filter(has_key(key))
}

/// Sorting is stable: the members that share a key come out in the order in
/// which they went in.
pub proof fn law_equal_keys_keep_order(members: Seq<(Seq<char>, Json)>, key: Seq<char>)
    ensures
        with_key(sort_members(members), key) == with_key(members, key),
    decreases members.len(),
{
    if members.len() > 0 {
        let pred = has_key(key);
        let first = members[0];
        let rest = members.drop_first();
        let sorted = sort_members(rest);
        law_equal_keys_keep_order(rest, key);
        lemma_insert_position_bounds(first.0, sorted);
        let at = insert_position(first.0, sorted) as int;
        let head = sorted.take(at);
        let tail = sorted.skip(at);
        let one = seq![first];
        assert(sorted.insert(at, first) =~= (head + one) + tail);
        assert(sorted =~= head + tail);
        assert(members =~= one + rest);
        Seq::filter_distributes_over_add(head + one, tail, pred);
        Seq::filter_distributes_over_add(head, one, pred);
        Seq::filter_distributes_over_add(head, tail, pred);
        Seq::filter_distributes_over_add(one, rest, pred);
        if first.0 == key {
            let kept = head.filter(pred);
            if kept.len() > 0 {
                head.lemma_filter_pred(pred, 0);
                head.lemma_filter_contains_rev(pred, kept[0]);
                let j = choose|j: int| 0 <= j < head.len() && head[j] == kept[0];
                assert(head[j] == sorted[j]);
                lemma_key_le_refl(key);
            }
            assert(kept =~= Seq::empty());
            assert(head.filter(pred) + one.filter(pred) + tail.filter(pred) =~= one.filter(pred) + (
            head.filter(pred) + tail.filter(pred)));
        } else {
            reveal_with_fuel(Seq::filter, 2);
            assert(one.drop_last() =~= Seq::empty());
            assert(one.filter(pred) =~= Seq::empty());
            assert(head.filter(pred) + one.filter(pred) + tail.filter(pred) =~= head.filter(pred)
                + tail.filter(pred));
            assert(one.filter(pred) + rest.filter(pred) =~= rest.filter(pred));
        }
    }
}

/// The members with a given key, seen from the first member on: the first
/// member itself where it has the key, and after it those of the rest.
proof fn lemma_with_key_unfold(members: Seq<(Seq<char>, Json)>, key: Seq<char>)
    requires
        members.len() > 0,
    ensures
        with_key(members, key) == if members[0].0 == key {
            seq![members[0]] + with_key(members.drop_first(), key)
        } else {
            with_key(members.drop_first(), key)
        },
{
    let pred = has_key(key);
    let one = seq![members[0]];
    let rest = members.drop_first();
    assert(members =~= one + rest);
    Seq::filter_distributes_over_add(one, rest, pred);
    reveal_with_fuel(Seq::filter, 2);
    assert(one.drop_last() =~= Seq::empty());
    if members[0].0 == key {
        assert(one.filter(pred) =~= one);
    } else {
        assert(one.filter(pred) =~= Seq::empty());
        assert(one.filter(pred) + rest.filter(pred) =~= rest.filter(pred));
    }
}

/// In sorted members no key comes before the key of the first member.
proof fn lemma_first_key_is_least(members: Seq<(Seq<char>, Json)>, key: Seq<char>)
    requires
        keys_sorted(members),
        with_key(members, key).len() > 0,
    ensures
        members.len() > 0,
        crate::order::key_le(members[0].0, key),
{
    let pred = has_key(key);
    let kept = members.filter(pred);
    members.lemma_filter_pred(pred, 0);
    members.lemma_filter_contains_rev(pred, kept[0]);
    let j = choose|j: int| 0 <= j < members.len() && members[j] == kept[0];
    if j == 0 {
        lemma_key_le_refl(key);
    }
}

/// There is one way only to sort members stably: two sorted sequences that
/// hold, for every key, the same members with that key in the same order
/// are the same sequence.
pub proof fn law_stable_order_is_unique(a: Seq<(Seq<char>, Json)>, b: Seq<(Seq<char>, Json)>)
    requires
        keys_sorted(a),
        keys_sorted(b),
        forall|key: Seq<char>| #[trigger] with_key(a, key) == with_key(b, key),
    ensures
        a == b,
    decreases a.len(),
{
    if a.len() == 0 {
        if b.len() > 0 {
            lemma_with_key_unfold(b, b[0].0);
            assert(with_key(a, b[0].0) == with_key(b, b[0].0));
            reveal_with_fuel(Seq::filter, 1);
        }
        assert(a =~= b);
    } else {
        let key = a[0].0;
        lemma_with_key_unfold(a, key);
        assert(with_key(a, key) == with_key(b, key));
        lemma_first_key_is_least(b, key);
        let other = b[0].0;
        lemma_with_key_unfold(b, other);
        assert(with_key(a, other) == with_key(b, other));
        lemma_first_key_is_least(a, other);
        lemma_key_le_antisym(key, other);
        assert(with_key(a, key)[0] == a[0]);
        assert(with_key(b, key)[0] == b[0]);
        let rest_a = a.drop_first();
        let rest_b = b.drop_first();
        assert forall|k: Seq<char>| #[trigger] with_key(rest_a, k) == with_key(rest_b, k) by {
            lemma_with_key_unfold(a, k);
            lemma_with_key_unfold(b, k);
            assert(with_key(a, k) == with_key(b, k));
            if a[0].0 == k {
                assert(with_key(rest_a, k) =~= with_key(a, k).drop_first());
                assert(with_key(rest_b, k) =~= with_key(b, k).drop_first());
            }
        }
        assert forall|i: int, j: int| 0 <= i < j < rest_a.len() implies crate::order::key_le(
            #[trigger] rest_a[i].0,
            #[trigger] rest_a[j].0,
        ) by {
            assert(rest_a[i] == a[i + 1] && rest_a[j] == a[j + 1]);
        }
        assert forall|i: int, j: int| 0 <= i < j < rest_b.len() implies crate::order::key_le(
            #[trigger] rest_b[i].0,
            #[trigger] rest_b[j].0,
        ) by {
            assert(rest_b[i] == b[i + 1] && rest_b[j] == b[j + 1]);
        }
        law_stable_order_is_unique(rest_a, rest_b);
        assert(a =~= seq![a[0]] + rest_a);
        assert(b =~= seq![b[0]] + rest_b);
    }
}

/// Sorting gives the one sequence that is in key order and holds, for every
/// key, the members with that key in the order in which they went in.
pub proof fn law_sort_is_the_stable_order(
    members: Seq<(Seq<char>, Json)>,
    sorted: Seq<(Seq<char>, Json)>,
)
    requires
        keys_sorted(sorted),
        forall|key: Seq<char>| #[trigger] with_key(sorted, key) == with_key(members, key),
    ensures
        sorted == sort_members(members),
{
    lemma_sort_members(members);
    assert forall|key: Seq<char>| #[trigger]
        with_key(sorted, key) == with_key(sort_members(members), key) by {
        law_equal_keys_keep_order(members, key);
        assert(with_key(sorted, key) == with_key(members, key));
    }
    law_stable_order_is_unique(sorted, sort_members(members));
}

/// A path leads to a scalar in the canonical form exactly when it leads to
/// that scalar in the value itself.
pub proof fn law_canonical_keeps_scalar(value: Json, path: Seq<Step>, scalar: Json)
    ensures
        scalar_at(canonical(value), path, scalar) == scalar_at(value, path, scalar),
    decreases path.len(),
{
    if path.len() > 0 {
        let rest = path.drop_first();
        match (path[0], value) {
            (Step::Index(i), Json::Array(items)) => {
                if 0 <= i < items.len() {
                    law_canonical_keeps_scalar(items[i], rest, scalar);
                }
            },
            (Step::Key(key), Json::Object(members)) => {
                let inner = canonical_values(members);
                let out = sort_members(inner);
                lemma_sort_members(inner);
                if scalar_at(canonical(value), path, scalar) {
                    let j = choose|j: int|
                        0 <= j < out.len() && (#[trigger] out[j]).0 == key && scalar_at(
                            out[j].1,
                            rest,
                            scalar,
                        );
                    assert(out.contains(out[j]));
                    assert(inner.contains(out[j]));
                    let i = choose|i: int| 0 <= i < inner.len() && inner[i] == out[j];
                    law_canonical_keeps_scalar(members[i].1, rest, scalar);
                    assert(members[i].0 == key && scalar_at(members[i].1, rest, scalar));
                }
                if scalar_at(value, path, scalar) {
                    let i = choose|i: int|
                        0 <= i < members.len() && (#[trigger] members[i]).0 == key && scalar_at(
                            members[i].1,
                            rest,
                            scalar,
                        );
                    law_canonical_keeps_scalar(members[i].1, rest, scalar);
                    assert(inner[i] == (key, canonical(members[i].1)));
                    assert(inner.contains(inner[i]));
                    assert(out.contains(inner[i]));
                    let j = choose|j: int| 0 <= j < out.len() && out[j] == inner[i];
                    assert(out[j].0 == key && scalar_at(out[j].1, rest, scalar));
                }
            },
            _ => {},
        }
    }
}

/// The canonical form holds the same scalars at the same paths as the value
/// itself.
pub proof fn law_canonical_keeps_leaves(value: Json)
    ensures
        leaves(canonical(value)) == leaves(value),
{
    assert forall|leaf: (Seq<Step>, Json)|
        leaves(canonical(value)).contains(leaf) == leaves(value).contains(leaf) by {
        law_canonical_keeps_scalar(value, leaf.0, leaf.1);
    }
    assert(leaves(canonical(value)) =~= leaves(value));
}

} // verus!
