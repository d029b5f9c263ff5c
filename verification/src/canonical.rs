//! The canonical form of a JSON value: in every object, at every depth, the
//! members stand in key order; arrays and scalars are left as they are.

use crate::laws::law_canonical_keys_sorted;
use crate::order::{key_le, keys_in_order};
use crate::value::{items_view, members_view, Json, JsonValue};
use vstd::prelude::*;

verus! {

/// The keys of `members` never step down from one member to a later one.
pub open spec fn keys_sorted(members: Seq<(Seq<char>, Json)>) -> bool {
    forall|i: int, j: int|
        0 <= i < j < members.len() ==> key_le(#[trigger] members[i].0, #[trigger] members[j].0)
}

/// Where `key` goes in `sorted`: in front of the first member whose key does
/// not come before it, or at the end if there is none.
pub open spec fn insert_position(key: Seq<char>, sorted: Seq<(Seq<char>, Json)>) -> nat
    decreases sorted.len(),
{
    if sorted.len() == 0 || key_le(key, sorted[0].0) {
        0
    } else {
        1 + insert_position(key, sorted.drop_first())
    }
}

/// `sorted` with `member` put in at its position.
pub open spec fn insert_member(member: (Seq<char>, Json), sorted: Seq<(Seq<char>, Json)>) -> Seq<
    (Seq<char>, Json),
> {
    sorted.insert(insert_position(member.0, sorted) as int, member)
}

/// The members in key order. Members with the same key keep the order they
/// had among themselves.
pub open spec fn sort_members(members: Seq<(Seq<char>, Json)>) -> Seq<(Seq<char>, Json)>
    decreases members.len(),
{
    if members.len() == 0 {
        members
    } else {
        insert_member(members[0], sort_members(members.drop_first()))
    }
}

/// The canonical form of `value`.
pub open spec fn canonical(value: Json) -> Json
    decreases value,
{
    match value {
        Json::Array(items) => Json::Array(canonical_items(items)),
        Json::Object(members) => Json::Object(sort_members(canonical_values(members))),
        _ => value,
    }
}

/// Each element in canonical form, in the same place.
pub open spec fn canonical_items(items: Seq<Json>) -> Seq<Json>
    decreases items,
{
    Seq::new(
        items.len(),
        |i: int|
            if 0 <= i < items.len() {
                canonical(items[i])
            } else {
                Json::Null
            },
    )
}

/// Each member with its value in canonical form, in the same place.
pub open spec fn canonical_values(members: Seq<(Seq<char>, Json)>) -> Seq<(Seq<char>, Json)>
    decreases members,
{
    Seq::new(
        members.len(),
        |i: int|
            if 0 <= i < members.len() {
                (members[i].0, canonical(members[i].1))
            } else {
                (Seq::empty(), Json::Null)
            },
    )
}

/// `value` is in canonical form: every object in it, at every depth, has its
/// keys in order.
pub open spec fn is_canonical(value: Json) -> bool
    decreases value,
{
    match value {
        Json::Array(items) => forall|i: int| 0 <= i < items.len() ==> is_canonical(#[trigger] items[i]),
        Json::Object(members) => keys_sorted(members) && forall|i: int|
            0 <= i < members.len() ==> is_canonical((#[trigger] members[i]).1),
        _ => true,
    }
}

/// A position that has only later keys before it and no later key at it is
/// the position at which the member goes in.
pub proof fn lemma_insert_position(key: Seq<char>, sorted: Seq<(Seq<char>, Json)>, at: int)
    requires
        0 <= at <= sorted.len(),
        forall|k: int| 0 <= k < at ==> !key_le(key, (#[trigger] sorted[k]).0),
        at == sorted.len() || key_le(key, sorted[at].0),
    ensures
        insert_position(key, sorted) == at,
    decreases sorted.len(),
{
    if at > 0 {
        let rest = sorted.drop_first();
        assert(!key_le(key, sorted[0].0));
        assert forall|k: int| 0 <= k < at - 1 implies !key_le(key, (#[trigger] rest[k]).0) by {
            assert(rest[k] == sorted[k + 1]);
        }
        lemma_insert_position(key, rest, at - 1);
    }
}

pub proof fn lemma_insert_position_bounds(key: Seq<char>, sorted: Seq<(Seq<char>, Json)>)
    ensures
        insert_position(key, sorted) <= sorted.len(),
        forall|k: int|
            0 <= k < insert_position(key, sorted) ==> !key_le(key, (#[trigger] sorted[k]).0),
        insert_position(key, sorted) < sorted.len() ==> key_le(
            key,
            sorted[insert_position(key, sorted) as int].0,
        ),
    decreases sorted.len(),
{
    if !(sorted.len() == 0 || key_le(key, sorted[0].0)) {
        let rest = sorted.drop_first();
        lemma_insert_position_bounds(key, rest);
        let at = insert_position(key, sorted);
        assert forall|k: int| 0 <= k < at implies !key_le(key, (#[trigger] sorted[k]).0) by {
            if k > 0 {
                assert(sorted[k] == rest[k - 1]);
            }
        }
        if at < sorted.len() {
            assert(sorted[at as int] == rest[at - 1]);
        }
    }
}

/// Putting a member into sorted members leaves them sorted.
pub proof fn lemma_insert_keeps_sorted(member: (Seq<char>, Json), sorted: Seq<(Seq<char>, Json)>)
    requires
        keys_sorted(sorted),
    ensures
        keys_sorted(insert_member(member, sorted)),
{
    lemma_insert_position_bounds(member.0, sorted);
    let at = insert_position(member.0, sorted) as int;
    let out = insert_member(member, sorted);
    assert forall|i: int, j: int| 0 <= i < j < out.len() implies key_le(
        #[trigger] out[i].0,
        #[trigger] out[j].0,
    ) by {
        if j < at {
            assert(out[i] == sorted[i] && out[j] == sorted[j]);
        } else if j == at {
            assert(out[i] == sorted[i]);
            crate::order::lemma_key_le_total(member.0, sorted[i].0);
        } else if i < at {
            assert(out[i] == sorted[i] && out[j] == sorted[j - 1]);
        } else if i == at {
            assert(out[j] == sorted[j - 1]);
            if j - 1 > at {
                assert(key_le(sorted[at].0, sorted[j - 1].0));
                crate::order::lemma_key_le_trans(member.0, sorted[at].0, sorted[j - 1].0);
            }
        } else {
            assert(out[i] == sorted[i - 1] && out[j] == sorted[j - 1]);
        }
    }
}

/// What the members hold after one more was put in: that one and the others.
pub proof fn lemma_insert_contains(member: (Seq<char>, Json), sorted: Seq<(Seq<char>, Json)>)
    ensures
        insert_member(member, sorted).len() == sorted.len() + 1,
        forall|m: (Seq<char>, Json)|
            #[trigger] insert_member(member, sorted).contains(m) <==> (m == member
                || sorted.contains(m)),
{
    lemma_insert_position_bounds(member.0, sorted);
    let at = insert_position(member.0, sorted) as int;
    let out = insert_member(member, sorted);
    assert forall|m: (Seq<char>, Json)| #[trigger] out.contains(m) <==> (m == member
        || sorted.contains(m)) by {
        if out.contains(m) {
            let i = choose|i: int| 0 <= i < out.len() && out[i] == m;
            if i < at {
                assert(sorted[i] == m);
            } else if i > at {
                assert(sorted[i - 1] == m);
            }
        }
        if m == member {
            assert(out[at] == m);
        }
        if sorted.contains(m) {
            let i = choose|i: int| 0 <= i < sorted.len() && sorted[i] == m;
            if i < at {
                assert(out[i] == m);
            } else {
                assert(out[i + 1] == m);
            }
        }
    }
}

/// Sorting keeps the members, each as often as it occurred, and leaves their
/// keys in order.
pub proof fn lemma_sort_members(members: Seq<(Seq<char>, Json)>)
    ensures
        sort_members(members).len() == members.len(),
        keys_sorted(sort_members(members)),
        sort_members(members).to_multiset() == members.to_multiset(),
        forall|m: (Seq<char>, Json)|
            #[trigger] sort_members(members).contains(m) <==> members.contains(m),
    decreases members.len(),
{
    if members.len() > 0 {
        let rest = members.drop_first();
        lemma_sort_members(rest);
        lemma_insert_keeps_sorted(members[0], sort_members(rest));
        lemma_insert_contains(members[0], sort_members(rest));
        lemma_insert_position_bounds(members[0].0, sort_members(rest));
        vstd::seq_lib::to_multiset_insert(
            sort_members(rest),
            insert_position(members[0].0, sort_members(rest)) as int,
            members[0],
        );
        vstd::seq_lib::to_multiset_insert(rest, 0, members[0]);
        assert(rest.insert(0, members[0]) =~= members);
        assert forall|m: (Seq<char>, Json)| #[trigger]
            sort_members(members).contains(m) <==> members.contains(m) by {
            if members.contains(m) {
                let i = choose|i: int| 0 <= i < members.len() && members[i] == m;
                if i > 0 {
                    assert(rest[i - 1] == m);
                }
            }
            if rest.contains(m) {
                let i = choose|i: int| 0 <= i < rest.len() && rest[i] == m;
                assert(members[i + 1] == m);
            }
            if m == members[0] {
                assert(members.contains(m));
            }
        }
    }
}

/// Members that are in key order already are left as they are.
pub proof fn lemma_sort_members_sorted(members: Seq<(Seq<char>, Json)>)
    requires
        keys_sorted(members),
    ensures
        sort_members(members) == members,
    decreases members.len(),
{
    if members.len() > 0 {
        let rest = members.drop_first();
        assert forall|i: int, j: int| 0 <= i < j < rest.len() implies key_le(
            #[trigger] rest[i].0,
            #[trigger] rest[j].0,
        ) by {
            assert(rest[i] == members[i + 1] && rest[j] == members[j + 1]);
        }
        lemma_sort_members_sorted(rest);
        if rest.len() > 0 {
            assert(rest[0] == members[1]);
            assert(key_le(members[0].0, members[1].0));
        }
        assert(insert_position(members[0].0, rest) == 0);
        assert(rest.insert(0, members[0]) =~= members);
    }
}

/// In sorted members, whatever follows a member that `key` does not come
/// after is not come after by `key` either.
proof fn lemma_later_keys_follow(key: Seq<char>, sorted: Seq<(Seq<char>, Json)>, i: int, j: int)
    requires
        keys_sorted(sorted),
        0 <= i <= j < sorted.len(),
        key_le(key, sorted[i].0),
    ensures
        key_le(key, sorted[j].0),
{
    if i < j {
        crate::order::lemma_key_le_trans(key, sorted[i].0, sorted[j].0);
    }
}

/// Where a member with key `key` goes in `sorted`, found by halving.
fn position_for(key: &String, sorted: &Vec<(String, JsonValue)>) -> (at: usize)
    requires
        keys_sorted(members_view(sorted@)),
    ensures
        at == insert_position(key@, members_view(sorted@)),
{
    let ghost shown = members_view(sorted@);
    let mut low: usize = 0;
    let mut high: usize = sorted.len();
    while low < high
        invariant
            shown == members_view(sorted@),
            keys_sorted(shown),
            low <= high <= sorted.len(),
            forall|k: int| 0 <= k < low ==> !key_le(key@, (#[trigger] shown[k]).0),
            high < sorted.len() ==> key_le(key@, shown[high as int].0),
        decreases high - low,
    {
        let middle = low + (high - low) / 2;
        if keys_in_order(key.as_str(), sorted[middle].0.as_str()) {
            high = middle;
        } else {
            proof {
                assert forall|k: int| 0 <= k < middle + 1 implies !key_le(
                    key@,
                    (#[trigger] shown[k]).0,
                ) by {
                    if key_le(key@, shown[k].0) {
                        lemma_later_keys_follow(key@, shown, k, middle as int);
                    }
                }
            }
            low = middle + 1;
        }
    }
    proof {
        lemma_insert_position(key@, shown, low as int);
    }
    low
}

/// Arranges the members in key order; members with the same key keep the
/// order they had among themselves.
fn sort_members_by_key(members: &mut Vec<(String, JsonValue)>)
    ensures
        members_view(final(members)@) == sort_members(members_view(old(members)@)),
{
    let ghost all = members_view(members@);
    let mut sorted: Vec<(String, JsonValue)> = Vec::new();
    assert(all.skip(all.len() as int) =~= Seq::empty());
    assert(members_view(sorted@) =~= Seq::empty());
    while members.len() > 0
        invariant
            all.len() >= members.len(),
            members_view(members@) == all.take(members.len() as int),
            members_view(sorted@) == sort_members(all.skip(members.len() as int)),
        decreases members.len(),
    {
        let ghost before = members@;
        let ghost shown = members_view(sorted@);
        let n = members.len();
        proof {
            lemma_sort_members(all.skip(n as int));
        }
        match members.pop() {
            Some(member) => {
                let at = position_for(&member.0, &sorted);
                proof {
                    lemma_insert_position_bounds(member.0@, shown);
                }
                sorted.insert(at, member);
                proof {
                    let tail = all.skip(n - 1);
                    assert(members_view(before)[n - 1] == all[n - 1]);
                    assert(tail[0] == all[n - 1]);
                    assert(tail.drop_first() =~= all.skip(n as int));
                    assert(members_view(sorted@) =~= shown.insert(at as int, all[n - 1]));
                    assert(members_view(members@) =~= all.take(n - 1));
                }
            },
            None => {},
        }
    }
    assert(all.skip(0) =~= all);
    *members = sorted;
}

/// Brings each element of an array into canonical form.
fn sort_keys_in_items(items: &mut Vec<JsonValue>)
    ensures
        items_view(final(items)@) == canonical_items(items_view(old(items)@)),
    decreases *old(items),
{
    let n = items.len();
    let mut i: usize = 0;
    while i < n
        invariant
            i <= n,
            items.len() == n,
            old(items).len() == n,
            forall|k: int| 0 <= k < i ==> (#[trigger] items[k])@ == canonical(old(items)[k]@),
            forall|k: int| i <= k < n ==> #[trigger] items[k] == old(items)[k],
        decreases n - i,
    {
        sort_json_keys(&mut items[i]);
        i = i + 1;
    }
    assert(items_view(items@) =~= canonical_items(items_view(old(items)@)));
}

/// Brings the value of each member of an object into canonical form.
fn sort_keys_in_values(members: &mut Vec<(String, JsonValue)>)
    ensures
        members_view(final(members)@) == canonical_values(members_view(old(members)@)),
    decreases *old(members),
{
    let n = members.len();
    let mut i: usize = 0;
    while i < n
        invariant
            i <= n,
            members.len() == n,
            old(members).len() == n,
            forall|k: int|
                0 <= k < i ==> (#[trigger] members[k]).0 == old(members)[k].0 && members[k].1@
                    == canonical(old(members)[k].1@),
            forall|k: int| i <= k < n ==> #[trigger] members[k] == old(members)[k],
        decreases n - i,
    {
        sort_json_keys(&mut members[i].1);
        i = i + 1;
    }
    assert(members_view(members@) =~= canonical_values(members_view(old(members)@)));
}

/// Rearranges `value` into canonical form, in place: the members of every
/// object, at every depth, are put in key order. Arrays keep the order of
/// their elements, and no scalar is changed.
pub fn sort_json_keys(value: &mut JsonValue)
    ensures
        final(value)@ == canonical(old(value)@),
        is_canonical(final(value)@),
    decreases *old(value),
{
    proof {
        law_canonical_keys_sorted(value@);
    }
    match value {
        JsonValue::Array(items) => {
            sort_keys_in_items(items);
        },
        JsonValue::Object(members) => {
            sort_keys_in_values(members);
            sort_members_by_key(members);
        },
        _ => {},
    }
}

} // verus!
