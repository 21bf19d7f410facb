//! An object whose members keep the order in which they were put in.

use vstd::prelude::*;
use indexmap::IndexMap;
use crate::json::{JsonValue, Member};
use crate::text::{owned, str_equal};

verus! {

/// Makes `indexmap::IndexMap` known to the verifier, as a type whose inside
/// it does not see.
#[verifier::external_type_specification]
#[verifier::external_body]
#[verifier::reject_recursive_types(K)]
#[verifier::reject_recursive_types(V)]
#[verifier::reject_recursive_types(S)]
pub struct ExIndexMap<K, V, S>(IndexMap<K, V, S>);

/// The keys of a map with their numbers, in the order of the map.
pub uninterp spec fn ordered_entries(order: IndexMap<String, usize>) -> Seq<(Seq<char>, usize)>;

/// A map without entries.
///
/// Trusted: `IndexMap::new`, which creates an empty map.
#[verifier::external_body]
fn order_new() -> (fresh: IndexMap<String, usize>)
    ensures
        ordered_entries(fresh).len() == 0,
{
    IndexMap::new()
}

/// The number under a key.
///
/// Trusted: `IndexMap::get`, which finds the value of a key that the map
/// holds and nothing for any other key.
#[verifier::external_body]
fn order_get(order: &IndexMap<String, usize>, key: &str) -> (found: Option<usize>)
    ensures
        match found {
            Some(n) => exists|i: int|
                0 <= i < ordered_entries(*order).len() && #[trigger] ordered_entries(*order)[i] == (
                    key@,
                    n,
                ),
            None => forall|i: int|
                0 <= i < ordered_entries(*order).len() ==> (#[trigger] ordered_entries(
                    *order,
                )[i]).0 != key@,
        },
{
    order.get(key).copied()
}

/// Puts a number under a key that the map does not hold.
///
/// Trusted: `IndexMap::insert`, which puts a pair whose key the map does not
/// hold last in order and leaves the other pairs as they were.
#[verifier::external_body]
fn order_append(order: &mut IndexMap<String, usize>, key: String, n: usize)
    requires
        forall|i: int|
            0 <= i < ordered_entries(*old(order)).len() ==> (#[trigger] ordered_entries(
                *old(order),
            )[i]).0 != key@,
    ensures
        ordered_entries(*final(order)) == ordered_entries(*old(order)).push((key@, n)),
{
    order.insert(key, n);
}

/// Members in the order in which their names were first put in.
pub struct OrderedValue {
    order: IndexMap<String, usize>,
    members: Vec<Member>,
}

/// The place of the member of a name, if there is one.
pub open spec fn place_of(members: Seq<(Seq<char>, JsonValue)>, key: Seq<char>) -> Option<int> {
    if exists|i: int| 0 <= i < members.len() && (#[trigger] members[i]).0 == key {
        Some(choose|i: int| 0 <= i < members.len() && (#[trigger] members[i]).0 == key)
    } else {
        None
    }
}

/// The members after `value` is put under `key`: in the place of a member of
/// that name, else behind the last.
pub open spec fn put(members: Seq<(Seq<char>, JsonValue)>, key: Seq<char>, value: JsonValue) -> Seq<
    (Seq<char>, JsonValue),
> {
    match place_of(members, key) {
        Some(i) => members.update(i, (key, value)),
        None => members.push((key, value)),
    }
}

impl OrderedValue {
    /// The map holds every member's name with the member's place, and no
    /// name twice.
    pub closed spec fn wf(&self) -> bool {
        &&& ordered_entries(self.order).len() == self.members@.len()
        &&& forall|i: int|
            0 <= i < self.members@.len() ==> #[trigger] ordered_entries(self.order)[i] == (
                self.members@[i].key@,
                i as usize,
            )
        &&& forall|i: int, j: int|
            0 <= i < j < self.members@.len() ==> (#[trigger] self.members@[i]).key@ != (
            #[trigger] self.members@[j]).key@
    }

    /// The members by name, in order.
    pub closed spec fn view(&self) -> Seq<(Seq<char>, JsonValue)> {
        Seq::new(self.members@.len(), |i: int| (self.members@[i].key@, self.members@[i].value))
    }

    /// An object without members.
    pub fn new() -> (object: Self)
        ensures
            object.wf(),
            object@.len() == 0,
    {
        OrderedValue { order: order_new(), members: Vec::new() }
    }

    /// Puts a value under a name. A member of that name keeps its place and
    /// gets the value; a new name comes last.
    pub fn insert(&mut self, key: &str, value: JsonValue)
        requires
            old(self).wf(),
        ensures
            final(self).wf(),
            final(self)@ == put(old(self)@, key@, value),
    {
        match order_get(&self.order, key) {
            Some(at) => {
                proof {
                    let i = choose|i: int|
                        0 <= i < ordered_entries(self.order).len() && #[trigger] ordered_entries(
                            self.order,
                        )[i] == (key@, at);
                    assert(ordered_entries(self.order)[i] == (self.members@[i].key@, i as usize));
                    assert(self.members@.len() == self.members.len());
                    assert(i == at);
                    assert(old(self)@[i].0 == key@);
                    let chosen = place_of(old(self)@, key@)->0;
                    assert(old(self)@[chosen].0 == key@);
                    if chosen != i {
                        if chosen < i {
                            assert(self.members@[chosen].key@ != self.members@[i].key@);
                        } else {
                            assert(self.members@[i].key@ != self.members@[chosen].key@);
                        }
                    }
                }
                self.members[at].value = value;
                proof {
                    assert(self@ =~= put(old(self)@, key@, value));
                    assert forall|i: int| 0 <= i < self.members@.len() implies #[trigger] ordered_entries(
                        self.order,
                    )[i] == (self.members@[i].key@, i as usize) by {
                        assert(self.members@[i].key == old(self).members@[i].key);
                    }
                    assert forall|i: int, j: int| 0 <= i < j < self.members@.len() implies (
                    #[trigger] self.members@[i]).key@ != (#[trigger] self.members@[j]).key@ by {
                        assert(self.members@[i].key == old(self).members@[i].key);
                        assert(self.members@[j].key == old(self).members@[j].key);
                    }
                    assert(self.wf());
                }
            },
            None => {
                proof {
                    assert forall|i: int| 0 <= i < old(self)@.len() implies (
                    #[trigger] old(self)@[i]).0 != key@ by {
                        assert(ordered_entries(self.order)[i].0 != key@);
                    }
                }
                let at = self.members.len();
                order_append(&mut self.order, owned(key), at);
                self.members.push(Member { key: owned(key), value });
                proof {
                    assert(self@ =~= put(old(self)@, key@, value));
                    assert forall|i: int| 0 <= i < self.members@.len() implies #[trigger] ordered_entries(
                        self.order,
                    )[i] == (self.members@[i].key@, i as usize) by {
                        if i < old(self).members@.len() {
                            assert(ordered_entries(old(self).order)[i] == (
                                old(self).members@[i].key@,
                                i as usize,
                            ));
                        }
                    }
                    assert forall|i: int, j: int| 0 <= i < j < self.members@.len() implies (
                    #[trigger] self.members@[i]).key@ != (#[trigger] self.members@[j]).key@ by {
                        if j == self.members@.len() - 1 {
                            assert(ordered_entries(old(self).order)[i].0 != key@);
                            assert(ordered_entries(old(self).order)[i] == (
                                old(self).members@[i].key@,
                                i as usize,
                            ));
                        } else {
                            assert(old(self).members@[i].key@ != old(self).members@[j].key@);
                        }
                    }
                    assert(self.wf());
                }
            },
        }
    }

    /// The members as an object of a document.
    pub fn into_object(self) -> (object: JsonValue)
        requires
            self.wf(),
        ensures
            object is Object,
            object->Object_0@.len() == self@.len(),
            forall|i: int|
                0 <= i < self@.len() ==> (#[trigger] object->Object_0@[i]).key@ == self@[i].0
                    && object->Object_0@[i].value == self@[i].1,
    {
        JsonValue::Object(self.members)
    }
}

/// The place of the first member of a name from `from` on; the length where
/// there is none.
pub open spec fn first_member(members: Seq<Member>, key: Seq<char>, from: int) -> int
    decreases members.len() - from,
{
    if from < 0 || from >= members.len() {
        members.len() as int
    } else if members[from].key@ == key {
        from
    } else {
        first_member(members, key, from + 1)
    }
}

/// The value of the first member of a name in an object; null where there is
/// no such member or the value is no object.
pub open spec fn member_or_null(value: JsonValue, key: Seq<char>) -> JsonValue {
    match value {
        JsonValue::Object(members) => {
            let at = first_member(members@, key, 0);
            if 0 <= at < members@.len() {
                members@[at].value
            } else {
                JsonValue::Null
            }
        },
        _ => JsonValue::Null,
    }
}

/// Takes the value of the first member of a name out of a list of members
/// and leaves null in its place.
fn take_member(members: &mut Vec<Member>, key: &str) -> (value: JsonValue)
    ensures
        final(members)@.len() == old(members)@.len(),
        forall|i: int|
            0 <= i < old(members)@.len() ==> (#[trigger] final(members)@[i]).key == old(
                members,
            )@[i].key,
        forall|i: int|
            0 <= i < old(members)@.len() && i != first_member(old(members)@, key@, 0) ==> (
            #[trigger] final(members)@[i]) == old(members)@[i],
        value == (if first_member(old(members)@, key@, 0) < old(members)@.len() {
            old(members)@[first_member(old(members)@, key@, 0)].value
        } else {
            JsonValue::Null
        }),
{
    let mut i: usize = 0;
    while i < members.len()
        invariant
            i <= members.len(),
            *members == *old(members),
            first_member(members@, key@, 0) == first_member(members@, key@, i as int),
        decreases members.len() - i,
    {
        if str_equal(members[i].key.as_str(), key) {
            let mut taken = JsonValue::Null;
            std::mem::swap(&mut members[i].value, &mut taken);
            return taken;
        }
        i = i + 1;
    }
    JsonValue::Null
}

/// Names keep their first members when values are taken out.
proof fn lemma_first_member_by_keys(a: Seq<Member>, b: Seq<Member>, key: Seq<char>, from: int)
    requires
        a.len() == b.len(),
        forall|i: int| 0 <= i < a.len() ==> (#[trigger] a[i]).key == b[i].key,
    ensures
        first_member(a, key, from) == first_member(b, key, from),
    decreases a.len() - from,
{
    if 0 <= from < a.len() {
        assert(a[from].key == b[from].key);
        if a[from].key@ != key {
            lemma_first_member_by_keys(a, b, key, from + 1);
        }
    }
}

/// The first member of a name has that name.
proof fn lemma_first_member_has_key(a: Seq<Member>, key: Seq<char>, from: int)
    requires
        0 <= from,
    ensures
        from <= first_member(a, key, from) <= a.len() || from > a.len(),
        first_member(a, key, from) < a.len() ==> a[first_member(a, key, from)].key@ == key,
    decreases a.len() - from,
{
    if from < a.len() && a[from].key@ != key {
        lemma_first_member_has_key(a, key, from + 1);
    }
}

/// The response of the service with its members in their fixed order: the
/// request's identifier, whether it succeeded, and the quotes. A member that
/// the response lacks is null.
pub fn create_ordered_response(response: JsonValue) -> (ordered: OrderedValue)
    ensures
        ordered.wf(),
        ordered@ == seq![
            ("requestId"@, member_or_null(response, "requestId"@)),
            ("success"@, member_or_null(response, "success"@)),
            ("data"@, member_or_null(response, "data"@)),
        ],
{
    proof {
        reveal_strlit("requestId");
        reveal_strlit("success");
        reveal_strlit("data");
        assert("requestId"@.len() == 9);
        assert("success"@.len() == 7);
        assert("data"@.len() == 4);
    }
    let mut ordered = OrderedValue::new();
    let (request_id, success, data) = match response {
        JsonValue::Object(members) => {
            let mut members = members;
            let ghost m0 = members@;
            let request_id = take_member(&mut members, "requestId");
            let ghost m1 = members@;
            let success = take_member(&mut members, "success");
            let ghost m2 = members@;
            let data = take_member(&mut members, "data");
            proof {
                lemma_first_member_by_keys(m1, m0, "success"@, 0);
                lemma_first_member_by_keys(m2, m0, "data"@, 0);
                lemma_first_member_by_keys(m2, m1, "data"@, 0);
                lemma_first_member_has_key(m0, "requestId"@, 0);
                lemma_first_member_has_key(m0, "success"@, 0);
                lemma_first_member_has_key(m0, "data"@, 0);
            }
            (request_id, success, data)
        },
        _ => (JsonValue::Null, JsonValue::Null, JsonValue::Null),
    };
    ordered.insert("requestId", request_id);
    proof {
        assert(place_of(Seq::<(Seq<char>, JsonValue)>::empty(), "requestId"@) is None);
        assert(ordered@ =~= seq![("requestId"@, request_id)]);
    }
    ordered.insert("success", success);
    proof {
        assert(place_of(seq![("requestId"@, request_id)], "success"@) is None);
        assert(ordered@ =~= seq![("requestId"@, request_id), ("success"@, success)]);
    }
    ordered.insert("data", data);
    proof {
        assert(place_of(seq![("requestId"@, request_id), ("success"@, success)], "data"@) is None);
        assert(ordered@ =~= seq![
            ("requestId"@, request_id),
            ("success"@, success),
            ("data"@, data),
        ]);
    }
    ordered
}

/// The response of the service as an object with its members in their
/// fixed order.
pub fn serialize_ordered_response(response: JsonValue) -> (object: JsonValue)
    ensures
        object is Object,
        object->Object_0@.len() == 3,
        object->Object_0@[0].key@ == "requestId"@ && object->Object_0@[0].value == member_or_null(
            response,
            "requestId"@,
        ),
        object->Object_0@[1].key@ == "success"@ && object->Object_0@[1].value == member_or_null(
            response,
            "success"@,
        ),
        object->Object_0@[2].key@ == "data"@ && object->Object_0@[2].value == member_or_null(
            response,
            "data"@,
        ),
{
    let ordered = create_ordered_response(response);
    ordered.into_object()
}

} // verus!
