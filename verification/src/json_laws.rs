//! What holds of the accounting of JSON values.

use vstd::prelude::*;
use vstd::utf8::encode_utf8;

use crate::json::{
    count_container, count_element, count_key, count_node, empty_tally, limits_within_maximum,
    member_names, normal, normal_items, normal_members, tally_document, tally_items,
    tally_items_stops, tally_member, tally_members, tally_members_stops, tally_value,
    BoundedJsonError, LimitsModel, Tally,
};
use crate::json_value::{
    items_depth, items_nodes, items_size, json_depth, json_nodes, json_size, larger, members_depth,
    members_nodes, members_size, string_size, Json, JsonMember, Member,
};
use crate::ordered::{ascending, placed, placed_keeps_order, rank, rank_in_range};
use crate::text::precedes;

verus! {

/// Every string, name and container inside the value, which stands inside so
/// many containers, is within its own bound, and no object repeats a name.
pub open spec fn fits(limits: LimitsModel, above: nat, value: Json) -> bool
    decreases value,
{
    match value {
        Json::Text(text) => encode_utf8(text).len() <= limits.max_string_bytes,
        Json::Array(items) => {
            &&& above + 1 <= limits.max_depth
            &&& items.len() <= limits.max_container_entries
            &&& forall|i: int| 0 <= i < items.len() ==> fits(limits, above + 1, #[trigger] items[i])
        },
        Json::Object(members) => {
            &&& above + 1 <= limits.max_depth
            &&& members.len() <= limits.max_container_entries
            &&& distinct(members)
            &&& forall|i: int|
                0 <= i < members.len() ==> encode_utf8(#[trigger] members[i].name).len()
                    <= limits.max_object_key_bytes
            &&& forall|i: int|
                0 <= i < members.len() ==> fits(limits, above + 1, (#[trigger] members[i]).value)
        },
        _ => true,
    }
}

/// No two members have one name.
pub open spec fn distinct(members: Seq<Member>) -> bool {
    forall|i: int, j: int|
        0 <= i < j < members.len() ==> (#[trigger] members[i]).name != (#[trigger] members[j]).name
}

/// The value is within every bound.
pub open spec fn within(limits: LimitsModel, value: Json) -> bool {
    &&& fits(limits, 0, value)
    &&& json_size(value) <= limits.max_bytes
    &&& json_nodes(value) <= limits.max_nodes
}

/// The size, depth and number of values of a document.
pub open spec fn measure(value: Json) -> Tally {
    Tally { bytes: json_size(value), depth: json_depth(value), nodes: json_nodes(value) }
}

proof fn nodes_positive(value: Json)
    ensures
        json_nodes(value) >= 1,
{
}

proof fn tally_value_exact(limits: LimitsModel, tally: Tally, above: nat, value: Json)
    requires
        above <= tally.depth,
        tally.bytes <= limits.max_bytes,
        tally.nodes <= limits.max_nodes,
    ensures
        tally_value(limits, tally, above, value) is Ok <==> {
            &&& fits(limits, above, value)
            &&& tally.bytes + json_size(value) <= limits.max_bytes
            &&& tally.nodes + json_nodes(value) <= limits.max_nodes + 1
        },
        tally_value(limits, tally, above, value) matches Ok(after) ==> after == (Tally {
            bytes: tally.bytes + json_size(value),
            depth: larger(tally.depth, above + json_depth(value)),
            nodes: (tally.nodes + json_nodes(value) - 1) as nat,
        }),
    decreases value,
{
    match value {
        Json::Array(items) => {
            if above + 1 <= limits.max_depth && tally.bytes + 2 <= limits.max_bytes {
                let opened = Tally {
                    bytes: tally.bytes + 2,
                    depth: larger(tally.depth, above + 1),
                    nodes: tally.nodes,
                };
                tally_items_exact(limits, opened, above + 1, items, items.len());
            }
        },
        Json::Object(members) => {
            if above + 1 <= limits.max_depth && tally.bytes + 2 <= limits.max_bytes {
                let opened = Tally {
                    bytes: tally.bytes + 2,
                    depth: larger(tally.depth, above + 1),
                    nodes: tally.nodes,
                };
                tally_members_exact(limits, opened, above + 1, members, members.len());
                assert(members.take(members.len() as int) =~= members);
            }
        },
        _ => {},
    }
}

proof fn tally_items_exact(limits: LimitsModel, tally: Tally, above: nat, items: Seq<Json>, n: nat)
    requires
        n <= items.len(),
        above <= tally.depth,
        tally.bytes <= limits.max_bytes,
        tally.nodes <= limits.max_nodes,
    ensures
        tally_items(limits, tally, above, items, n) is Ok <==> {
            &&& n <= limits.max_container_entries
            &&& forall|i: int| 0 <= i < n ==> fits(limits, above, #[trigger] items[i])
            &&& tally.bytes + items_size(items, n) <= limits.max_bytes
            &&& tally.nodes + items_nodes(items, n) <= limits.max_nodes
        },
        tally_items(limits, tally, above, items, n) matches Ok(after) ==> after == (Tally {
            bytes: tally.bytes + items_size(items, n),
            depth: larger(tally.depth, above + items_depth(items, n)),
            nodes: tally.nodes + items_nodes(items, n),
        }),
    decreases items, n,
{
    if n > 0 {
        let m = (n - 1) as nat;
        tally_items_exact(limits, tally, above, items, m);
        nodes_positive(items[m as int]);
        match tally_items(limits, tally, above, items, m) {
            Ok(next) => {
                match count_element(limits, next, m) {
                    Ok(counted) => {
                        tally_value_exact(limits, counted, above, items[m as int]);
                    },
                    Err(_) => {},
                }
            },
            Err(_) => {},
        }
    }
}

proof fn tally_members_exact(
    limits: LimitsModel,
    tally: Tally,
    above: nat,
    members: Seq<Member>,
    n: nat,
)
    requires
        n <= members.len(),
        above <= tally.depth,
        tally.bytes <= limits.max_bytes,
        tally.nodes <= limits.max_nodes,
    ensures
        tally_members(limits, tally, above, members, n) is Ok <==> {
            &&& n <= limits.max_container_entries
            &&& distinct(members.take(n as int))
            &&& forall|i: int|
                0 <= i < n ==> encode_utf8(#[trigger] members[i].name).len()
                    <= limits.max_object_key_bytes
            &&& forall|i: int| 0 <= i < n ==> fits(limits, above, (#[trigger] members[i]).value)
            &&& tally.bytes + members_size(members, n) <= limits.max_bytes
            &&& tally.nodes + members_nodes(members, n) <= limits.max_nodes
        },
        tally_members(limits, tally, above, members, n) matches Ok(after) ==> after == (Tally {
            bytes: tally.bytes + members_size(members, n),
            depth: larger(tally.depth, above + members_depth(members, n)),
            nodes: tally.nodes + members_nodes(members, n),
        }),
    decreases members, n,
{
    if n > 0 {
        let m = (n - 1) as nat;
        let member = members[m as int];
        tally_members_exact(limits, tally, above, members, m);
        nodes_positive(member.value);
        let (shorter, longer) = (members.take(m as int), members.take(n as int));
        let names = member_names(shorter);
        assert(distinct(longer) <==> distinct(shorter) && !names.contains(member.name)) by {
            if distinct(longer) {
                assert forall|i: int, j: int| 0 <= i < j < shorter.len() implies (
                #[trigger] shorter[i]).name != (#[trigger] shorter[j]).name by {
                    assert(shorter[i] == longer[i] && shorter[j] == longer[j]);
                }
                if names.contains(member.name) {
                    let k = choose|k: int| 0 <= k < names.len() && names[k] == member.name;
                    assert(longer[k].name == longer[m as int].name);
                }
            }
            if distinct(shorter) && !names.contains(member.name) {
                assert forall|i: int, j: int| 0 <= i < j < longer.len() implies (
                #[trigger] longer[i]).name != (#[trigger] longer[j]).name by {
                    assert(names[i] == longer[i].name);
                    if j < m {
                        assert(shorter[i] == longer[i] && shorter[j] == longer[j]);
                    }
                }
            }
        }
        match tally_members(limits, tally, above, members, m) {
            Ok(next) => {
                assert(tally_members(limits, tally, above, members, n) == tally_member(
                    limits,
                    next,
                    above,
                    members,
                    n,
                ));
                match count_key(limits, next, m, member.name) {
                    Ok(named) => {
                        match count_node(limits, named) {
                            Ok(counted) => {
                                tally_value_exact(limits, counted, above, member.value);
                            },
                            Err(_) => {},
                        }
                    },
                    Err(_) => {},
                }
            },
            Err(_) => {},
        }
    }
}

/// A document is accepted exactly where it is within every bound, and then
/// the statistics are its size, its depth and its number of values.
pub proof fn accepted_exactly_within_limits(limits: LimitsModel, value: Json)
    requires
        limits_within_maximum(limits),
    ensures
        tally_document(limits, value) is Ok <==> within(limits, value),
        tally_document(limits, value) matches Ok(tally) ==> tally == measure(value),
{
    nodes_positive(value);
    let counted = Tally { bytes: 0, depth: 0, nodes: 1 };
    assert(count_node(limits, empty_tally()) == Ok::<Tally, BoundedJsonError>(counted));
    tally_value_exact(limits, counted, 0, value);
}

/// The smaller limits bound no dimension higher than the larger.
pub open spec fn narrower(smaller: LimitsModel, larger: LimitsModel) -> bool {
    &&& smaller.max_bytes <= larger.max_bytes
    &&& smaller.max_depth <= larger.max_depth
    &&& smaller.max_container_entries <= larger.max_container_entries
    &&& smaller.max_nodes <= larger.max_nodes
    &&& smaller.max_string_bytes <= larger.max_string_bytes
    &&& smaller.max_object_key_bytes <= larger.max_object_key_bytes
}

proof fn fits_wider(smaller: LimitsModel, wider: LimitsModel, above: nat, value: Json)
    requires
        narrower(smaller, wider),
        fits(smaller, above, value),
    ensures
        fits(wider, above, value),
    decreases value,
{
    match value {
        Json::Array(items) => {
            assert forall|i: int| 0 <= i < items.len() implies fits(
                wider,
                above + 1,
                #[trigger] items[i],
            ) by {
                fits_wider(smaller, wider, above + 1, items[i]);
            }
        },
        Json::Object(members) => {
            assert forall|i: int| 0 <= i < members.len() implies fits(
                wider,
                above + 1,
                (#[trigger] members[i]).value,
            ) by {
                fits_wider(smaller, wider, above + 1, members[i].value);
            }
        },
        _ => {},
    }
}

/// What narrower limits accept, wider limits accept with the same statistics.
pub proof fn wider_limits_accept_more(smaller: LimitsModel, wider: LimitsModel, value: Json)
    requires
        limits_within_maximum(smaller),
        limits_within_maximum(wider),
        narrower(smaller, wider),
        tally_document(smaller, value) is Ok,
    ensures
        tally_document(wider, value) == tally_document(smaller, value),
{
    accepted_exactly_within_limits(smaller, value);
    accepted_exactly_within_limits(wider, value);
    fits_wider(smaller, wider, 0, value);
}

// ---------------------------------------------------------------------------
// Normal form
// ---------------------------------------------------------------------------

spec fn member_size(member: Member) -> nat {
    string_size(member.name) + 1 + json_size(member.value)
}

spec fn total_size(members: Seq<Member>) -> nat
    decreases members.len(),
{
    if members.len() == 0 {
        0
    } else {
        total_size(members.drop_last()) + member_size(members.last())
    }
}

spec fn total_nodes(members: Seq<Member>) -> nat
    decreases members.len(),
{
    if members.len() == 0 {
        0
    } else {
        total_nodes(members.drop_last()) + json_nodes(members.last().value)
    }
}

spec fn deepest(members: Seq<Member>) -> nat
    decreases members.len(),
{
    if members.len() == 0 {
        0
    } else {
        larger(deepest(members.drop_last()), json_depth(members.last().value))
    }
}

proof fn totals_of_insert(members: Seq<Member>, at: int, member: Member)
    requires
        0 <= at <= members.len(),
    ensures
        total_size(members.insert(at, member)) == total_size(members) + member_size(member),
        total_nodes(members.insert(at, member)) == total_nodes(members) + json_nodes(member.value),
        deepest(members.insert(at, member)) == larger(deepest(members), json_depth(member.value)),
    decreases members.len(),
{
    let more = members.insert(at, member);
    if at == members.len() {
        assert(more.drop_last() =~= members);
    } else {
        assert(more.drop_last() =~= members.drop_last().insert(at, member));
        assert(more.last() == members.last());
        totals_of_insert(members.drop_last(), at, member);
    }
}

proof fn members_totals(members: Seq<Member>, n: nat)
    requires
        n <= members.len(),
    ensures
        members_size(members, n) == total_size(members.take(n as int)) + (if n == 0 {
            0
        } else {
            n - 1
        }),
        members_nodes(members, n) == total_nodes(members.take(n as int)),
        members_depth(members, n) == deepest(members.take(n as int)),
    decreases n,
{
    if n > 0 {
        members_totals(members, (n - 1) as nat);
        assert(members.take(n as int).drop_last() =~= members.take(n - 1));
    }
}

/// What is kept of the first `n` members when they are put in order.
spec fn members_kept(members: Seq<Member>, n: nat) -> bool {
    let made = normal_members(members, n);
    &&& made.len() == n
    &&& ascending(member_names(made))
    &&& forall|name: Seq<char>|
        #![trigger member_names(made).contains(name)]
        #![trigger member_names(members.take(n as int)).contains(name)]
        member_names(made).contains(name) <==> member_names(members.take(n as int)).contains(name)
    &&& total_size(made) == total_size(members.take(n as int))
    &&& total_nodes(made) == total_nodes(members.take(n as int))
    &&& deepest(made) == deepest(members.take(n as int))
    &&& forall|i: int|
        0 <= i < n ==> exists|k: int|
            0 <= k < n && (#[trigger] made[i]) == (Member {
                name: members[k].name,
                value: normal(#[trigger] members[k].value),
            })
    &&& forall|k: int|
        0 <= k < n ==> made.contains(
            Member { name: (#[trigger] members[k]).name, value: normal(members[k].value) },
        )
}

proof fn normal_keeps(value: Json)
    ensures
        json_size(normal(value)) == json_size(value),
        json_nodes(normal(value)) == json_nodes(value),
        json_depth(normal(value)) == json_depth(value),
    decreases value,
{
    match value {
        Json::Array(items) => {
            normal_items_keep(items, items.len());
        },
        Json::Object(members) => {
            let made = normal_members(members, members.len());
            normal_members_totals(members, members.len());
            members_totals(members, members.len());
            members_totals(made, made.len());
            assert(members.take(members.len() as int) =~= members);
            assert(made.take(made.len() as int) =~= made);
        },
        _ => {},
    }
}

proof fn normal_items_keep(items: Seq<Json>, n: nat)
    requires
        n <= items.len(),
    ensures
        normal_items(items, n).len() == n,
        forall|i: int| 0 <= i < n ==> #[trigger] normal_items(items, n)[i] == normal(items[i]),
        items_size(normal_items(items, n), n) == items_size(items, n),
        items_nodes(normal_items(items, n), n) == items_nodes(items, n),
        items_depth(normal_items(items, n), n) == items_depth(items, n),
    decreases items, n,
{
    if n > 0 {
        let m = (n - 1) as nat;
        normal_items_keep(items, m);
        normal_keeps(items[m as int]);
        let (shorter, longer) = (normal_items(items, m), normal_items(items, n));
        items_prefix(shorter, longer, m);
    }
}

proof fn items_prefix(a: Seq<Json>, b: Seq<Json>, n: nat)
    requires
        n <= a.len(),
        n <= b.len(),
        forall|i: int| 0 <= i < n ==> #[trigger] a[i] == b[i],
    ensures
        items_size(a, n) == items_size(b, n),
        items_nodes(a, n) == items_nodes(b, n),
        items_depth(a, n) == items_depth(b, n),
    decreases n,
{
    if n > 0 {
        items_prefix(a, b, (n - 1) as nat);
        assert(a[n - 1] == b[n - 1]);
    }
}

proof fn normal_members_totals(members: Seq<Member>, n: nat)
    requires
        n <= members.len(),
    ensures
        normal_members(members, n).len() == n,
        total_size(normal_members(members, n)) == total_size(members.take(n as int)),
        total_nodes(normal_members(members, n)) == total_nodes(members.take(n as int)),
        deepest(normal_members(members, n)) == deepest(members.take(n as int)),
    decreases members, n,
{
    if n > 0 {
        let m = (n - 1) as nat;
        normal_members_totals(members, m);
        normal_keeps(members[m as int].value);
        let made = normal_members(members, m);
        let member = Member {
            name: members[m as int].name,
            value: normal(members[m as int].value),
        };
        rank_in_range::<JsonMember>(made, member.name);
        totals_of_insert(made, rank::<JsonMember>(made, member.name) as int, member);
        assert(members.take(n as int).drop_last() =~= members.take(m as int));
    }
}

proof fn normal_members_keep(members: Seq<Member>, n: nat)
    requires
        n <= members.len(),
        distinct(members),
    ensures
        members_kept(members, n),
    decreases members, n,
{
    normal_members_totals(members, n);
    if n == 0 {
        assert(members.take(0) =~= Seq::<Member>::empty());
    } else {
        let m = (n - 1) as nat;
        normal_members_keep(members, m);
        let made = normal_members(members, m);
        let next = normal_members(members, n);
        let member = Member {
            name: members[m as int].name,
            value: normal(members[m as int].value),
        };
        let (x, y) = (member_names(members.take(m as int)), member_names(members.take(n as int)));
        if member_names(made).contains(member.name) {
            assert(x.contains(member.name));
            let k = choose|k: int| 0 <= k < x.len() && x[k] == member.name;
            assert(members[k].name == members[m as int].name);
        }
        placed_keeps_order::<JsonMember>(made, member);
        let at = rank::<JsonMember>(made, member.name) as int;
        rank_in_range::<JsonMember>(made, member.name);
        assert(y =~= x.push(member.name));
        assert forall|name: Seq<char>|
            #![trigger member_names(next).contains(name)]
            #![trigger y.contains(name)]
            member_names(next).contains(name) <==> y.contains(name) by {
            assert(member_names(made).contains(name) <==> x.contains(name));
            if x.contains(name) {
                let k = choose|k: int| 0 <= k < x.len() && x[k] == name;
                assert(y[k] == name);
            }
            if y.contains(name) {
                let k = choose|k: int| 0 <= k < y.len() && y[k] == name;
                if k < x.len() {
                    assert(x[k] == name);
                }
            }
            assert(y[x.len() as int] == member.name);
        }
        assert forall|i: int| 0 <= i < n implies exists|k: int|
            0 <= k < n && (#[trigger] next[i]) == (Member {
                name: members[k].name,
                value: normal(#[trigger] members[k].value),
            }) by {
            if i == at {
                assert(next[i] == member);
                assert(members[m as int].value == members[m as int].value);
            } else {
                let j = if i < at { i } else { i - 1 };
                assert(next[i] == made[j]);
                let k = choose|k: int|
                    0 <= k < m && made[j] == (Member {
                        name: members[k].name,
                        value: normal(#[trigger] members[k].value),
                    });
                assert(next[i] == (Member {
                    name: members[k].name,
                    value: normal(members[k].value),
                }));
            }
        }
        assert forall|k: int| 0 <= k < n implies next.contains(
            Member { name: (#[trigger] members[k]).name, value: normal(members[k].value) },
        ) by {
            if k == m {
                assert(next[at] == member);
            } else {
                let wanted = Member { name: members[k].name, value: normal(members[k].value) };
                assert(made.contains(wanted));
                let i = choose|i: int| 0 <= i < made.len() && made[i] == wanted;
                assert(next[if i < at { i } else { i + 1 }] == wanted);
            }
        }
    }
}

proof fn normal_fits(limits: LimitsModel, above: nat, value: Json)
    requires
        fits(limits, above, value),
    ensures
        fits(limits, above, normal(value)),
    decreases value,
{
    match value {
        Json::Array(items) => {
            normal_items_keep(items, items.len());
            let made = normal_items(items, items.len());
            assert forall|i: int| 0 <= i < made.len() implies fits(
                limits,
                above + 1,
                #[trigger] made[i],
            ) by {
                normal_fits(limits, above + 1, items[i]);
            }
        },
        Json::Object(members) => {
            let n = members.len();
            normal_members_keep(members, n);
            let made = normal_members(members, n);
            let names = member_names(made);
            crate::ordered::ascending_distinct(names);
            assert forall|i: int, j: int| 0 <= i < j < made.len() implies (#[trigger] made[i]).name
                != (#[trigger] made[j]).name by {
                assert(names[i] != names[j]);
            }
            assert forall|i: int| 0 <= i < made.len() implies encode_utf8(
                #[trigger] made[i].name,
            ).len() <= limits.max_object_key_bytes && fits(limits, above + 1, made[i].value) by {
                let k = choose|k: int|
                    0 <= k < n && made[i] == (Member {
                        name: members[k].name,
                        value: normal(#[trigger] members[k].value),
                    });
                assert(encode_utf8(members[k].name).len() <= limits.max_object_key_bytes);
                assert(fits(limits, above + 1, members[k].value));
                normal_fits(limits, above + 1, members[k].value);
            }
            assert forall|i: int| 0 <= i < made.len() implies fits(
                limits,
                above + 1,
                (#[trigger] made[i]).value,
            ) by {
                assert(encode_utf8(made[i].name).len() <= limits.max_object_key_bytes);
            }
        },
        _ => {},
    }
}

/// Putting members in order changes neither whether a document is accepted
/// nor its statistics.
pub proof fn member_order_keeps_statistics(limits: LimitsModel, value: Json)
    requires
        limits_within_maximum(limits),
        tally_document(limits, value) is Ok,
    ensures
        tally_document(limits, normal(value)) == tally_document(limits, value),
{
    accepted_exactly_within_limits(limits, value);
    accepted_exactly_within_limits(limits, normal(value));
    normal_keeps(value);
    normal_fits(limits, 0, value);
}

/// Members that are in order already.
pub open spec fn in_order(value: Json) -> bool
    decreases value,
{
    match value {
        Json::Array(items) => forall|i: int| 0 <= i < items.len() ==> in_order(#[trigger] items[i]),
        Json::Object(members) => ascending(member_names(members)) && forall|i: int|
            0 <= i < members.len() ==> in_order((#[trigger] members[i]).value),
        _ => true,
    }
}

/// The normal form of a value whose objects repeat no name is in order.
pub proof fn normal_is_in_order(limits: LimitsModel, above: nat, value: Json)
    requires
        fits(limits, above, value),
    ensures
        in_order(normal(value)),
    decreases value,
{
    match value {
        Json::Array(items) => {
            normal_items_keep(items, items.len());
            let made = normal_items(items, items.len());
            assert forall|i: int| 0 <= i < made.len() implies in_order(#[trigger] made[i]) by {
                normal_is_in_order(limits, above + 1, items[i]);
            }
        },
        Json::Object(members) => {
            let n = members.len();
            normal_members_keep(members, n);
            let made = normal_members(members, n);
            assert forall|i: int| 0 <= i < made.len() implies in_order(
                (#[trigger] made[i]).value,
            ) by {
                let k = choose|k: int|
                    0 <= k < n && made[i] == (Member {
                        name: members[k].name,
                        value: normal(#[trigger] members[k].value),
                    });
                assert(fits(limits, above + 1, members[k].value));
                normal_is_in_order(limits, above + 1, members[k].value);
            }
        },
        _ => {},
    }
}

/// A value that is in order is its own normal form.
pub proof fn in_order_is_normal(value: Json)
    requires
        in_order(value),
    ensures
        normal(value) == value,
    decreases value,
{
    match value {
        Json::Array(items) => {
            normal_items_keep(items, items.len());
            assert forall|i: int| 0 <= i < items.len() implies normal(#[trigger] items[i])
                == items[i] by {
                in_order_is_normal(items[i]);
            }
            assert(normal_items(items, items.len()) =~= items);
        },
        Json::Object(members) => {
            in_order_members(members, members.len());
            assert(members.take(members.len() as int) =~= members);
        },
        _ => {},
    }
}

proof fn in_order_members(members: Seq<Member>, n: nat)
    requires
        n <= members.len(),
        in_order(Json::Object(members)),
    ensures
        normal_members(members, n) == members.take(n as int),
    decreases members, n,
{
    if n == 0 {
        assert(members.take(0) =~= Seq::<Member>::empty());
    } else {
        let m = (n - 1) as nat;
        in_order_members(members, m);
        assert(in_order(members[m as int].value));
        in_order_is_normal(members[m as int].value);
        let made = members.take(m as int);
        let names = member_names(members);
        if m > 0 {
            assert(precedes(names[m - 1], names[m as int]));
            assert(made.last().name == names[m - 1]);
        }
        assert(rank::<JsonMember>(made, members[m as int].name) == m);
        assert(placed::<JsonMember>(made, members[m as int]) =~= members.take(n as int));
    }
}

/// Rebuilding a rebuilt document changes nothing: neither the value nor the
/// statistics.
pub proof fn rebuilding_is_idempotent(limits: LimitsModel, value: Json)
    requires
        limits_within_maximum(limits),
        tally_document(limits, value) is Ok,
    ensures
        normal(normal(value)) == normal(value),
        tally_document(limits, normal(value)) == tally_document(limits, value),
{
    accepted_exactly_within_limits(limits, value);
    normal_is_in_order(limits, 0, value);
    in_order_is_normal(normal(value));
    member_order_keeps_statistics(limits, value);
}

// ---------------------------------------------------------------------------
// Reading order
// ---------------------------------------------------------------------------

proof fn same_first_items(
    limits: LimitsModel,
    tally: Tally,
    above: nat,
    a: Seq<Json>,
    b: Seq<Json>,
    n: nat,
)
    requires
        n <= a.len(),
        n <= b.len(),
        forall|i: int| 0 <= i < n ==> a[i] == b[i],
    ensures
        tally_items(limits, tally, above, a, n) == tally_items(limits, tally, above, b, n),
    decreases n,
{
    if n > 0 {
        same_first_items(limits, tally, above, a, b, (n - 1) as nat);
        assert(a[n - 1] == b[n - 1]);
    }
}

proof fn same_first_members(
    limits: LimitsModel,
    tally: Tally,
    above: nat,
    a: Seq<Member>,
    b: Seq<Member>,
    n: nat,
)
    requires
        n <= a.len(),
        n <= b.len(),
        forall|i: int| 0 <= i < n ==> a[i] == b[i],
    ensures
        tally_members(limits, tally, above, a, n) == tally_members(limits, tally, above, b, n),
    decreases n,
{
    if n > 0 {
        let m = (n - 1) as nat;
        same_first_members(limits, tally, above, a, b, m);
        assert(a[n - 1] == b[n - 1]);
        assert(a.take(n - 1) =~= b.take(n - 1));
        if let Ok(next) = tally_members(limits, tally, above, a, m) {
            assert(tally_member(limits, next, above, a, n) == tally_member(
                limits,
                next,
                above,
                b,
                n,
            ));
        }
    }
}

/// A violation among the first items of an array, or the first members of an
/// object, is reported whatever follows them.
pub proof fn violations_ignore_what_follows(
    limits: LimitsModel,
    tally: Tally,
    above: nat,
    items: Seq<Json>,
    more: Seq<Json>,
    members: Seq<Member>,
    others: Seq<Member>,
)
    ensures
        ({
            let opened = count_container(limits, tally, above);
            &&& opened is Ok && tally_items(
                limits,
                opened->Ok_0,
                above + 1,
                items,
                items.len(),
            ) is Err ==> tally_value(limits, tally, above, Json::Array(items + more))
                == tally_value(limits, tally, above, Json::Array(items))
            &&& opened is Ok && tally_members(
                limits,
                opened->Ok_0,
                above + 1,
                members,
                members.len(),
            ) is Err ==> tally_value(limits, tally, above, Json::Object(members + others))
                == tally_value(limits, tally, above, Json::Object(members))
        }),
{
    if let Ok(opened) = count_container(limits, tally, above) {
        same_first_items(limits, opened, above + 1, items, items + more, items.len());
        tally_items_stops(
            limits,
            opened,
            above + 1,
            items + more,
            items.len(),
            (items + more).len(),
        );
        same_first_members(limits, opened, above + 1, members, members + others, members.len());
        tally_members_stops(
            limits,
            opened,
            above + 1,
            members + others,
            members.len(),
            (members + others).len(),
        );
    }
}

/// A repeated name, a name or an item too many is rejected before its value is
/// looked at: with any other value it would be rejected the same.
pub proof fn entries_rejected_before_their_values(
    limits: LimitsModel,
    tally: Tally,
    above: nat,
    items: Seq<Json>,
    members: Seq<Member>,
    name: Seq<char>,
    value: Json,
    other: Json,
)
    ensures
        items.len() >= limits.max_container_entries ==> tally_items(
            limits,
            tally,
            above,
            items.push(value),
            items.len() + 1,
        ) == tally_items(limits, tally, above, items.push(other), items.len() + 1),
        members.len() >= limits.max_container_entries || member_names(members).contains(name)
            ==> tally_members(
            limits,
            tally,
            above,
            members.push(Member { name, value }),
            members.len() + 1,
        ) == tally_members(
            limits,
            tally,
            above,
            members.push(Member { name, value: other }),
            members.len() + 1,
        ),
{
    let (a, b) = (items.push(value), items.push(other));
    same_first_items(limits, tally, above, a, b, items.len());
    let (x, y) = (members.push(Member { name, value }), members.push(Member { name, value: other }));
    same_first_members(limits, tally, above, x, y, members.len());
    assert(x.take(members.len() as int) =~= members);
    assert(y.take(members.len() as int) =~= members);
    if members.len() >= limits.max_container_entries || member_names(members).contains(name) {
        if let Ok(next) = tally_members(limits, tally, above, x, members.len()) {
            let n = members.len() + 1;
            assert(x[members.len() as int].name == name && y[members.len() as int].name == name);
            assert(tally_member(limits, next, above, x, n) == tally_member(
                limits,
                next,
                above,
                y,
                n,
            ));
        }
    }
}

} // verus!
