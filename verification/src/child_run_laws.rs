//! What holds of every delegation policy.

use vstd::prelude::*;
use vstd::utf8::encode_utf8;

use crate::child_run_policy::{
    collected_declarations, declaration_failure, declarations_failure, delegation_depth, slot_key,
    slots_of, target_check, ChildRunDeclaration, DeclarationModel,
};
use crate::graph::GraphModel;
use crate::names::plain_name_check;
use crate::ordered::{
    arrangement_ignores_order, find, find_is_exact, keys, rearranged, rearrangement_keeps, total,
    total_ignores_order,
};
use crate::text::{
    admits, ascii_bytes_are_ascii_text, ascii_utf8, bytes_precede, first_outside_is_first,
    is_alphanumeric, precedes, utf8_concat, utf8_injective, utf8_single, ByteClass,
};

verus! {

/// A valid name holds no zero character.
proof fn names_hold_no_zero(name: Seq<char>)
    requires
        plain_name_check(encode_utf8(name)) is Ok,
    ensures
        !name.contains('\0'),
{
    let bytes = encode_utf8(name);
    first_outside_is_first(bytes, 1, ByteClass::Name);
    assert forall|i: int| 0 <= i < bytes.len() implies 0 < #[trigger] bytes[i] < 128 by {
        if i >= 1 {
            assert(admits(ByteClass::Name, bytes[i]));
        } else {
            assert(is_alphanumeric(bytes[0]));
        }
    }
    ascii_bytes_are_ascii_text(name);
    assert forall|i: int| 0 <= i < name.len() implies name[i] != '\0' by {
        assert(bytes[i] == name[i] as u8);
    }
}

/// Two slots of two nodes have one key only if they are one slot of one node.
pub proof fn slot_keys_are_distinct(
    node: Seq<char>,
    slot: Seq<char>,
    other_node: Seq<char>,
    other_slot: Seq<char>,
)
    requires
        plain_name_check(encode_utf8(node)) is Ok,
        plain_name_check(encode_utf8(other_node)) is Ok,
        slot_key(node, slot) == slot_key(other_node, other_slot),
    ensures
        node == other_node,
        slot == other_slot,
{
    names_hold_no_zero(node);
    names_hold_no_zero(other_node);
    let (a, b) = (slot_key(node, slot), slot_key(other_node, other_slot));
    if node.len() < other_node.len() {
        assert(a[node.len() as int] == '\0');
        assert(b[node.len() as int] == other_node[node.len() as int]);
        assert(other_node.contains('\0'));
    }
    if other_node.len() < node.len() {
        assert(b[other_node.len() as int] == '\0');
        assert(a[other_node.len() as int] == node[other_node.len() as int]);
        assert(node.contains('\0'));
    }
    assert forall|i: int| 0 <= i < node.len() implies node[i] == other_node[i] by {
        assert(a[i] == node[i] && b[i] == other_node[i]);
    }
    assert(node =~= other_node);
    assert(a.len() == node.len() + 1 + slot.len());
    assert(b.len() == other_node.len() + 1 + other_slot.len());
    assert(slot.len() == other_slot.len());
    assert forall|i: int| 0 <= i < slot.len() implies slot[i] == other_slot[i] by {
        let k = node.len() + 1 + i;
        assert(a[k] == slot[i] && b[k] == other_slot[i]);
    }
    assert(slot =~= other_slot);
}

/// A declaration is found exactly if the policy declares that slot of that
/// node.
pub proof fn declaration_found_exactly(
    declarations: Seq<DeclarationModel>,
    node: Seq<char>,
    slot: Seq<char>,
)
    requires
        plain_name_check(encode_utf8(node)) is Ok,
        forall|i: int|
            0 <= i < declarations.len() ==> plain_name_check(
                encode_utf8((#[trigger] declarations[i]).node_id),
            ) is Ok,
    ensures
        find::<ChildRunDeclaration>(declarations, slot_key(node, slot)) is Some <==> exists|i: int|
            0 <= i < declarations.len() && (#[trigger] declarations[i]).node_id == node
                && declarations[i].slot == slot,
        find::<ChildRunDeclaration>(declarations, slot_key(node, slot)) matches Some(d)
            ==> d.node_id == node && d.slot == slot,
{
    let key = slot_key(node, slot);
    let names = keys::<ChildRunDeclaration>(declarations);
    find_is_exact::<ChildRunDeclaration>(declarations, key);
    if let Some(d) = find::<ChildRunDeclaration>(declarations, key) {
        let k = declarations.index_of(d);
        assert(declarations[k] == d);
        slot_keys_are_distinct(d.node_id, d.slot, node, slot);
    }
    if exists|i: int|
        0 <= i < declarations.len() && (#[trigger] declarations[i]).node_id == node
            && declarations[i].slot == slot {
        let i = choose|i: int|
            0 <= i < declarations.len() && (#[trigger] declarations[i]).node_id == node
                && declarations[i].slot == slot;
        assert(names[i] == key);
    }
}

/// The bytes of a valid name are positive.
proof fn name_bytes_are_positive(name: Seq<char>)
    requires
        plain_name_check(encode_utf8(name)) is Ok,
    ensures
        forall|i: int| 0 <= i < encode_utf8(name).len() ==> 0 < #[trigger] encode_utf8(name)[i],
{
    let bytes = encode_utf8(name);
    first_outside_is_first(bytes, 1, ByteClass::Name);
    assert forall|i: int| 0 <= i < bytes.len() implies 0 < #[trigger] bytes[i] by {
        if i >= 1 {
            assert(admits(ByteClass::Name, bytes[i]));
        } else {
            assert(is_alphanumeric(bytes[0]));
        }
    }
}

proof fn joined_bytes_order(a: Seq<u8>, s: Seq<u8>, b: Seq<u8>, t: Seq<u8>)
    requires
        forall|i: int| 0 <= i < a.len() ==> 0 < #[trigger] a[i],
        forall|i: int| 0 <= i < b.len() ==> 0 < #[trigger] b[i],
    ensures
        bytes_precede(a.push(0) + s, b.push(0) + t) <==> bytes_precede(a, b) || (a == b
            && bytes_precede(s, t)),
    decreases a.len(),
{
    let (x, y) = (a.push(0) + s, b.push(0) + t);
    if a.len() == 0 && b.len() == 0 {
        assert(a =~= b);
        assert(x.drop_first() =~= s);
        assert(y.drop_first() =~= t);
    } else if a.len() == 0 {
        assert(x[0] == 0 && y[0] == b[0]);
    } else if b.len() == 0 {
        assert(x[0] == a[0] && y[0] == 0);
    } else {
        assert(x[0] == a[0] && y[0] == b[0]);
        let (c, d) = (a.drop_first(), b.drop_first());
        assert(x.drop_first() =~= c.push(0) + s);
        assert(y.drop_first() =~= d.push(0) + t);
        assert forall|i: int| 0 <= i < c.len() implies 0 < #[trigger] c[i] by {
            assert(c[i] == a[i + 1]);
        }
        assert forall|i: int| 0 <= i < d.len() implies 0 < #[trigger] d[i] by {
            assert(d[i] == b[i + 1]);
        }
        joined_bytes_order(c, s, d, t);
        if a[0] == b[0] {
            if c == d {
                assert forall|i: int| 0 <= i < a.len() implies a[i] == b[i] by {
                    if i > 0 {
                        assert(a[i] == c[i - 1] && b[i] == d[i - 1]);
                    }
                }
                assert(a =~= b);
            }
            assert(a == b ==> c == d);
        }
    }
}

proof fn slot_key_bytes(node: Seq<char>, slot: Seq<char>)
    ensures
        encode_utf8(slot_key(node, slot)) == encode_utf8(node).push(0) + encode_utf8(slot),
{
    utf8_concat(node.push('\0'), slot);
    utf8_concat(node, seq!['\0']);
    utf8_single('\0');
    assert(node.push('\0') =~= node + seq!['\0']);
    ascii_utf8(seq!['\0']);
    assert(encode_utf8(seq!['\0']) =~= seq![0u8]);
    assert(encode_utf8(node) + seq![0u8] =~= encode_utf8(node).push(0));
}

/// Declarations come in the order of their nodes, and those of one node in the
/// order of their slots.
pub proof fn slot_keys_order_by_node_then_slot(
    node: Seq<char>,
    slot: Seq<char>,
    other_node: Seq<char>,
    other_slot: Seq<char>,
)
    requires
        plain_name_check(encode_utf8(node)) is Ok,
        plain_name_check(encode_utf8(other_node)) is Ok,
    ensures
        precedes(slot_key(node, slot), slot_key(other_node, other_slot)) <==> precedes(
            node,
            other_node,
        ) || (node == other_node && precedes(slot, other_slot)),
{
    name_bytes_are_positive(node);
    name_bytes_are_positive(other_node);
    slot_key_bytes(node, slot);
    slot_key_bytes(other_node, other_slot);
    joined_bytes_order(
        encode_utf8(node),
        encode_utf8(slot),
        encode_utf8(other_node),
        encode_utf8(other_slot),
    );
    if encode_utf8(node) == encode_utf8(other_node) {
        utf8_injective(node, other_node);
    }
}

/// Whether a declaration belongs to a node, as a number.
spec fn belongs(node: Seq<char>) -> spec_fn(DeclarationModel) -> int {
    |d: DeclarationModel|
        if d.node_id == node {
            1int
        } else {
            0int
        }
}

proof fn slots_are_a_total(declarations: Seq<DeclarationModel>, node: Seq<char>)
    ensures
        slots_of(declarations, node) == total(declarations, belongs(node)),
    decreases declarations.len(),
{
    if declarations.len() > 0 {
        slots_are_a_total(declarations.drop_last(), node);
    }
}

proof fn slots_grow(declarations: Seq<DeclarationModel>, node: Seq<char>, k: int, m: int)
    requires
        0 <= k <= m <= declarations.len(),
    ensures
        slots_of(declarations.take(k), node) <= slots_of(declarations.take(m), node),
    decreases m - k,
{
    if k < m {
        slots_grow(declarations, node, k, m - 1);
        assert(declarations.take(m).drop_last() =~= declarations.take(m - 1));
    }
}

proof fn no_declaration_fails(declarations: Seq<DeclarationModel>, from: int)
    requires
        0 <= from,
        declarations_failure(declarations, from) is None,
    ensures
        forall|i: int|
            from <= i < declarations.len() ==> #[trigger] declaration_failure(
                declarations.take(i),
                declarations[i],
            ) is None,
    decreases declarations.len() - from,
{
    if from < declarations.len() {
        no_declaration_fails(declarations, from + 1);
    }
}

proof fn declarations_do_not_fail(declarations: Seq<DeclarationModel>, from: int)
    requires
        0 <= from,
        forall|i: int|
            from <= i < declarations.len() ==> #[trigger] declaration_failure(
                declarations.take(i),
                declarations[i],
            ) is None,
    ensures
        declarations_failure(declarations, from) is None,
    decreases declarations.len() - from,
{
    if from < declarations.len() {
        assert(declaration_failure(declarations.take(from), declarations[from]) is None);
        declarations_do_not_fail(declarations, from + 1);
    }
}

proof fn slots_stay_bounded(declarations: Seq<DeclarationModel>, node: Seq<char>, k: int)
    requires
        0 <= k <= declarations.len(),
        forall|i: int|
            0 <= i < declarations.len() ==> #[trigger] declaration_failure(
                declarations.take(i),
                declarations[i],
            ) is None,
    ensures
        slots_of(declarations.take(k), node) <= 64,
    decreases k,
{
    if k > 0 {
        slots_stay_bounded(declarations, node, k - 1);
        assert(declarations.take(k).drop_last() =~= declarations.take(k - 1));
        assert(declarations.take(k).last() == declarations[k - 1]);
        assert(declaration_failure(declarations.take(k - 1), declarations[k - 1]) is None);
    }
}

/// Declarations make a policy exactly if there are some and not too many, no
/// slot of a node repeats, and no node has too many slots.
pub proof fn declarations_accepted_exactly(declarations: Seq<DeclarationModel>)
    ensures
        collected_declarations(declarations) is Ok <==> {
            &&& 0 < declarations.len() <= 256
            &&& keys::<ChildRunDeclaration>(declarations).no_duplicates()
            &&& forall|i: int|
                0 <= i < declarations.len() ==> slots_of(
                    declarations,
                    (#[trigger] declarations[i]).node_id,
                ) <= 64
        },
{
    let all = keys::<ChildRunDeclaration>(declarations);
    assert(declarations.take(declarations.len() as int) =~= declarations);
    if declarations_failure(declarations, 0) is None {
        no_declaration_fails(declarations, 0);
        assert forall|i: int, j: int|
            0 <= i < all.len() && 0 <= j < all.len() && i != j implies all[i] != all[j] by {
            let (a, b) = if i < j {
                (i, j)
            } else {
                (j, i)
            };
            assert(declaration_failure(declarations.take(b), declarations[b]) is None);
            let before = keys::<ChildRunDeclaration>(declarations.take(b));
            assert(before[a] == all[a]);
        }
        assert forall|i: int| 0 <= i < declarations.len() implies slots_of(
            declarations,
            (#[trigger] declarations[i]).node_id,
        ) <= 64 by {
            slots_stay_bounded(declarations, declarations[i].node_id, declarations.len() as int);
        }
        if declarations.len() > 0 {
            let last = declarations.len() - 1;
            assert(declaration_failure(declarations.take(last), declarations[last]) is None);
        }
    }
    if 0 < declarations.len() <= 256 && all.no_duplicates() && (forall|i: int|
        0 <= i < declarations.len() ==> slots_of(declarations, (#[trigger] declarations[i]).node_id)
            <= 64) {
        assert forall|i: int| 0 <= i < declarations.len() implies #[trigger] declaration_failure(
            declarations.take(i),
            declarations[i],
        ) is None by {
            let node = declarations[i].node_id;
            slots_grow(declarations, node, i + 1, declarations.len() as int);
            assert(declarations.take(i + 1).drop_last() =~= declarations.take(i));
            assert(declarations.take(i + 1).last() == declarations[i]);
            let before = keys::<ChildRunDeclaration>(declarations.take(i));
            assert forall|k: int| 0 <= k < before.len() implies before[k] != all[i] by {
                assert(before[k] == all[k]);
            }
            assert(all[i] == slot_key(declarations[i].node_id, declarations[i].slot));
        }
        declarations_do_not_fail(declarations, 0);
    }
}

/// The order in which declarations are given does not matter: declarations that
/// make a policy make the same policy in every order.
pub proof fn policy_ignores_declaration_order(a: Seq<DeclarationModel>, b: Seq<DeclarationModel>)
    requires
        rearranged(a, b),
        collected_declarations(a) is Ok,
    ensures
        collected_declarations(b) == collected_declarations(a),
{
    declarations_accepted_exactly(a);
    declarations_accepted_exactly(b);
    rearrangement_keeps::<ChildRunDeclaration>(a, b);
    assert forall|i: int| 0 <= i < b.len() implies slots_of(b, (#[trigger] b[i]).node_id)
        <= 64 by {
        let node = b[i].node_id;
        slots_are_a_total(a, node);
        slots_are_a_total(b, node);
        total_ignores_order(a, b, belongs(node));
        assert(b.contains(b[i]));
        assert(a.contains(b[i]));
        let k = a.index_of(b[i]);
        assert(a[k].node_id == node);
    }
    arrangement_ignores_order::<ChildRunDeclaration>(a, b);
}

/// Each graph of the chain accepts the next as a target that it declares.
pub open spec fn delegates_in_turn(chain: Seq<GraphModel>) -> bool {
    forall|i: int|
        #![trigger chain[i]]
        0 <= i < chain.len() - 1 ==> exists|declared: DeclarationModel|
            chain[i].child_runs is Some && #[trigger] target_check(
                declared,
                chain[i + 1],
                chain[i].child_runs->Some_0.limits,
            ) is Ok
}

/// Delegation ends: a chain of graphs, each of which delegates to the next, is no
/// longer than the depth that the first declares.
pub proof fn delegation_ends(chain: Seq<GraphModel>)
    requires
        chain.len() > 0,
        delegates_in_turn(chain),
    ensures
        chain.len() <= delegation_depth(chain[0]) + 1,
    decreases chain.len(),
{
    if chain.len() > 1 {
        let rest = chain.drop_first();
        assert(chain[0].child_runs is Some);
        let declared = choose|declared: DeclarationModel|
            chain[0].child_runs is Some && #[trigger] target_check(
                declared,
                chain[1],
                chain[0].child_runs->Some_0.limits,
            ) is Ok;
        assert(delegation_depth(chain[1]) < delegation_depth(chain[0]));
        assert forall|i: int| 0 <= i < rest.len() - 1 implies exists|declared: DeclarationModel|
            (#[trigger] rest[i]).child_runs is Some && #[trigger] target_check(
                declared,
                rest[i + 1],
                rest[i].child_runs->Some_0.limits,
            ) is Ok by {
            assert(rest[i] == chain[i + 1]);
            assert(rest[i + 1] == chain[i + 2]);
            let declared = choose|declared: DeclarationModel|
                chain[i + 1].child_runs is Some && #[trigger] target_check(
                    declared,
                    chain[i + 1 + 1],
                    chain[i + 1].child_runs->Some_0.limits,
                ) is Ok;
            assert(target_check(declared, rest[i + 1], rest[i].child_runs->Some_0.limits) is Ok);
        }
        delegation_ends(rest);
    }
}

} // verus!
