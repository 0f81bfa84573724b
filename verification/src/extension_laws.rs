//! What holds of every map of extensions.

use vstd::prelude::*;
use vstd::utf8::encode_utf8;

use crate::extension::{
    assembled, entries_size, extension_limits_check, insertion_size, EntryModel, ExtensionEntry,
    ExtensionLimitsModel, ExtensionsError,
};
use crate::json::tally_document;
use crate::ordered::{
    arranged, arranged_is_sorted, arranged_of_ascending, arrangement_ignores_order, ascending, keys,
    rank, rank_in_range, rearranged, rearrangement_keeps,
};

verus! {

/// The key and the value of an entry are within their bounds.
pub open spec fn entry_fits(entry: EntryModel, limits: ExtensionLimitsModel) -> bool {
    &&& encode_utf8(entry.key).len() <= limits.max_key_bytes
    &&& tally_document(limits.value_json_limits, entry.value.value) is Ok
}

/// No key repeats, and everything is within the bounds.
pub open spec fn entries_fit(entries: Seq<EntryModel>, limits: ExtensionLimitsModel) -> bool {
    &&& keys::<ExtensionEntry>(entries).no_duplicates()
    &&& entries.len() <= limits.max_entries
    &&& 2 + entries_size(entries) <= limits.max_total_bytes
    &&& forall|i: int| 0 <= i < entries.len() ==> entry_fits(#[trigger] entries[i], limits)
}

/// Entries take as many bytes in order as they take as given.
proof fn arranged_size(entries: Seq<EntryModel>)
    ensures
        entries_size(arranged::<ExtensionEntry>(entries)) == entries_size(entries),
        arranged::<ExtensionEntry>(entries).len() == entries.len(),
    decreases entries.len(),
{
    if entries.len() > 0 {
        let front = entries.drop_last();
        arranged_size(front);
        let before = arranged::<ExtensionEntry>(front);
        let key = entries.last().key;
        rank_in_range::<ExtensionEntry>(before, key);
        insertion_size(before, entries.last(), rank::<ExtensionEntry>(before, key) as int);
    }
}

/// Entries are collected exactly if no key repeats and everything is within the
/// bounds, and the map then holds them in the order of their keys.
pub proof fn entries_accepted_exactly(entries: Seq<EntryModel>, limits: ExtensionLimitsModel)
    requires
        extension_limits_check(limits) is Ok,
    ensures
        assembled(entries, limits) is Ok <==> entries_fit(entries, limits),
        assembled(entries, limits) is Ok ==> assembled(entries, limits)->Ok_0 == arranged::<
            ExtensionEntry,
        >(entries),
    decreases entries.len(),
{
    let names = keys::<ExtensionEntry>(entries);
    if entries.len() > 0 {
        let front = entries.drop_last();
        let last = entries.last();
        let before = keys::<ExtensionEntry>(front);
        entries_accepted_exactly(front, limits);
        arranged_size(front);
        assert(names =~= before.push(last.key));
        if before.no_duplicates() {
            arranged_is_sorted::<ExtensionEntry>(front);
        }
        if entries_fit(entries, limits) {
            assert forall|i: int, j: int|
                0 <= i < before.len() && 0 <= j < before.len() && i != j implies before[i]
                != before[j] by {
                assert(names[i] != names[j]);
            }
            assert forall|i: int| 0 <= i < front.len() implies entry_fits(
                #[trigger] front[i],
                limits,
            ) by {
                assert(entry_fits(entries[i], limits));
            }
            assert(entry_fits(entries[entries.len() - 1], limits));
            if before.contains(last.key) {
                let k = before.index_of(last.key);
                assert(names[k] == names[names.len() - 1]);
            }
        }
        if assembled(entries, limits) is Ok {
            assert forall|i: int, j: int|
                0 <= i < names.len() && 0 <= j < names.len() && i != j implies names[i]
                != names[j] by {
                if i < before.len() && j < before.len() {
                    assert(before[i] != before[j]);
                } else if i < before.len() {
                    assert(before.contains(before[i]));
                } else {
                    assert(before.contains(before[j]));
                }
            }
            assert forall|i: int| 0 <= i < entries.len() implies entry_fits(
                #[trigger] entries[i],
                limits,
            ) by {
                if i < front.len() {
                    assert(entry_fits(front[i], limits));
                }
            }
        }
    }
}

/// The order in which entries are given does not matter: entries that make a
/// map make the same map in every order.
pub proof fn assembly_ignores_entry_order(
    a: Seq<EntryModel>,
    b: Seq<EntryModel>,
    limits: ExtensionLimitsModel,
)
    requires
        extension_limits_check(limits) is Ok,
        rearranged(a, b),
        assembled(a, limits) is Ok,
    ensures
        assembled(b, limits) == assembled(a, limits),
{
    entries_accepted_exactly(a, limits);
    entries_accepted_exactly(b, limits);
    rearrangement_keeps::<ExtensionEntry>(a, b);
    arrangement_ignores_order::<ExtensionEntry>(a, b);
    arranged_size(a);
    arranged_size(b);
    assert forall|i: int| 0 <= i < b.len() implies entry_fits(#[trigger] b[i], limits) by {
        assert(b.contains(b[i]));
        assert(a.contains(b[i]));
        let k = a.index_of(b[i]);
        assert(entry_fits(a[k], limits));
    }
}

/// Collecting the entries of a map again under limits that they satisfy leaves
/// the map as it is.
pub proof fn restriction_keeps_what_fits(entries: Seq<EntryModel>, limits: ExtensionLimitsModel)
    requires
        extension_limits_check(limits) is Ok,
        ascending(keys::<ExtensionEntry>(entries)),
        entries_fit(entries, limits),
    ensures
        assembled(entries, limits) == Ok::<Seq<EntryModel>, ExtensionsError>(entries),
{
    entries_accepted_exactly(entries, limits);
    arranged_of_ascending::<ExtensionEntry>(entries);
}

} // verus!
