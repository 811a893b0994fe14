use vstd::prelude::*;

use crate::data::StateData;
use crate::extensions::{
    instance_plugins, is_first_manifest, lemma_first_manifest_unique, manifest_id_is,
    manifest_info_of, manifest_lookup, LoadedExtension,
};
use crate::state::{outcome_of, UpdateOutcome};

verus! {

/// A payload equal to the current data is never handed to the persistor:
/// the outcome is not `Save`, whether a persistor exists or not.
pub proof fn lemma_equal_payload_not_saved(has_persistor: bool, cur: StateData, new_data: StateData)
    requires
        new_data.same_as(&cur),
    ensures
        outcome_of(has_persistor, cur, new_data) != UpdateOutcome::Save,
{
}

/// With a persistor, a payload that differs from the current data is saved
/// once (the outcome is `Save`) and becomes the current data.
pub proof fn lemma_changed_payload_saved_then_committed(cur: StateData, new_data: StateData)
    requires
        !new_data.same_as(&cur),
    ensures
        outcome_of(true, cur, new_data) == UpdateOutcome::Save,
        (if outcome_of(true, cur, new_data) == UpdateOutcome::Save {
            new_data
        } else {
            cur
        }) == new_data,
{
}

/// Without a persistor every payload is discarded and the data stays as it was.
pub proof fn lemma_no_persistor_discards(cur: StateData, new_data: StateData)
    ensures
        outcome_of(false, cur, new_data) == UpdateOutcome::NoPersistor,
        (if outcome_of(false, cur, new_data) == UpdateOutcome::Save {
            new_data
        } else {
            cur
        }) == cur,
{
}

/// When two manifest-bearing entries share an id, lookup by that id answers
/// with the manifest info of the one registered first.
pub proof fn lemma_lookup_prefers_first(s: Seq<LoadedExtension>, id: Seq<char>, i: int, j: int)
    requires
        0 <= i < j < s.len(),
        manifest_id_is(s[i], id),
        manifest_id_is(s[j], id),
        forall|k: int| 0 <= k < i ==> !manifest_id_is(s[k], id),
    ensures
        manifest_lookup(s, id) == Ok::<_, crate::extensions::Errors>(manifest_info_of(s[i])->Some_0),
{
    assert(is_first_manifest(s, id, i));
    let k = choose|k: int| is_first_manifest(s, id, k);
    lemma_first_manifest_unique(s, id, i, k);
}

/// A broadcast reaches every running instance: the plugin of each one is
/// among the targets, each getting its own delivery.
pub proof fn lemma_broadcast_reaches_every_instance(s: Seq<LoadedExtension>, i: int)
    requires
        0 <= i < s.len(),
        s[i] is ExtensionInstance,
    ensures
        instance_plugins(s, None).contains(s[i]->ExtensionInstance_plugin),
    decreases s.len(),
{
    let rest = instance_plugins(s.drop_last(), None);
    if i == s.len() - 1 {
        assert(instance_plugins(s, None) == rest.push(s[i]->ExtensionInstance_plugin));
        assert(instance_plugins(s, None)[rest.len() as int] == s[i]->ExtensionInstance_plugin);
    } else {
        lemma_broadcast_reaches_every_instance(s.drop_last(), i);
        let k = choose|k: int| 0 <= k < rest.len() && rest[k] == s[i]->ExtensionInstance_plugin;
        match s.last() {
            LoadedExtension::ExtensionInstance { .. } => {
                assert(instance_plugins(s, None)[k] == rest[k]);
            },
            _ => {},
        }
    }
}

} // verus!
