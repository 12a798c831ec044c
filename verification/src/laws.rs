//! Document-level laws of classification, merging and removal, proved
//! once and for all inputs.

use crate::classify::{add_list, skip_list, update_list};
use crate::merge::{
    apply_updates, lemma_apply_updates_keys, lemma_apply_updates_replaces, resolve_active,
};
use crate::model::{KubeConfig, NamedCluster, NamedContext, NamedUser};
use crate::remove::{
    active_after_remove, clusters_after_remove, contexts_after_remove, references_cluster,
    references_user, removed_count, users_after_remove,
};
use crate::named::{
    drop_key, first_key_index, has_key, lemma_drop_key_all, lemma_drop_key_unique,
    lemma_filter_all, lemma_filter_none, lemma_first_key_index, unique_keys, Named,
};
use vstd::prelude::*;

verus! {

/// Classifying a batch kind with no name collisions puts every entity in
/// the add list, nothing elsewhere, and merging appends the batch whole.
pub proof fn lemma_classify_kind_all_new<T: Named>(dest: Seq<T>, inc: Seq<T>)
    requires
        forall|i: int| 0 <= i < inc.len() ==> !has_key(dest, #[trigger] inc[i].key()),
    ensures
        add_list(dest, inc) == inc,
        update_list(dest, inc, false) == Seq::<T>::empty(),
        skip_list(dest, inc, false) == Seq::<Seq<char>>::empty(),
        apply_updates(dest + add_list(dest, inc), update_list(dest, inc, false)) == dest + inc,
{
    lemma_filter_all(inc, |t: T| !has_key(dest, t.key()));
    lemma_filter_none(inc, |t: T| has_key(dest, t.key()));
    assert(Seq::<T>::empty().map_values(|t: T| t.key()) =~= Seq::<Seq<char>>::empty());
}

/// Classifying a batch kind that collides throughout, without update
/// mode, adds and updates nothing, records every name as skipped, and
/// merging leaves the destination collection as it was.
pub proof fn lemma_classify_kind_all_collide<T: Named>(dest: Seq<T>, inc: Seq<T>)
    requires
        forall|i: int| 0 <= i < inc.len() ==> has_key(dest, #[trigger] inc[i].key()),
    ensures
        add_list(dest, inc) == Seq::<T>::empty(),
        update_list(dest, inc, false) == Seq::<T>::empty(),
        skip_list(dest, inc, false) == inc.map_values(|t: T| t.key()),
        update_list(dest, inc, true) == inc,
        skip_list(dest, inc, true) == Seq::<Seq<char>>::empty(),
        apply_updates(dest + add_list(dest, inc), update_list(dest, inc, false)) == dest,
{
    lemma_filter_none(inc, |t: T| !has_key(dest, t.key()));
    lemma_filter_all(inc, |t: T| has_key(dest, t.key()));
    assert(dest + Seq::<T>::empty() =~= dest);
}

/// Law: a batch with no name collisions against the destination is added
/// whole: every incoming entity lands in an add list, the update and
/// skip lists stay empty, and merging grows each destination collection
/// by exactly the batch's size, appending the batch in order.
pub proof fn law_merge_all_new(dest: KubeConfig, source: KubeConfig)
    requires
        forall|i: int| 0 <= i < source.clusters@.len() ==> !has_key(
            dest.clusters@,
            #[trigger] source.clusters@[i].key(),
        ),
        forall|i: int| 0 <= i < source.contexts@.len() ==> !has_key(
            dest.contexts@,
            #[trigger] source.contexts@[i].key(),
        ),
        forall|i: int| 0 <= i < source.users@.len() ==> !has_key(
            dest.users@,
            #[trigger] source.users@[i].key(),
        ),
    ensures
        add_list(dest.clusters@, source.clusters@) == source.clusters@,
        add_list(dest.contexts@, source.contexts@) == source.contexts@,
        add_list(dest.users@, source.users@) == source.users@,
        update_list(dest.clusters@, source.clusters@, false) == Seq::<NamedCluster>::empty(),
        update_list(dest.contexts@, source.contexts@, false) == Seq::<NamedContext>::empty(),
        update_list(dest.users@, source.users@, false) == Seq::<NamedUser>::empty(),
        skip_list(dest.clusters@, source.clusters@, false) == Seq::<Seq<char>>::empty(),
        skip_list(dest.contexts@, source.contexts@, false) == Seq::<Seq<char>>::empty(),
        skip_list(dest.users@, source.users@, false) == Seq::<Seq<char>>::empty(),
        apply_updates(
            dest.clusters@ + add_list(dest.clusters@, source.clusters@),
            update_list(dest.clusters@, source.clusters@, false),
        ) == dest.clusters@ + source.clusters@,
        apply_updates(
            dest.contexts@ + add_list(dest.contexts@, source.contexts@),
            update_list(dest.contexts@, source.contexts@, false),
        ) == dest.contexts@ + source.contexts@,
        apply_updates(
            dest.users@ + add_list(dest.users@, source.users@),
            update_list(dest.users@, source.users@, false),
        ) == dest.users@ + source.users@,
{
    lemma_classify_kind_all_new(dest.clusters@, source.clusters@);
    lemma_classify_kind_all_new(dest.contexts@, source.contexts@);
    lemma_classify_kind_all_new(dest.users@, source.users@);
}

/// Law: a batch that collides throughout, merged without update mode,
/// changes nothing in the destination's content: the add and update
/// lists are empty and every incoming name is recorded as skipped.
pub proof fn law_merge_all_duplicates_skips(dest: KubeConfig, source: KubeConfig)
    requires
        forall|i: int| 0 <= i < source.clusters@.len() ==> has_key(
            dest.clusters@,
            #[trigger] source.clusters@[i].key(),
        ),
        forall|i: int| 0 <= i < source.contexts@.len() ==> has_key(
            dest.contexts@,
            #[trigger] source.contexts@[i].key(),
        ),
        forall|i: int| 0 <= i < source.users@.len() ==> has_key(
            dest.users@,
            #[trigger] source.users@[i].key(),
        ),
    ensures
        add_list(dest.clusters@, source.clusters@) == Seq::<NamedCluster>::empty(),
        add_list(dest.contexts@, source.contexts@) == Seq::<NamedContext>::empty(),
        add_list(dest.users@, source.users@) == Seq::<NamedUser>::empty(),
        update_list(dest.clusters@, source.clusters@, false) == Seq::<NamedCluster>::empty(),
        update_list(dest.contexts@, source.contexts@, false) == Seq::<NamedContext>::empty(),
        update_list(dest.users@, source.users@, false) == Seq::<NamedUser>::empty(),
        skip_list(dest.clusters@, source.clusters@, false) == source.clusters@.map_values(
            |t: NamedCluster| t.key(),
        ),
        skip_list(dest.contexts@, source.contexts@, false) == source.contexts@.map_values(
            |t: NamedContext| t.key(),
        ),
        skip_list(dest.users@, source.users@, false) == source.users@.map_values(
            |t: NamedUser| t.key(),
        ),
        apply_updates(
            dest.clusters@ + add_list(dest.clusters@, source.clusters@),
            update_list(dest.clusters@, source.clusters@, false),
        ) == dest.clusters@,
        apply_updates(
            dest.contexts@ + add_list(dest.contexts@, source.contexts@),
            update_list(dest.contexts@, source.contexts@, false),
        ) == dest.contexts@,
        apply_updates(
            dest.users@ + add_list(dest.users@, source.users@),
            update_list(dest.users@, source.users@, false),
        ) == dest.users@,
{
    lemma_classify_kind_all_collide(dest.clusters@, source.clusters@);
    lemma_classify_kind_all_collide(dest.contexts@, source.contexts@);
    lemma_classify_kind_all_collide(dest.users@, source.users@);
}

/// Law: a batch that collides throughout, merged in update mode, goes
/// whole into the update lists, skips nothing, and merging replaces
/// payloads in place: each collection keeps its length and the name at
/// every position, and each incoming entity lands whole at the position
/// of the equally named destination entity (names unique in every
/// collection, as the document invariant guarantees).
pub proof fn law_update_mode_replaces_in_place(dest: KubeConfig, source: KubeConfig)
    requires
        unique_keys(dest.clusters@),
        unique_keys(dest.contexts@),
        unique_keys(dest.users@),
        unique_keys(source.clusters@),
        unique_keys(source.contexts@),
        unique_keys(source.users@),
        forall|i: int| 0 <= i < source.clusters@.len() ==> has_key(
            dest.clusters@,
            #[trigger] source.clusters@[i].key(),
        ),
        forall|i: int| 0 <= i < source.contexts@.len() ==> has_key(
            dest.contexts@,
            #[trigger] source.contexts@[i].key(),
        ),
        forall|i: int| 0 <= i < source.users@.len() ==> has_key(
            dest.users@,
            #[trigger] source.users@[i].key(),
        ),
    ensures
        update_list(dest.clusters@, source.clusters@, true) == source.clusters@,
        update_list(dest.contexts@, source.contexts@, true) == source.contexts@,
        update_list(dest.users@, source.users@, true) == source.users@,
        add_list(dest.clusters@, source.clusters@) == Seq::<NamedCluster>::empty(),
        add_list(dest.contexts@, source.contexts@) == Seq::<NamedContext>::empty(),
        add_list(dest.users@, source.users@) == Seq::<NamedUser>::empty(),
        skip_list(dest.clusters@, source.clusters@, true) == Seq::<Seq<char>>::empty(),
        skip_list(dest.contexts@, source.contexts@, true) == Seq::<Seq<char>>::empty(),
        skip_list(dest.users@, source.users@, true) == Seq::<Seq<char>>::empty(),
        apply_updates(dest.clusters@, source.clusters@).len() == dest.clusters@.len(),
        apply_updates(dest.contexts@, source.contexts@).len() == dest.contexts@.len(),
        apply_updates(dest.users@, source.users@).len() == dest.users@.len(),
        forall|j: int| 0 <= j < dest.clusters@.len() ==> #[trigger] apply_updates(
            dest.clusters@,
            source.clusters@,
        )[j].key() == dest.clusters@[j].key(),
        forall|j: int| 0 <= j < dest.contexts@.len() ==> #[trigger] apply_updates(
            dest.contexts@,
            source.contexts@,
        )[j].key() == dest.contexts@[j].key(),
        forall|j: int| 0 <= j < dest.users@.len() ==> #[trigger] apply_updates(
            dest.users@,
            source.users@,
        )[j].key() == dest.users@[j].key(),
        forall|j: int| 0 <= j < source.clusters@.len() ==> apply_updates(
            dest.clusters@,
            source.clusters@,
        )[first_key_index(dest.clusters@, #[trigger] source.clusters@[j].key())]
            == source.clusters@[j],
        forall|j: int| 0 <= j < source.contexts@.len() ==> apply_updates(
            dest.contexts@,
            source.contexts@,
        )[first_key_index(dest.contexts@, #[trigger] source.contexts@[j].key())]
            == source.contexts@[j],
        forall|j: int| 0 <= j < source.users@.len() ==> apply_updates(
            dest.users@,
            source.users@,
        )[first_key_index(dest.users@, #[trigger] source.users@[j].key())] == source.users@[j],
{
    lemma_classify_kind_all_collide(dest.clusters@, source.clusters@);
    lemma_classify_kind_all_collide(dest.contexts@, source.contexts@);
    lemma_classify_kind_all_collide(dest.users@, source.users@);
    lemma_apply_updates_keys(dest.clusters@, source.clusters@);
    lemma_apply_updates_keys(dest.contexts@, source.contexts@);
    lemma_apply_updates_keys(dest.users@, source.users@);
    lemma_apply_updates_replaces(dest.clusters@, source.clusters@);
    lemma_apply_updates_replaces(dest.contexts@, source.contexts@);
    lemma_apply_updates_replaces(dest.users@, source.users@);
}

/// Merging one batch kind leaves every incoming name present, so
/// classifying the same batch again finds only collisions and a second
/// merge without update mode is a no-op on the collection.
pub proof fn lemma_remerge_kind_noop<T: Named>(dest: Seq<T>, inc: Seq<T>)
    ensures
        add_list(dest + add_list(dest, inc), inc) == Seq::<T>::empty(),
        apply_updates(
            (dest + add_list(dest, inc)) + add_list(dest + add_list(dest, inc), inc),
            update_list(dest + add_list(dest, inc), inc, false),
        ) == dest + add_list(dest, inc),
{
    let merged = dest + add_list(dest, inc);
    assert forall|i: int| 0 <= i < inc.len() implies has_key(
        merged,
        #[trigger] inc[i].key(),
    ) by {
        let t = inc[i];
        if has_key(dest, t.key()) {
            let w = choose|w: int| 0 <= w < dest.len() && #[trigger] dest[w].key() == t.key();
            assert(merged[w].key() == t.key());
        } else {
            inc.lemma_filter_contains(|t: T| !has_key(dest, t.key()), i);
            let f = add_list(dest, inc);
            let w = choose|w: int| 0 <= w < f.len() && #[trigger] f[w] == t;
            assert(merged[dest.len() + w].key() == t.key());
        }
    }
    lemma_classify_kind_all_collide(merged, inc);
}

/// Law: merging an already-merged batch a second time, without update
/// mode, is a no-op on the document's content.
pub proof fn law_remerge_is_noop(dest: KubeConfig, source: KubeConfig)
    ensures
        apply_updates(
            (dest.clusters@ + add_list(dest.clusters@, source.clusters@)) + add_list(
                dest.clusters@ + add_list(dest.clusters@, source.clusters@),
                source.clusters@,
            ),
            update_list(
                dest.clusters@ + add_list(dest.clusters@, source.clusters@),
                source.clusters@,
                false,
            ),
        ) == dest.clusters@ + add_list(dest.clusters@, source.clusters@),
        apply_updates(
            (dest.contexts@ + add_list(dest.contexts@, source.contexts@)) + add_list(
                dest.contexts@ + add_list(dest.contexts@, source.contexts@),
                source.contexts@,
            ),
            update_list(
                dest.contexts@ + add_list(dest.contexts@, source.contexts@),
                source.contexts@,
                false,
            ),
        ) == dest.contexts@ + add_list(dest.contexts@, source.contexts@),
        apply_updates(
            (dest.users@ + add_list(dest.users@, source.users@)) + add_list(
                dest.users@ + add_list(dest.users@, source.users@),
                source.users@,
            ),
            update_list(
                dest.users@ + add_list(dest.users@, source.users@),
                source.users@,
                false,
            ),
        ) == dest.users@ + add_list(dest.users@, source.users@),
{
    lemma_remerge_kind_noop(dest.clusters@, source.clusters@);
    lemma_remerge_kind_noop(dest.contexts@, source.contexts@);
    lemma_remerge_kind_noop(dest.users@, source.users@);
}

/// Law: removing the one context of a document that holds exactly that
/// context's closure (its cluster and its user, referenced by nothing
/// else) deletes all three entities: the count is 3 and every collection
/// is left empty.
pub proof fn law_remove_sole_closure(d: KubeConfig, name: Seq<char>)
    requires
        d.contexts@.len() == 1,
        d.contexts@[0].key() == name,
        d.clusters@.len() == 1,
        d.clusters@[0].key() == d.contexts@[0].context.cluster@,
        d.users@.len() == 1,
        d.users@[0].key() == d.contexts@[0].context.user@,
    ensures
        contexts_after_remove(d, name) == Seq::<NamedContext>::empty(),
        clusters_after_remove(d, name) == Seq::<NamedCluster>::empty(),
        users_after_remove(d, name) == Seq::<NamedUser>::empty(),
        removed_count(d, name) == 3,
{
    assert(has_key(d.contexts@, name)) by {
        assert(d.contexts@[0].key() == name);
    }
    assert(first_key_index(d.contexts@, name) == 0);
    lemma_drop_key_all(d.contexts@, name);
    let ck = d.contexts@[0].context.cluster@;
    let uk = d.contexts@[0].context.user@;
    assert(!references_cluster(drop_key(d.contexts@, name), ck));
    assert(!references_user(drop_key(d.contexts@, name), uk));
    lemma_drop_key_all(d.clusters@, ck);
    lemma_drop_key_all(d.users@, uk);
}

/// Law: when the removed context's cluster is still referenced by a
/// surviving context but its user is not, the shared cluster survives
/// the cascade and exactly the context and its user are deleted: the
/// count is 2 (names unique within each collection).
pub proof fn law_remove_keeps_shared_cluster(d: KubeConfig, name: Seq<char>)
    requires
        unique_keys(d.contexts@),
        unique_keys(d.users@),
        has_key(d.contexts@, name),
        references_cluster(
            drop_key(d.contexts@, name),
            d.contexts@[first_key_index(d.contexts@, name)].context.cluster@,
        ),
        !references_user(
            drop_key(d.contexts@, name),
            d.contexts@[first_key_index(d.contexts@, name)].context.user@,
        ),
        has_key(d.users@, d.contexts@[first_key_index(d.contexts@, name)].context.user@),
    ensures
        clusters_after_remove(d, name) == d.clusters@,
        removed_count(d, name) == 2,
{
    lemma_first_key_index(d.contexts@, name);
    lemma_drop_key_unique(d.contexts@, name);
    lemma_drop_key_unique(d.users@, d.contexts@[first_key_index(d.contexts@, name)].context.user@);
}

/// Law: removing a name that matches no context deletes nothing and
/// changes nothing.
pub proof fn law_remove_absent_name_is_noop(d: KubeConfig, name: Seq<char>)
    requires
        !has_key(d.contexts@, name),
    ensures
        contexts_after_remove(d, name) == d.contexts@,
        clusters_after_remove(d, name) == d.clusters@,
        users_after_remove(d, name) == d.users@,
        active_after_remove(d, name) == d.current_context,
        removed_count(d, name) == 0,
{
}

/// Law: the active selection is first-wins across a whole run: adopted
/// from the first source that offers one while the destination has none,
/// and never overwritten by a later source.
pub proof fn law_active_selection_first_wins(first: Option<String>, second: Option<String>)
    requires
        first is Some,
    ensures
        resolve_active(resolve_active(None, first), second) == first,
{
}

} // verus!
