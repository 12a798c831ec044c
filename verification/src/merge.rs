//! Application of a classification to a destination document: appending
//! the add lists, replacing payloads named in the update lists in place,
//! and resolving the active-context pointer first-wins.

use crate::classify::MergeResult;
use crate::model::KubeConfig;
use crate::named::{
    first_key_index, has_key, lemma_first_key_index, lemma_first_key_index_same_keys, unique_keys,
    Named,
};
use vstd::prelude::*;

verus! {

/// `s` with the payload of the first entity named like `u` replaced by
/// `u`; `s` unchanged when no entity has that name.  Positions are
/// preserved.
pub open spec fn update_one<T: Named>(s: Seq<T>, u: T) -> Seq<T> {
    if has_key(s, u.key()) {
        s.update(first_key_index(s, u.key()), u)
    } else {
        s
    }
}

/// `s` after replacing, for each entity of `ups` in order, the first
/// equally named entity of `s`.
pub open spec fn apply_updates<T: Named>(s: Seq<T>, ups: Seq<T>) -> Seq<T>
    decreases ups.len(),
{
    if ups.len() == 0 {
        s
    } else {
        apply_updates(update_one(s, ups[0]), ups.drop_first())
    }
}

/// The active-context pointer after one merge: an incoming pointer is
/// adopted only while the destination has none (first wins).
pub open spec fn resolve_active(current: Option<String>, incoming: Option<String>) -> Option<
    String,
> {
    if current is None {
        incoming
    } else {
        current
    }
}

/// Replacing one payload preserves the collection's length and its name
/// at every position.
pub proof fn lemma_update_one_keys<T: Named>(s: Seq<T>, u: T)
    ensures
        update_one(s, u).len() == s.len(),
        forall|j: int| 0 <= j < s.len() ==> #[trigger] update_one(s, u)[j].key() == s[j].key(),
{
    if has_key(s, u.key()) {
        lemma_first_key_index(s, u.key());
    }
}

/// Applying any update list preserves the collection's length and its
/// name at every position.
pub proof fn lemma_apply_updates_keys<T: Named>(s: Seq<T>, ups: Seq<T>)
    ensures
        apply_updates(s, ups).len() == s.len(),
        forall|j: int| 0 <= j < s.len() ==> #[trigger] apply_updates(s, ups)[j].key()
            == s[j].key(),
    decreases ups.len(),
{
    if ups.len() > 0 {
        lemma_update_one_keys(s, ups[0]);
        lemma_apply_updates_keys(update_one(s, ups[0]), ups.drop_first());
    }
}

/// Applying updates whose names all differ from the name at position `p`
/// leaves the entity at `p` unchanged.
pub proof fn lemma_apply_updates_untouched<T: Named>(s: Seq<T>, ups: Seq<T>, p: int)
    requires
        0 <= p < s.len(),
        forall|j: int| 0 <= j < ups.len() ==> #[trigger] ups[j].key() != s[p].key(),
    ensures
        apply_updates(s, ups)[p] == s[p],
    decreases ups.len(),
{
    if ups.len() > 0 {
        let u0 = ups[0];
        let s1 = update_one(s, u0);
        if has_key(s, u0.key()) {
            lemma_first_key_index(s, u0.key());
            assert(s[first_key_index(s, u0.key())].key() == u0.key());
        }
        assert(s1[p] == s[p]);
        lemma_update_one_keys(s, u0);
        let rest = ups.drop_first();
        assert(forall|j: int| 0 <= j < rest.len() ==> #[trigger] rest[j].key() != s1[p].key()) by {
            assert(forall|j: int| 0 <= j < rest.len() ==> rest[j] == ups[j + 1]);
        }
        lemma_apply_updates_untouched(s1, rest, p);
    }
}

/// When names are unique in the collection and in the update list, each
/// update that names an existing entity lands whole at that entity's
/// position.
pub proof fn lemma_apply_updates_replaces<T: Named>(s: Seq<T>, ups: Seq<T>)
    requires
        unique_keys(s),
        unique_keys(ups),
    ensures
        forall|j: int|
            0 <= j < ups.len() && has_key(s, #[trigger] ups[j].key()) ==> apply_updates(
                s,
                ups,
            )[first_key_index(s, ups[j].key())] == ups[j],
    decreases ups.len(),
{
    if ups.len() > 0 {
        let u0 = ups[0];
        let s1 = update_one(s, u0);
        let rest = ups.drop_first();
        lemma_update_one_keys(s, u0);
        assert(unique_keys(s1));
        assert(unique_keys(rest)) by {
            assert(forall|j: int| 0 <= j < rest.len() ==> rest[j] == ups[j + 1]);
        }
        lemma_apply_updates_replaces(s1, rest);
        assert forall|j: int|
            0 <= j < ups.len() && has_key(s, #[trigger] ups[j].key()) implies apply_updates(
            s,
            ups,
        )[first_key_index(s, ups[j].key())] == ups[j] by {
            if j == 0 {
                lemma_first_key_index(s, u0.key());
                let p0 = first_key_index(s, u0.key());
                assert(s1[p0] == u0);
                assert(forall|m: int| 0 <= m < rest.len() ==> #[trigger] rest[m].key()
                    != s1[p0].key()) by {
                    assert(forall|m: int| 0 <= m < rest.len() ==> rest[m] == ups[m + 1]);
                }
                lemma_apply_updates_untouched(s1, rest, p0);
            } else {
                let uj = ups[j];
                assert(rest[j - 1] == uj);
                lemma_first_key_index(s, uj.key());
                let pj = first_key_index(s, uj.key());
                assert(s1[pj].key() == uj.key());
                assert(has_key(s1, uj.key()));
                lemma_first_key_index_same_keys(s, s1, uj.key());
            }
        }
    }
}

/// Replaces, for each entity of `ups` in order, the payload of the first
/// entity of `v` with the same name; entities of `ups` whose name is
/// absent are dropped.
fn update_in_place<T: Named>(v: &mut Vec<T>, ups: Vec<T>)
    ensures
        final(v)@ == apply_updates(old(v)@, ups@),
{
    let mut rest = ups;
    while rest.len() > 0
        invariant
            apply_updates(v@, rest@) == apply_updates(old(v)@, ups@),
        decreases rest@.len(),
    {
        let ghost r0 = rest@;
        let ghost v0 = v@;
        let u = rest.remove(0);
        proof {
            assert(r0.remove(0) =~= r0.drop_first());
        }
        match crate::named::find_by_name(v, u.name_ref()) {
            Some(i) => {
                proof {
                    assert(has_key(v0, u.key()));
                }
                v.set(i, u);
                proof {
                    assert(v@ == update_one(v0, u));
                }
            },
            None => {
                proof {
                    assert(update_one(v0, u) == v0);
                }
            },
        }
    }
}

/// Applies a classification to `dest` in place: appends every add list
/// to its collection, replaces the payload of each entity named in an
/// update list, adopts the incoming active context only when `dest` has
/// none, and returns how many entities were added, updated and skipped.
/// This operation cannot fail.
pub fn merge_kubeconfigs(
    dest: &mut KubeConfig,
    merge_result: MergeResult,
    source_current_context: Option<String>,
) -> (counts: (usize, usize, usize))
    requires
        merge_result.clusters_to_add@.len() + merge_result.contexts_to_add@.len()
            + merge_result.users_to_add@.len() <= usize::MAX,
        merge_result.clusters_to_update@.len() + merge_result.contexts_to_update@.len()
            + merge_result.users_to_update@.len() <= usize::MAX,
        merge_result.skipped_clusters@.len() + merge_result.skipped_contexts@.len()
            + merge_result.skipped_users@.len() <= usize::MAX,
    ensures
        counts.0 == merge_result.clusters_to_add@.len() + merge_result.contexts_to_add@.len()
            + merge_result.users_to_add@.len(),
        counts.1 == merge_result.clusters_to_update@.len() + merge_result.contexts_to_update@.len()
            + merge_result.users_to_update@.len(),
        counts.2 == merge_result.skipped_clusters@.len() + merge_result.skipped_contexts@.len()
            + merge_result.skipped_users@.len(),
        final(dest).clusters@ == apply_updates(
            old(dest).clusters@ + merge_result.clusters_to_add@,
            merge_result.clusters_to_update@,
        ),
        final(dest).contexts@ == apply_updates(
            old(dest).contexts@ + merge_result.contexts_to_add@,
            merge_result.contexts_to_update@,
        ),
        final(dest).users@ == apply_updates(
            old(dest).users@ + merge_result.users_to_add@,
            merge_result.users_to_update@,
        ),
        final(dest).current_context == resolve_active(
            old(dest).current_context,
            source_current_context,
        ),
        final(dest).api_version == old(dest).api_version,
        final(dest).kind == old(dest).kind,
        final(dest).preferences == old(dest).preferences,
{
    let mut mr = merge_result;
    let added = mr.clusters_to_add.len() + mr.contexts_to_add.len() + mr.users_to_add.len();
    let updated = mr.clusters_to_update.len() + mr.contexts_to_update.len()
        + mr.users_to_update.len();
    let skipped = mr.skipped_clusters.len() + mr.skipped_contexts.len() + mr.skipped_users.len();

    dest.clusters.append(&mut mr.clusters_to_add);
    dest.contexts.append(&mut mr.contexts_to_add);
    dest.users.append(&mut mr.users_to_add);

    update_in_place(&mut dest.clusters, mr.clusters_to_update);
    update_in_place(&mut dest.contexts, mr.contexts_to_update);
    update_in_place(&mut dest.users, mr.users_to_update);

    if dest.current_context.is_none() && source_current_context.is_some() {
        dest.current_context = source_current_context;
    }

    (added, updated, skipped)
}

} // verus!
