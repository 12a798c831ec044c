//! Classification of an incoming entity batch against a destination
//! document: for each entity kind independently, an entity whose name is
//! new is added, a colliding one is updated (in update mode) or its name
//! recorded as skipped.

use crate::model::{KubeConfig, NamedCluster, NamedContext, NamedUser};
use crate::named::{has_key, lemma_filter_push, Named};
use vstd::prelude::*;

verus! {

/// The entities of `inc` whose names do not occur in `dest`, in order.
pub open spec fn add_list<T: Named>(dest: Seq<T>, inc: Seq<T>) -> Seq<T> {
    inc.filter(|t: T| !has_key(dest, t.key()))
}

/// The entities of `inc` whose names occur in `dest`, in order, when
/// update mode is on; empty otherwise.
pub open spec fn update_list<T: Named>(dest: Seq<T>, inc: Seq<T>, update: bool) -> Seq<T> {
    if update {
        inc.filter(|t: T| has_key(dest, t.key()))
    } else {
        Seq::empty()
    }
}

/// The names of the entities of `inc` that collide with `dest`, in
/// order, when update mode is off; empty otherwise.
pub open spec fn skip_list<T: Named>(dest: Seq<T>, inc: Seq<T>, update: bool) -> Seq<Seq<char>> {
    if update {
        Seq::empty()
    } else {
        inc.filter(|t: T| has_key(dest, t.key())).map_values(|t: T| t.key())
    }
}

/// The views of a list of recorded names.
pub open spec fn names_of(s: Seq<String>) -> Seq<Seq<char>> {
    s.map_values(|n: String| n@)
}

/// A classification of one incoming document against a destination:
/// per entity kind, what to add, what to update, and the names skipped.
pub struct MergeResult {
    pub clusters_to_add: Vec<NamedCluster>,
    pub contexts_to_add: Vec<NamedContext>,
    pub users_to_add: Vec<NamedUser>,
    pub clusters_to_update: Vec<NamedCluster>,
    pub contexts_to_update: Vec<NamedContext>,
    pub users_to_update: Vec<NamedUser>,
    pub skipped_clusters: Vec<String>,
    pub skipped_contexts: Vec<String>,
    pub skipped_users: Vec<String>,
}

/// Partitions one entity kind: every incoming entity lands in exactly
/// one of the add list, the update list (update mode) or the skip list.
fn classify_kind<T: Named>(dest: &Vec<T>, incoming: Vec<T>, update: bool) -> (r: (
    Vec<T>,
    Vec<T>,
    Vec<String>,
))
    ensures
        r.0@ == add_list(dest@, incoming@),
        r.1@ == update_list(dest@, incoming@, update),
        names_of(r.2@) == skip_list(dest@, incoming@, update),
{
    let ghost all = incoming@;
    let ghost fresh = |t: T| !has_key(dest@, t.key());
    let ghost collides = |t: T| has_key(dest@, t.key());
    let mut rest = incoming;
    let mut to_add: Vec<T> = Vec::new();
    let mut to_update: Vec<T> = Vec::new();
    let mut skipped: Vec<String> = Vec::new();
    proof {
        assert(all.subrange(0, 0) =~= Seq::<T>::empty());
        reveal(Seq::filter);
        assert(names_of(skipped@) =~= Seq::<Seq<char>>::empty());
    }
    while rest.len() > 0
        invariant
            rest@.len() <= all.len(),
            rest@ == all.skip(all.len() - rest@.len()),
            fresh == (|t: T| !has_key(dest@, t.key())),
            collides == (|t: T| has_key(dest@, t.key())),
            to_add@ == all.subrange(0, all.len() - rest@.len()).filter(fresh),
            update ==> to_update@ == all.subrange(0, all.len() - rest@.len()).filter(collides),
            !update ==> to_update@ == Seq::<T>::empty(),
            update ==> skipped@ == Seq::<String>::empty(),
            !update ==> names_of(skipped@) == all.subrange(0, all.len() - rest@.len()).filter(
                collides,
            ).map_values(|t: T| t.key()),
        decreases rest@.len(),
    {
        let ghost k = all.len() - rest@.len();
        let t = rest.remove(0);
        proof {
            assert(t == all[k]);
            assert(all.skip(k).remove(0) =~= all.skip(k + 1));
            assert(all.subrange(0, k + 1) =~= all.subrange(0, k).push(all[k]));
            lemma_filter_push(all.subrange(0, k), fresh, all[k]);
            lemma_filter_push(all.subrange(0, k), collides, all[k]);
        }
        let dup = match crate::named::find_by_name(dest, t.name_ref()) {
            Some(_) => true,
            None => false,
        };
        if dup {
            if update {
                to_update.push(t);
            } else {
                let ghost skipped_names_before = names_of(skipped@);
                let name = t.name_ref().clone();
                skipped.push(name);
                proof {
                    assert(names_of(skipped@) =~= skipped_names_before.push(name@));
                    assert(all.subrange(0, k).filter(collides).push(all[k]).map_values(
                        |t: T| t.key(),
                    ) =~= all.subrange(0, k).filter(collides).map_values(|t: T| t.key()).push(
                        all[k].key(),
                    ));
                }
            }
        } else {
            to_add.push(t);
        }
    }
    proof {
        assert(all.subrange(0, all.len() as int) =~= all);
    }
    (to_add, to_update, skipped)
}

/// Classifies every entity of `source` against `dest`: an entity whose
/// name is new to its collection is to be added; a colliding one is to
/// be updated when `update` is on, and otherwise its name is recorded as
/// skipped and the entity discarded.  `dest` is only read.
pub fn filter_duplicates(dest: &KubeConfig, source: KubeConfig, update: bool) -> (r: MergeResult)
    ensures
        r.clusters_to_add@ == add_list(dest.clusters@, source.clusters@),
        r.contexts_to_add@ == add_list(dest.contexts@, source.contexts@),
        r.users_to_add@ == add_list(dest.users@, source.users@),
        r.clusters_to_update@ == update_list(dest.clusters@, source.clusters@, update),
        r.contexts_to_update@ == update_list(dest.contexts@, source.contexts@, update),
        r.users_to_update@ == update_list(dest.users@, source.users@, update),
        names_of(r.skipped_clusters@) == skip_list(dest.clusters@, source.clusters@, update),
        names_of(r.skipped_contexts@) == skip_list(dest.contexts@, source.contexts@, update),
        names_of(r.skipped_users@) == skip_list(dest.users@, source.users@, update),
{
    let (clusters_to_add, clusters_to_update, skipped_clusters) = classify_kind(
        &dest.clusters,
        source.clusters,
        update,
    );
    let (contexts_to_add, contexts_to_update, skipped_contexts) = classify_kind(
        &dest.contexts,
        source.contexts,
        update,
    );
    let (users_to_add, users_to_update, skipped_users) = classify_kind(
        &dest.users,
        source.users,
        update,
    );
    MergeResult {
        clusters_to_add,
        contexts_to_add,
        users_to_add,
        clusters_to_update,
        contexts_to_update,
        users_to_update,
        skipped_clusters,
        skipped_contexts,
        skipped_users,
    }
}

} // verus!
