//! Removal of a context and, by cascade, of the cluster and user it
//! references, unless another surviving context still references them.

use crate::model::{KubeConfig, NamedCluster, NamedContext, NamedUser};
use crate::named::{drop_key, find_by_name, first_key_index, has_key, remove_by_name, Named};
use vstd::prelude::*;

verus! {

/// Whether some context in `cs` references the cluster named `k`.
pub open spec fn references_cluster(cs: Seq<NamedContext>, k: Seq<char>) -> bool {
    exists|i: int| 0 <= i < cs.len() && #[trigger] cs[i].context.cluster@ == k
}

/// Whether some context in `cs` references the user named `k`.
pub open spec fn references_user(cs: Seq<NamedContext>, k: Seq<char>) -> bool {
    exists|i: int| 0 <= i < cs.len() && #[trigger] cs[i].context.user@ == k
}

/// The context collection after removing the context named `name`.
pub open spec fn contexts_after_remove(d: KubeConfig, name: Seq<char>) -> Seq<NamedContext> {
    if has_key(d.contexts@, name) {
        drop_key(d.contexts@, name)
    } else {
        d.contexts@
    }
}

/// The cluster collection after removing the context named `name`: the
/// cluster it referenced goes only when no surviving context still
/// references it.
pub open spec fn clusters_after_remove(d: KubeConfig, name: Seq<char>) -> Seq<NamedCluster> {
    if !has_key(d.contexts@, name) {
        d.clusters@
    } else {
        let ck = d.contexts@[first_key_index(d.contexts@, name)].context.cluster@;
        if references_cluster(drop_key(d.contexts@, name), ck) {
            d.clusters@
        } else {
            drop_key(d.clusters@, ck)
        }
    }
}

/// The user collection after removing the context named `name`: the user
/// it referenced goes only when no surviving context still references it.
pub open spec fn users_after_remove(d: KubeConfig, name: Seq<char>) -> Seq<NamedUser> {
    if !has_key(d.contexts@, name) {
        d.users@
    } else {
        let uk = d.contexts@[first_key_index(d.contexts@, name)].context.user@;
        if references_user(drop_key(d.contexts@, name), uk) {
            d.users@
        } else {
            drop_key(d.users@, uk)
        }
    }
}

/// The active-context pointer after removing the context named `name`:
/// cleared exactly when it pointed at the removed context.
pub open spec fn active_after_remove(d: KubeConfig, name: Seq<char>) -> Option<String> {
    if has_key(d.contexts@, name) && (d.current_context matches Some(c) && c@ == name) {
        None
    } else {
        d.current_context
    }
}

/// How many entities removing the context named `name` deletes, over all
/// three collections.
pub open spec fn removed_count(d: KubeConfig, name: Seq<char>) -> int {
    (d.contexts@.len() - contexts_after_remove(d, name).len()) + (d.clusters@.len()
        - clusters_after_remove(d, name).len()) + (d.users@.len() - users_after_remove(
        d,
        name,
    ).len())
}

/// Whether some context in `contexts` references the cluster named
/// `cluster_name`.
fn cluster_in_use(contexts: &Vec<NamedContext>, cluster_name: &String) -> (r: bool)
    ensures
        r == references_cluster(contexts@, cluster_name@),
{
    let mut i: usize = 0;
    while i < contexts.len()
        invariant
            i <= contexts@.len(),
            forall|j: int| 0 <= j < i ==> #[trigger] contexts@[j].context.cluster@
                != cluster_name@,
        decreases contexts@.len() - i,
    {
        let c = &contexts[i];
        if c.context.cluster == *cluster_name {
            return true;
        }
        i = i + 1;
    }
    false
}

/// Whether some context in `contexts` references the user named
/// `user_name`.
fn user_in_use(contexts: &Vec<NamedContext>, user_name: &String) -> (r: bool)
    ensures
        r == references_user(contexts@, user_name@),
{
    let mut i: usize = 0;
    while i < contexts.len()
        invariant
            i <= contexts@.len(),
            forall|j: int| 0 <= j < i ==> #[trigger] contexts@[j].context.user@ != user_name@,
        decreases contexts@.len() - i,
    {
        let c = &contexts[i];
        if c.context.user == *user_name {
            return true;
        }
        i = i + 1;
    }
    false
}

/// Removes the context named `context_name` from `config`, then its
/// referenced cluster and user when no surviving context still
/// references them, and clears the active-context pointer when it
/// pointed at the removed context.  Returns how many entities were
/// deleted.  A name that matches no context is not an error: nothing is
/// changed and the count is zero.
pub fn remove_context(config: &mut KubeConfig, context_name: &str) -> (removed: usize)
    requires
        old(config).contexts@.len() + old(config).clusters@.len() + old(config).users@.len()
            <= usize::MAX,
    ensures
        final(config).contexts@ == contexts_after_remove(*old(config), context_name@),
        final(config).clusters@ == clusters_after_remove(*old(config), context_name@),
        final(config).users@ == users_after_remove(*old(config), context_name@),
        final(config).current_context == active_after_remove(*old(config), context_name@),
        removed == removed_count(*old(config), context_name@),
        final(config).api_version == old(config).api_version,
        final(config).kind == old(config).kind,
        final(config).preferences == old(config).preferences,
        !has_key(old(config).contexts@, context_name@) ==> *final(config) == *old(config)
            && removed == 0,
{
    let key = String::from_str(context_name);
    let found = find_by_name(&config.contexts, &key);
    match found {
        None => 0,
        Some(i) => {
            let cluster_name = config.contexts[i].context.cluster.clone();
            let user_name = config.contexts[i].context.user.clone();

            let mut removed = remove_by_name(&mut config.contexts, &key);

            // The reference scans must run against the surviving contexts:
            // the removed context's own references no longer count.
            if !cluster_in_use(&config.contexts, &cluster_name) {
                removed = removed + remove_by_name(&mut config.clusters, &cluster_name);
            }

            if !user_in_use(&config.contexts, &user_name) {
                removed = removed + remove_by_name(&mut config.users, &user_name);
            }

            let points_at_removed = match &config.current_context {
                Some(c) => *c == key,
                None => false,
            };
            if points_at_removed {
                config.current_context = None;
            }

            removed
        },
    }
}

} // verus!
