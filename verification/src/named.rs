//! Name-keyed lookup and removal, shared by the three entity kinds.

use crate::model::{NamedCluster, NamedContext, NamedUser};
use vstd::prelude::*;

verus! {

/// An entity that is keyed by a unique name within its collection.
pub trait Named: Sized {
    /// The entity's name, as the mathematical key the contracts speak of.
    spec fn key(&self) -> Seq<char>;

    /// The entity's name as stored.
    fn name_ref(&self) -> (r: &String)
        ensures
            r@ == self.key(),
    ;
}

impl Named for NamedCluster {
    open spec fn key(&self) -> Seq<char> {
        self.name@
    }

    fn name_ref(&self) -> (r: &String) {
        &self.name
    }
}

impl Named for NamedContext {
    open spec fn key(&self) -> Seq<char> {
        self.name@
    }

    fn name_ref(&self) -> (r: &String) {
        &self.name
    }
}

impl Named for NamedUser {
    open spec fn key(&self) -> Seq<char> {
        self.name@
    }

    fn name_ref(&self) -> (r: &String) {
        &self.name
    }
}

/// Whether some entity in `s` is named `k`.
pub open spec fn has_key<T: Named>(s: Seq<T>, k: Seq<char>) -> bool {
    exists|i: int| 0 <= i < s.len() && #[trigger] s[i].key() == k
}

/// The position of the first entity in `s` named `k`, or -1 if none is.
pub open spec fn first_key_index<T: Named>(s: Seq<T>, k: Seq<char>) -> int
    decreases s.len(),
{
    if s.len() == 0 {
        -1
    } else if s[0].key() == k {
        0
    } else {
        let rest = first_key_index(s.drop_first(), k);
        if rest < 0 {
            -1
        } else {
            rest + 1
        }
    }
}

/// `s` with every entity named `k` removed, order otherwise preserved.
pub open spec fn drop_key<T: Named>(s: Seq<T>, k: Seq<char>) -> Seq<T> {
    s.filter(|t: T| t.key() != k)
}

/// No two entities in `s` share a name.
pub open spec fn unique_keys<T: Named>(s: Seq<T>) -> bool {
    forall|i: int, j: int| 0 <= i < j < s.len() ==> s[i].key() != s[j].key()
}

/// `first_key_index` finds the first match when one exists, and -1 otherwise.
pub proof fn lemma_first_key_index<T: Named>(s: Seq<T>, k: Seq<char>)
    ensures
        has_key(s, k) ==> {
            let i = first_key_index(s, k);
            &&& 0 <= i < s.len()
            &&& s[i].key() == k
            &&& forall|j: int| 0 <= j < i ==> s[j].key() != k
        },
        !has_key(s, k) ==> first_key_index(s, k) == -1,
    decreases s.len(),
{
    if s.len() > 0 && s[0].key() != k {
        let rest = s.drop_first();
        lemma_first_key_index(rest, k);
        if has_key(s, k) {
            let w = choose|w: int| 0 <= w < s.len() && #[trigger] s[w].key() == k;
            assert(rest[w - 1].key() == k);
            assert(has_key(rest, k));
            let ri = first_key_index(rest, k);
            assert forall|j: int| 0 <= j < ri + 1 implies s[j].key() != k by {
                if j > 0 {
                    assert(rest[j - 1].key() != k);
                }
            }
        } else {
            if has_key(rest, k) {
                let w = choose|w: int| 0 <= w < rest.len() && #[trigger] rest[w].key() == k;
                assert(s[w + 1].key() == k);
            }
        }
    }
}

/// A position that matches, with no match before it, is the first match.
pub proof fn lemma_first_key_index_is<T: Named>(s: Seq<T>, k: Seq<char>, i: int)
    requires
        0 <= i < s.len(),
        s[i].key() == k,
        forall|j: int| 0 <= j < i ==> s[j].key() != k,
    ensures
        first_key_index(s, k) == i,
{
    assert(has_key(s, k));
    lemma_first_key_index(s, k);
    let fi = first_key_index(s, k);
    if fi < i {
        assert(s[fi].key() != k);
    }
    if fi > i {
        assert(s[i].key() != k);
    }
}

/// Collections with the same name at every position have the same first
/// match for any name.
pub proof fn lemma_first_key_index_same_keys<T: Named>(a: Seq<T>, b: Seq<T>, k: Seq<char>)
    requires
        a.len() == b.len(),
        forall|i: int| 0 <= i < a.len() ==> #[trigger] a[i].key() == b[i].key(),
    ensures
        first_key_index(a, k) == first_key_index(b, k),
    decreases a.len(),
{
    if a.len() > 0 && a[0].key() != k {
        let ar = a.drop_first();
        let br = b.drop_first();
        assert(forall|i: int| 0 <= i < ar.len() ==> #[trigger] ar[i].key() == br[i].key()) by {
            assert(forall|i: int| 0 <= i < ar.len() ==> ar[i] == a[i + 1] && br[i] == b[i + 1]);
        }
        lemma_first_key_index_same_keys(ar, br, k);
    }
}

/// Filtering distributes over push: the new element stays exactly when
/// it satisfies the predicate.
pub proof fn lemma_filter_push<A>(s: Seq<A>, pred: spec_fn(A) -> bool, x: A)
    ensures
        s.push(x).filter(pred) == (if pred(x) {
            s.filter(pred).push(x)
        } else {
            s.filter(pred)
        }),
{
    reveal(Seq::filter);
    assert(s.push(x).drop_last() =~= s);
}

/// A filter keeps everything when the predicate holds throughout.
pub proof fn lemma_filter_all<A>(s: Seq<A>, pred: spec_fn(A) -> bool)
    requires
        forall|i: int| 0 <= i < s.len() ==> pred(#[trigger] s[i]),
    ensures
        s.filter(pred) == s,
    decreases s.len(),
{
    reveal(Seq::filter);
    if s.len() > 0 {
        lemma_filter_all(s.drop_last(), pred);
        assert(s.drop_last().push(s.last()) =~= s);
    }
}

/// A filter keeps nothing when the predicate fails throughout.
pub proof fn lemma_filter_none<A>(s: Seq<A>, pred: spec_fn(A) -> bool)
    requires
        forall|i: int| 0 <= i < s.len() ==> !pred(#[trigger] s[i]),
    ensures
        s.filter(pred) == Seq::<A>::empty(),
    decreases s.len(),
{
    reveal(Seq::filter);
    if s.len() > 0 {
        lemma_filter_none(s.drop_last(), pred);
    }
}

/// Removing a name that every entity bears empties the collection.
pub proof fn lemma_drop_key_all<T: Named>(s: Seq<T>, k: Seq<char>)
    requires
        forall|i: int| 0 <= i < s.len() ==> #[trigger] s[i].key() == k,
    ensures
        drop_key(s, k) == Seq::<T>::empty(),
    decreases s.len(),
{
    reveal(Seq::filter);
    if s.len() > 0 {
        let init = s.drop_last();
        assert(forall|i: int| 0 <= i < init.len() ==> #[trigger] init[i].key() == k) by {
            assert(forall|i: int| 0 <= i < init.len() ==> init[i] == s[i]);
        }
        lemma_drop_key_all(init, k);
        assert(s[s.len() - 1].key() == k);
    }
}

/// Removing the entities of one name from a collection with unique names
/// removes exactly one entity when the name is present, none otherwise.
pub proof fn lemma_drop_key_unique<T: Named>(s: Seq<T>, k: Seq<char>)
    requires
        unique_keys(s),
    ensures
        has_key(s, k) ==> drop_key(s, k).len() == s.len() - 1,
        !has_key(s, k) ==> drop_key(s, k) == s,
    decreases s.len(),
{
    reveal(Seq::filter);
    if s.len() == 0 {
        assert(!has_key(s, k));
    } else {
        let init = s.drop_last();
        assert(unique_keys(init)) by {
            assert(forall|i: int| 0 <= i < init.len() ==> init[i] == s[i]);
        }
        lemma_drop_key_unique(init, k);
        if s.last().key() == k {
            // the last element is the unique match: nothing before it matches
            assert(!has_key(init, k)) by {
                if has_key(init, k) {
                    let w = choose|w: int| 0 <= w < init.len() && #[trigger] init[w].key() == k;
                    assert(s[w].key() == s[s.len() - 1].key());
                }
            }
            assert(has_key(s, k)) by {
                assert(s[s.len() - 1].key() == k);
            }
        } else {
            if has_key(s, k) {
                let w = choose|w: int| 0 <= w < s.len() && #[trigger] s[w].key() == k;
                assert(init[w].key() == k);
                assert(has_key(init, k));
            }
            if has_key(init, k) {
                let w = choose|w: int| 0 <= w < init.len() && #[trigger] init[w].key() == k;
                assert(s[w].key() == k);
                assert(has_key(s, k));
            }
            if !has_key(s, k) {
                assert(init.push(s.last()) =~= s);
            }
        }
    }
}

/// Finds the position of the first entity named `name`, if any.
pub fn find_by_name<T: Named>(v: &Vec<T>, name: &String) -> (r: Option<usize>)
    ensures
        (match r {
            Some(i) => i < v@.len() && v@[i as int].key() == name@ && i == first_key_index(
                v@,
                name@,
            ),
            None => !has_key(v@, name@),
        }),
{
    let mut i: usize = 0;
    while i < v.len()
        invariant
            i <= v@.len(),
            forall|j: int| 0 <= j < i ==> #[trigger] v@[j].key() != name@,
        decreases v@.len() - i,
    {
        let entry = &v[i];
        if *entry.name_ref() == *name {
            proof {
                lemma_first_key_index_is(v@, name@, i as int);
            }
            return Some(i);
        }
        i = i + 1;
    }
    None
}

/// Removes every entity named `name`, keeping the order of the rest, and
/// returns how many were removed.
pub fn remove_by_name<T: Named>(v: &mut Vec<T>, name: &String) -> (removed: usize)
    ensures
        final(v)@ == drop_key(old(v)@, name@),
        removed == old(v)@.len() - final(v)@.len(),
{
    let ghost all = v@;
    let ghost pred = |t: T| t.key() != name@;
    let len_before = v.len();
    let mut kept: Vec<T> = Vec::new();
    proof {
        assert(all.subrange(0, 0) =~= Seq::<T>::empty());
        reveal(Seq::filter);
    }
    while v.len() > 0
        invariant
            v@ == all.skip(all.len() - v@.len()),
            v@.len() <= all.len(),
            kept@ == all.subrange(0, all.len() - v@.len()).filter(pred),
            pred == (|t: T| t.key() != name@),
        decreases v@.len(),
    {
        let ghost k = all.len() - v@.len();
        let t = v.remove(0);
        proof {
            assert(t == all[k]);
            assert(all.skip(k).remove(0) =~= all.skip(k + 1));
            assert(all.subrange(0, k + 1) =~= all.subrange(0, k).push(all[k]));
            lemma_filter_push(all.subrange(0, k), pred, all[k]);
        }
        if !(*t.name_ref() == *name) {
            kept.push(t);
        }
    }
    proof {
        assert(all.subrange(0, all.len() as int) =~= all);
        all.lemma_filter_len(pred);
    }
    let new_len = kept.len();
    *v = kept;
    len_before - new_len
}

} // verus!
