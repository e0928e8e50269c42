//! The trees that a run has produced so far, by commit.

use crate::ids::CommitId;
use vstd::prelude::*;

verus! {

/// The new tree of each commit that a run has modified.
///
/// A tree is whatever handle the working copy hands out for one; it is only stored here.
pub struct NewTrees<T> {
    entries: Vec<(CommitId, T)>,
}

/// No two entries are for the same commit.
pub closed spec fn distinct_ids<T>(entries: Seq<(CommitId, T)>) -> bool {
    forall|i: int, j: int|
        0 <= i < j < entries.len() ==> (#[trigger] entries[i]).0@ != (#[trigger] entries[j]).0@
}

/// The map that a list of entries stands for.
pub closed spec fn entries_map<T>(entries: Seq<(CommitId, T)>) -> Map<Seq<u8>, T>
    decreases entries.len(),
{
    if entries.len() == 0 {
        Map::empty()
    } else {
        entries_map(entries.drop_last()).insert(entries.last().0@, entries.last().1)
    }
}

impl<T> View for NewTrees<T> {
    type V = Map<Seq<u8>, T>;

    closed spec fn view(&self) -> Map<Seq<u8>, T> {
        entries_map(self.entries@)
    }
}

proof fn lemma_entries_map<T>(entries: Seq<(CommitId, T)>)
    requires
        distinct_ids(entries),
    ensures
        entries_map(entries).dom().finite(),
        forall|i: int|
            0 <= i < entries.len() ==> entries_map(entries).contains_key(
                (#[trigger] entries[i]).0@,
            ) && entries_map(entries)[entries[i].0@] == entries[i].1,
        forall|k: Seq<u8>| #[trigger]
            entries_map(entries).contains_key(k) ==> exists|i: int|
                0 <= i < entries.len() && (#[trigger] entries[i]).0@ == k,
    decreases entries.len(),
{
    if entries.len() > 0 {
        let rest = entries.drop_last();
        assert(distinct_ids(rest)) by {
            assert forall|i: int, j: int| 0 <= i < j < rest.len() implies (
            #[trigger] rest[i]).0@ != (#[trigger] rest[j]).0@ by {
                assert(rest[i] == entries[i] && rest[j] == entries[j]);
            }
        }
        lemma_entries_map(rest);
        assert forall|i: int| 0 <= i < entries.len() implies entries_map(entries).contains_key(
            (#[trigger] entries[i]).0@,
        ) && entries_map(entries)[entries[i].0@] == entries[i].1 by {
            if i < rest.len() {
                assert(rest[i] == entries[i]);
                assert(entries[i].0@ != entries[entries.len() - 1].0@);
            }
        }
        assert forall|k: Seq<u8>| #[trigger] entries_map(entries).contains_key(k) implies exists|
            i: int,
        |
            0 <= i < entries.len() && (#[trigger] entries[i]).0@ == k by {
            if k == entries.last().0@ {
                assert(entries[entries.len() - 1].0@ == k);
            } else {
                assert(entries_map(rest).contains_key(k));
                let i = choose|i: int| 0 <= i < rest.len() && (#[trigger] rest[i]).0@ == k;
                assert(entries[i] == rest[i]);
            }
        }
    }
}

impl<T> NewTrees<T> {
    #[verifier::type_invariant]
    closed spec fn wf(self) -> bool {
        distinct_ids(self.entries@)
    }

    /// No tree yet.
    pub fn new() -> (r: Self)
        ensures
            r@ == Map::<Seq<u8>, T>::empty(),
    {
        NewTrees { entries: Vec::new() }
    }

    fn position(&self, id: &CommitId) -> (r: Option<usize>)
        ensures
            match r {
                Some(i) => i < self.entries@.len() && self.entries@[i as int].0@ == id@,
                None => forall|i: int|
                    0 <= i < self.entries@.len() ==> (#[trigger] self.entries@[i]).0@ != id@,
            },
    {
        let mut i: usize = 0;
        while i < self.entries.len()
            invariant
                i <= self.entries@.len(),
                forall|k: int| 0 <= k < i ==> (#[trigger] self.entries@[k]).0@ != id@,
            decreases self.entries@.len() - i,
        {
            if self.entries[i].0.same(id) {
                return Some(i);
            }
            i = i + 1;
        }
        None
    }

    /// Stores a commit's tree, in place of the one that was stored before.
    pub fn insert(&mut self, id: CommitId, tree: T)
        ensures
            final(self)@ == old(self)@.insert(id@, tree),
    {
        proof {
            use_type_invariant(&*self);
        }
        let found = self.position(&id);
        let mut entries: Vec<(CommitId, T)> = Vec::new();
        std::mem::swap(&mut entries, &mut self.entries);
        let ghost before = entries@;
        let ghost key = id@;
        match found {
            Some(i) => {
                entries.set(i, (id, tree));
            },
            None => {
                entries.push((id, tree));
            },
        }
        proof {
            assert(distinct_ids(entries@)) by {
                assert forall|i: int, j: int| 0 <= i < j < entries@.len() implies (
                #[trigger] entries@[i]).0@ != (#[trigger] entries@[j]).0@ by {
                    if i < before.len() {
                        assert(before[i].0@ == before[i].0@);
                    }
                    if j < before.len() {
                        assert(before[j].0@ == before[j].0@);
                    }
                }
            }
            lemma_entries_map(before);
            lemma_entries_map(entries@);
            let new_map = entries_map(entries@);
            let want = entries_map(before).insert(key, tree);
            assert forall|k: Seq<u8>| #[trigger]
                new_map.contains_key(k) == want.contains_key(k) by {
                if new_map.contains_key(k) && k != key {
                    let i = choose|i: int|
                        0 <= i < entries@.len() && (#[trigger] entries@[i]).0@ == k;
                    assert(before[i] == entries@[i]);
                }
                if want.contains_key(k) && k != key {
                    let i = choose|i: int| 0 <= i < before.len() && (#[trigger] before[i]).0@ == k;
                    assert(before[i] == entries@[i]);
                }
                if k == key {
                    match found {
                        Some(i) => {
                            assert(entries@[i as int].0@ == key);
                        },
                        None => {
                            assert(entries@[before.len() as int].0@ == key);
                        },
                    }
                }
            }
            assert forall|k: Seq<u8>| #[trigger] new_map.contains_key(k) implies new_map[k]
                == want[k] by {
                let i = choose|i: int| 0 <= i < entries@.len() && (#[trigger] entries@[i]).0@ == k;
                if k != key {
                    assert(before[i] == entries@[i]);
                }
            }
            assert(new_map =~= want);
        }
        self.entries = entries;
    }

    /// The tree of a commit, if one is stored.
    pub fn get(&self, id: &CommitId) -> (r: Option<&T>)
        ensures
            match r {
                Some(tree) => self@.contains_key(id@) && *tree == self@[id@],
                None => !self@.contains_key(id@),
            },
    {
        proof {
            use_type_invariant(self);
            lemma_entries_map(self.entries@);
        }
        match self.position(id) {
            Some(i) => {
                assert(self.entries@[i as int].0@ == id@);
                Some(&self.entries[i].1)
            },
            None => None,
        }
    }

    /// Whether no tree is stored.
    pub fn is_empty(&self) -> (r: bool)
        ensures
            r == (self@ == Map::<Seq<u8>, T>::empty()),
    {
        proof {
            use_type_invariant(self);
            lemma_entries_map(self.entries@);
        }
        if self.entries.len() == 0 {
            assert(self@ =~= Map::<Seq<u8>, T>::empty());
            true
        } else {
            assert(self@.contains_key(self.entries@[0].0@));
            false
        }
    }

    /// Forgets a commit's tree, if one is stored.
    pub fn remove(&mut self, id: &CommitId)
        ensures
            final(self)@ == old(self)@.remove(id@),
    {
        proof {
            use_type_invariant(&*self);
        }
        let mut entries: Vec<(CommitId, T)> = Vec::new();
        std::mem::swap(&mut entries, &mut self.entries);
        let mut ids: Vec<CommitId> = Vec::new();
        ids.push(id.clone());
        let rest = NewTrees { entries }.without(&ids);
        proof {
            use_type_invariant(&rest);
            let listed = ids@.map_values(|id: CommitId| id@);
            assert(listed[0] == id@);
            assert(id_set(ids@) =~= set![id@]);
            assert(rest@ =~= old(self)@.remove(id@));
        }
        self.entries = rest.entries;
    }

    /// The trees of all commits but the listed ones.
    pub fn without(self, ids: &Vec<CommitId>) -> (r: Self)
        ensures
            r@ == self@.remove_keys(id_set(ids@)),
    {
        proof {
            use_type_invariant(&self);
        }
        let ghost whole = self.entries@;
        let mut rest = self.entries;
        let mut kept: Vec<(CommitId, T)> = Vec::new();
        proof {
            reveal(kept_from);
            assert(whole.take(whole.len() as int) =~= whole);
        }
        while rest.len() > 0
            invariant
                distinct_ids(kept@),
                distinct_ids(whole),
                rest@.len() <= whole.len(),
                rest@ == whole.take(rest@.len() as int),
                kept_from(kept@, whole, rest@.len() as int, id_set(ids@)),
            decreases rest@.len(),
        {
            let ghost n = (rest@.len() - 1) as int;
            let entry = rest.pop().unwrap();
            assert(entry == whole[n]);
            assert(rest@ =~= whole.take(n));
            let listed = has_id(ids, &entry.0);
            proof {
                lemma_kept_step(kept@, whole, n, id_set(ids@));
            }
            if !listed {
                kept.push(entry);
            }
        }
        proof {
            lemma_kept_all(kept@, whole, id_set(ids@));
        }
        NewTrees { entries: kept }
    }
}

/// `kept` holds exactly those entries of `whole` from position `n` on whose commit is not dropped.
#[verifier::opaque]
spec fn kept_from<T>(
    kept: Seq<(CommitId, T)>,
    whole: Seq<(CommitId, T)>,
    n: int,
    drop: Set<Seq<u8>>,
) -> bool {
    &&& forall|i: int|
        0 <= i < kept.len() ==> !drop.contains((#[trigger] kept[i]).0@) && exists|j: int|
            n <= j < whole.len() && #[trigger] whole[j] == kept[i]
    &&& forall|j: int|
        n <= j < whole.len() && !drop.contains((#[trigger] whole[j]).0@) ==> exists|i: int|
            0 <= i < kept.len() && #[trigger] kept[i] == whole[j]
}

proof fn lemma_kept_step<T>(
    kept: Seq<(CommitId, T)>,
    whole: Seq<(CommitId, T)>,
    n: int,
    drop: Set<Seq<u8>>,
)
    requires
        0 <= n < whole.len(),
        distinct_ids(whole),
        distinct_ids(kept),
        kept_from(kept, whole, n + 1, drop),
    ensures
        drop.contains(whole[n].0@) ==> kept_from(kept, whole, n, drop),
        !drop.contains(whole[n].0@) ==> distinct_ids(kept.push(whole[n])) && kept_from(
            kept.push(whole[n]),
            whole,
            n,
            drop,
        ),
{
    reveal(kept_from);
    let more = kept.push(whole[n]);
    assert forall|i: int| 0 <= i < kept.len() implies (#[trigger] kept[i]).0@ != whole[n].0@ by {
        let j = choose|j: int| n + 1 <= j < whole.len() && #[trigger] whole[j] == kept[i];
        assert(whole[n].0@ != whole[j].0@);
    }
    if !drop.contains(whole[n].0@) {
        assert forall|i: int, j: int| 0 <= i < j < more.len() implies (#[trigger] more[i]).0@ != (
        #[trigger] more[j]).0@ by {
            assert(more[i] == kept[i]);
            if j < kept.len() {
                assert(more[j] == kept[j]);
            }
        }
        assert forall|i: int| 0 <= i < more.len() implies !drop.contains((#[trigger] more[i]).0@)
            && exists|j: int| n <= j < whole.len() && #[trigger] whole[j] == more[i] by {
            if i < kept.len() {
                assert(more[i] == kept[i]);
                let j = choose|j: int| n + 1 <= j < whole.len() && #[trigger] whole[j] == kept[i];
                assert(whole[j] == more[i]);
            } else {
                assert(whole[n] == more[i]);
            }
        }
        assert forall|j: int|
            n <= j < whole.len() && !drop.contains((#[trigger] whole[j]).0@) implies exists|i: int|
            0 <= i < more.len() && #[trigger] more[i] == whole[j] by {
            if j == n {
                assert(more[kept.len() as int] == whole[j]);
            } else {
                let k = choose|k: int| 0 <= k < kept.len() && #[trigger] kept[k] == whole[j];
                assert(more[k] == whole[j]);
            }
        }
    }
}

proof fn lemma_kept_all<T>(
    kept: Seq<(CommitId, T)>,
    whole: Seq<(CommitId, T)>,
    drop: Set<Seq<u8>>,
)
    requires
        distinct_ids(whole),
        distinct_ids(kept),
        kept_from(kept, whole, 0, drop),
    ensures
        entries_map(kept) == entries_map(whole).remove_keys(drop),
{
    let have = entries_map(kept);
    let want = entries_map(whole).remove_keys(drop);
    assert forall|k: Seq<u8>| #[trigger] have.contains_key(k) implies want.contains_key(k)
        && have[k] == want[k] by {
        let i = lemma_position(kept, k);
        let j = lemma_kept_origin(kept, whole, drop, i);
        lemma_entry(whole, j);
        lemma_entry(kept, i);
    }
    assert forall|k: Seq<u8>| #[trigger] want.contains_key(k) implies have.contains_key(k) by {
        let j = lemma_position(whole, k);
        let i = lemma_kept_copy(kept, whole, drop, j);
        lemma_entry(kept, i);
    }
    assert(have =~= want);
}

proof fn lemma_kept_origin<T>(
    kept: Seq<(CommitId, T)>,
    whole: Seq<(CommitId, T)>,
    drop: Set<Seq<u8>>,
    i: int,
) -> (j: int)
    requires
        kept_from(kept, whole, 0, drop),
        0 <= i < kept.len(),
    ensures
        0 <= j < whole.len(),
        whole[j] == kept[i],
        !drop.contains(kept[i].0@),
{
    reveal(kept_from);
    choose|j: int| 0 <= j < whole.len() && #[trigger] whole[j] == kept[i]
}

proof fn lemma_kept_copy<T>(
    kept: Seq<(CommitId, T)>,
    whole: Seq<(CommitId, T)>,
    drop: Set<Seq<u8>>,
    j: int,
) -> (i: int)
    requires
        kept_from(kept, whole, 0, drop),
        0 <= j < whole.len(),
        !drop.contains(whole[j].0@),
    ensures
        0 <= i < kept.len(),
        kept[i] == whole[j],
{
    reveal(kept_from);
    choose|i: int| 0 <= i < kept.len() && #[trigger] kept[i] == whole[j]
}

proof fn lemma_entry<T>(entries: Seq<(CommitId, T)>, i: int)
    requires
        distinct_ids(entries),
        0 <= i < entries.len(),
    ensures
        entries_map(entries).contains_key(entries[i].0@),
        entries_map(entries)[entries[i].0@] == entries[i].1,
{
    lemma_entries_map(entries);
}

proof fn lemma_position<T>(entries: Seq<(CommitId, T)>, k: Seq<u8>) -> (i: int)
    requires
        distinct_ids(entries),
        entries_map(entries).contains_key(k),
    ensures
        0 <= i < entries.len(),
        entries[i].0@ == k,
{
    lemma_entries_map(entries);
    choose|i: int| 0 <= i < entries.len() && (#[trigger] entries[i]).0@ == k
}

/// The identifiers in a list.
pub open spec fn id_set(ids: Seq<CommitId>) -> Set<Seq<u8>> {
    ids.map_values(|id: CommitId| id@).to_set()
}

/// Whether an identifier is in a list.
pub fn has_id(ids: &Vec<CommitId>, id: &CommitId) -> (r: bool)
    ensures
        r == id_set(ids@).contains(id@),
{
    let ghost all = ids@.map_values(|id: CommitId| id@);
    let mut i: usize = 0;
    while i < ids.len()
        invariant
            i <= ids.len(),
            all == ids@.map_values(|id: CommitId| id@),
            forall|k: int| 0 <= k < i ==> (#[trigger] ids@[k])@ != id@,
        decreases ids.len() - i,
    {
        if ids[i].same(id) {
            assert(all[i as int] == id@);
            return true;
        }
        i = i + 1;
    }
    assert forall|k: int| 0 <= k < all.len() implies all[k] != id@ by {
        assert(all[k] == ids@[k]@);
    }
    false
}

} // verus!
