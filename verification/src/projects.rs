//! The table of projects: a list of named projects, each with a unique key.

use vstd::prelude::*;

verus! {

/// A tracked project.
pub struct Project {
    /// Project title.
    pub name: String,
    /// Unique identifier (a UUID).
    pub key: u128,
}

/// Whether some project of `s` has the key.
pub open spec fn has_key(s: Seq<Project>, key: u128) -> bool {
    exists|i: int| 0 <= i < s.len() && s[i].key == key
}

/// Whether `i` is the first position in `s` of a project with the key.
pub open spec fn is_first_with_key(s: Seq<Project>, key: u128, i: int) -> bool {
    &&& 0 <= i < s.len()
    &&& s[i].key == key
    &&& forall|j: int| 0 <= j < i ==> s[j].key != key
}

/// The first position in `s` of a project with the key (meaningful where
/// [`has_key`] holds).
pub open spec fn first_with_key(s: Seq<Project>, key: u128) -> int {
    choose|i: int| is_first_with_key(s, key, i)
}

/// No two projects of `s` share a key.
pub open spec fn keys_distinct(s: Seq<Project>) -> bool {
    forall|i: int, j: int| 0 <= i < j < s.len() ==> s[i].key != s[j].key
}

/// The table after a project is added, where its key is not taken.
pub open spec fn after_create(s: Seq<Project>, p: Project) -> Seq<Project> {
    if has_key(s, p.key) {
        s
    } else {
        s.push(p)
    }
}

/// The table after the first project with the key is removed, where there is one.
pub open spec fn after_delete(s: Seq<Project>, key: u128) -> Seq<Project> {
    if has_key(s, key) {
        s.remove(first_with_key(s, key))
    } else {
        s
    }
}

/// The table after the first project with `p`'s key is replaced by `p`,
/// where there is one.
pub open spec fn after_edit(s: Seq<Project>, p: Project) -> Seq<Project> {
    if has_key(s, p.key) {
        s.update(first_with_key(s, p.key), p)
    } else {
        s
    }
}

/// The first position is unique, so [`first_with_key`] names it.
pub proof fn lemma_first_with_key(s: Seq<Project>, key: u128, i: int)
    requires
        is_first_with_key(s, key, i),
    ensures
        first_with_key(s, key) == i,
        has_key(s, key),
{
    let j = first_with_key(s, key);
    assert(is_first_with_key(s, key, j));
    if j < i {
        assert(s[j].key != key);
    } else if i < j {
        assert(s[i].key != key);
    }
}

/// Where some project has the key, a first one does.
pub proof fn lemma_has_key_first(s: Seq<Project>, key: u128)
    requires
        has_key(s, key),
    ensures
        is_first_with_key(s, key, first_with_key(s, key)),
    decreases s.len(),
{
    let k = choose|k: int| 0 <= k < s.len() && s[k].key == key;
    let d = s.drop_last();
    if has_key(d, key) {
        lemma_has_key_first(d, key);
        let i = first_with_key(d, key);
        assert forall|j: int| 0 <= j < i implies s[j].key != key by {
            assert(s[j] == d[j]);
        }
        assert(s[i] == d[i]);
        lemma_first_with_key(s, key, i);
    } else {
        if k < s.len() - 1 {
            assert(d[k] == s[k]);
        }
        assert forall|j: int| 0 <= j < k implies s[j].key != key by {
            assert(s[j] == d[j]);
        }
        lemma_first_with_key(s, key, k);
    }
}

impl Project {
    /// The first position of a project with the key, if any.
    pub fn position(list: &Vec<Project>, key: u128) -> (r: Option<usize>)
        ensures
            match r {
                Some(i) => is_first_with_key(list@, key, i as int),
                None => !has_key(list@, key),
            },
    {
        let mut i: usize = 0;
        while i < list.len()
            invariant
                i <= list@.len(),
                forall|j: int| 0 <= j < i ==> list@[j].key != key,
            decreases list@.len() - i,
        {
            if list[i].key == key {
                return Some(i);
            }
            i += 1;
        }
        None
    }

    /// Adds a project at the end of the table, where no project has its key
    /// yet.  Returns whether it was added; where not, the table is left as it
    /// was.
    pub fn create(list: &mut Vec<Project>, data: Project) -> (r: bool)
        ensures
            r == !has_key(old(list)@, data.key),
            final(list)@ == after_create(old(list)@, data),
    {
        if Project::position(list, data.key).is_some() {
            return false;
        }
        list.push(data);
        true
    }

    /// Removes the first project with the key.  Returns whether there was
    /// one; where there was none the table is left as it was.
    pub fn delete(list: &mut Vec<Project>, key: u128) -> (r: bool)
        ensures
            r == has_key(old(list)@, key),
            final(list)@ == after_delete(old(list)@, key),
    {
        match Project::position(list, key) {
            None => false,
            Some(i) => {
                proof {
                    lemma_first_with_key(list@, key, i as int);
                }
                list.remove(i);
                true
            },
        }
    }

    /// Replaces the first project with the key of `data` by `data`.  Returns
    /// whether there was one; where there was none the table is left as it was.
    pub fn edit(list: &mut Vec<Project>, data: Project) -> (r: bool)
        ensures
            r == has_key(old(list)@, data.key),
            final(list)@ == after_edit(old(list)@, data),
    {
        match Project::position(list, data.key) {
            None => false,
            Some(i) => {
                proof {
                    lemma_first_with_key(list@, data.key, i as int);
                }
                list.set(i, data);
                true
            },
        }
    }
}

/// After a create, a project with the key is in the table; where the key
/// was free, it is the new project, at the end.
pub proof fn law_created_project_is_found(s: Seq<Project>, p: Project)
    ensures
        has_key(after_create(s, p), p.key),
        !has_key(s, p.key) ==> after_create(s, p).last() == p,
{
    if !has_key(s, p.key) {
        assert(after_create(s, p)[s.len() as int] == p);
    }
}

/// Creating keeps the keys of the table distinct.
pub proof fn law_create_keeps_keys_distinct(s: Seq<Project>, p: Project)
    requires
        keys_distinct(s),
    ensures
        keys_distinct(after_create(s, p)),
{
    if !has_key(s, p.key) {
        let t = after_create(s, p);
        assert forall|i: int, j: int| 0 <= i < j < t.len() implies t[i].key != t[j].key by {
            assert(t[i] == s[i]);
            if j < s.len() {
                assert(t[j] == s[j]);
            }
        }
    }
}

/// Deleting by a key that was not in the table undoes adding a project with
/// that key.
pub proof fn law_delete_undoes_create(s: Seq<Project>, p: Project)
    requires
        !has_key(s, p.key),
    ensures
        after_delete(after_create(s, p), p.key) == s,
{
    let t = after_create(s, p);
    assert(is_first_with_key(t, p.key, s.len() as int));
    lemma_first_with_key(t, p.key, s.len() as int);
    assert(t.remove(s.len() as int) =~= s);
}

/// Deleting removes exactly one project where the key is there, and keeps
/// the others in their order; the removed one had the key.
pub proof fn law_delete_removes_one(s: Seq<Project>, key: u128)
    requires
        has_key(s, key),
    ensures
        after_delete(s, key).len() == s.len() - 1,
        s[first_with_key(s, key)].key == key,
        forall|j: int| 0 <= j < first_with_key(s, key) ==> #[trigger] after_delete(s, key)[j] == s[j],
        forall|j: int|
            first_with_key(s, key) <= j < s.len() - 1 ==> #[trigger] after_delete(s, key)[j] == s[j + 1],
{
    lemma_has_key_first(s, key);
}

/// Editing keeps the length of the table and every key in it, and what is
/// then at the edited position is the new project.
pub proof fn law_edit_keeps_keys(s: Seq<Project>, p: Project)
    ensures
        after_edit(s, p).len() == s.len(),
        forall|j: int| 0 <= j < s.len() ==> #[trigger] after_edit(s, p)[j].key == s[j].key,
        has_key(s, p.key) ==> after_edit(s, p)[first_with_key(s, p.key)] == p,
{
    if has_key(s, p.key) {
        lemma_has_key_first(s, p.key);
    }
}

/// Editing twice with the same project is editing once.
pub proof fn law_edit_idempotent(s: Seq<Project>, p: Project)
    ensures
        after_edit(after_edit(s, p), p) == after_edit(s, p),
{
    if has_key(s, p.key) {
        lemma_has_key_first(s, p.key);
        let i = first_with_key(s, p.key);
        let t = after_edit(s, p);
        assert(is_first_with_key(t, p.key, i));
        lemma_first_with_key(t, p.key, i);
        assert(t.update(i, p) =~= t);
    }
}

/// Deleting a key leaves no project with it where it was there once, and
/// leaves the table as it was where it was not there.
pub proof fn law_delete_unique_key_gone(s: Seq<Project>, key: u128)
    requires
        keys_distinct(s),
    ensures
        !has_key(after_delete(s, key), key),
{
    if has_key(s, key) {
        lemma_has_key_first(s, key);
        let i = first_with_key(s, key);
        let t = after_delete(s, key);
        if has_key(t, key) {
            let k = choose|k: int| 0 <= k < t.len() && t[k].key == key;
            if k < i {
                assert(t[k] == s[k]);
            } else {
                assert(t[k] == s[k + 1]);
            }
        }
    }
}

} // verus!
