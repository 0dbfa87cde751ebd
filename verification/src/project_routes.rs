//! The requests on the project table: what each does to the table and how
//! it is answered.

use vstd::prelude::*;
use crate::projects::{after_create, after_delete, after_edit, has_key, Project};
use crate::reply::Reply;
use crate::text::chars_of;
use crate::uuid_text::{
    hyphenated_text, is_random_uuid, lemma_parse_hyphenated, parse_uuid, random_uuid, uuid_from_text,
};

verus! {

/// The body of a request to add a project.
pub struct ProjectCreateData {
    pub name: String,
}

/// The body of a request to remove a project: its key, as text.
pub struct ProjectDeleteData {
    pub key: String,
}

/// Adds a project with the given name and a fresh random (version 4) key;
/// answered with success, or as a conflict (and nothing added) in the
/// unlikely case that a project has the drawn key already.
pub fn create(list: &mut Vec<Project>, data: ProjectCreateData) -> (r: Reply)
    ensures
        r == Reply::Success || r == Reply::Conflict,
        r == Reply::Conflict ==> final(list)@ == old(list)@,
        r == Reply::Conflict ==> exists|k: u128| is_random_uuid(k) && #[trigger] has_key(old(list)@, k),
        exists|k: u128|
            {
                &&& #[trigger] is_random_uuid(k)
                &&& r == (if has_key(old(list)@, k) { Reply::Conflict } else { Reply::Success })
                &&& final(list)@ == after_create(old(list)@, (Project { name: data.name, key: k }))
            },
        r == Reply::Success ==> {
            &&& final(list)@.len() == old(list)@.len() + 1
            &&& final(list)@.drop_last() == old(list)@
            &&& final(list)@.last().name == data.name
            &&& is_random_uuid(final(list)@.last().key)
            &&& !has_key(old(list)@, final(list)@.last().key)
        },
{
    let key = random_uuid();
    let project = Project { name: data.name, key };
    let ghost before = list@;
    if !Project::create(list, project) {
        return Reply::Conflict;
    }
    assert(list@.drop_last() =~= before);
    Reply::Success
}

/// Replaces the project with the key of `data` by `data`; answered with
/// success, or as a bad request where no project has that key.
pub fn edit(list: &mut Vec<Project>, data: Project) -> (r: Reply)
    ensures
        r == (if has_key(old(list)@, data.key) { Reply::Success } else { Reply::BadRequest }),
        final(list)@ == after_edit(old(list)@, data),
{
    if !Project::edit(list, data) {
        return Reply::BadRequest;
    }
    Reply::Success
}

/// Removes the project whose key the request gives as text; answered as a
/// bad request where the text is not a UUID or no project has that key.
pub fn delete(list: &mut Vec<Project>, data: &ProjectDeleteData) -> (r: Reply)
    ensures
        match uuid_from_text(data.key@) {
            None => r == Reply::BadRequest && final(list)@ == old(list)@,
            Some(k) => {
                &&& r == (if has_key(old(list)@, k) { Reply::Success } else { Reply::BadRequest })
                &&& final(list)@ == after_delete(old(list)@, k)
            },
        },
        forall|k: u128|
            #[trigger] hyphenated_text(k) == data.key@ ==> final(list)@ == after_delete(old(list)@, k),
{
    let text = chars_of(data.key.as_str());
    proof {
        assert forall|k: u128| #[trigger] hyphenated_text(k) == data.key@ implies uuid_from_text(
            data.key@,
        ) == Some(k) by {
            lemma_parse_hyphenated(k);
        }
    }
    match parse_uuid(&text) {
        None => Reply::BadRequest,
        Some(k) => {
            if !Project::delete(list, k) {
                return Reply::BadRequest;
            }
            Reply::Success
        },
    }
}

} // verus!
