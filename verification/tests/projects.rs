use admin_api::project_routes::{self, ProjectCreateData, ProjectDeleteData};
use admin_api::projects::Project;
use admin_api::reply::Reply;

fn p(name: &str, key: u128) -> Project {
    Project { name: name.to_string(), key }
}

fn names(list: &Vec<Project>) -> Vec<(String, u128)> {
    list.iter().map(|p| (p.name.clone(), p.key)).collect()
}

#[test]
fn create_appends_at_the_end() {
    let mut list = vec![p("a", 1)];
    assert!(Project::create(&mut list, p("b", 2)));
    assert_eq!(names(&list), vec![("a".to_string(), 1), ("b".to_string(), 2)]);
}

#[test]
fn create_refuses_taken_key() {
    let mut list = vec![p("a", 1), p("b", 2)];
    assert!(!Project::create(&mut list, p("again", 2)));
    assert_eq!(names(&list), vec![("a".to_string(), 1), ("b".to_string(), 2)]);
}

#[test]
fn delete_removes_first_with_key() {
    let mut list = vec![p("a", 1), p("b", 2), p("c", 2), p("d", 3)];
    assert!(Project::delete(&mut list, 2));
    assert_eq!(
        names(&list),
        vec![("a".to_string(), 1), ("c".to_string(), 2), ("d".to_string(), 3)]
    );
}

#[test]
fn delete_missing_key_keeps_table() {
    let mut list = vec![p("a", 1), p("b", 2)];
    assert!(!Project::delete(&mut list, 9));
    assert_eq!(names(&list), vec![("a".to_string(), 1), ("b".to_string(), 2)]);
}

#[test]
fn delete_on_empty_table() {
    let mut list: Vec<Project> = vec![];
    assert!(!Project::delete(&mut list, 0));
    assert!(list.is_empty());
}

#[test]
fn edit_replaces_first_with_key() {
    let mut list = vec![p("a", 1), p("b", 2), p("c", 2)];
    assert!(Project::edit(&mut list, p("renamed", 2)));
    assert_eq!(
        names(&list),
        vec![("a".to_string(), 1), ("renamed".to_string(), 2), ("c".to_string(), 2)]
    );
}

#[test]
fn edit_missing_key_keeps_table() {
    let mut list = vec![p("a", 1)];
    assert!(!Project::edit(&mut list, p("x", 5)));
    assert_eq!(names(&list), vec![("a".to_string(), 1)]);
}

#[test]
fn edit_twice_is_edit_once() {
    let mut once = vec![p("a", 1), p("b", 2)];
    Project::edit(&mut once, p("z", 2));
    let mut twice = vec![p("a", 1), p("b", 2)];
    Project::edit(&mut twice, p("z", 2));
    Project::edit(&mut twice, p("z", 2));
    assert_eq!(names(&once), names(&twice));
}

#[test]
fn delete_undoes_create_of_fresh_key() {
    let mut list = vec![p("a", 1), p("b", 2)];
    Project::create(&mut list, p("new", 7));
    assert!(Project::delete(&mut list, 7));
    assert_eq!(names(&list), vec![("a".to_string(), 1), ("b".to_string(), 2)]);
}

#[test]
fn created_project_is_found() {
    let mut list = vec![p("a", 1)];
    Project::create(&mut list, p("b", 42));
    assert_eq!(Project::position(&list, 42), Some(1));
    assert_eq!(Project::position(&list, 43), None);
}

#[test]
fn route_create_adds_named_project_with_random_key() {
    let mut list = vec![p("a", 1)];
    let r = project_routes::create(&mut list, ProjectCreateData { name: "site".to_string() });
    assert_eq!(r, Reply::Success);
    assert_eq!(list.len(), 2);
    assert_eq!(list[1].name, "site");
    let key = list[1].key;
    assert_eq!((key >> 76) & 0xf, 4);
    assert_eq!((key >> 62) & 0x3, 2);
    let mut again = vec![];
    project_routes::create(&mut again, ProjectCreateData { name: "site".to_string() });
    assert_ne!(again[0].key, list[1].key);
}

#[test]
fn route_edit_answers() {
    let mut list = vec![p("a", 1)];
    assert_eq!(project_routes::edit(&mut list, p("b", 1)), Reply::Success);
    assert_eq!(list[0].name, "b");
    assert_eq!(project_routes::edit(&mut list, p("c", 2)), Reply::BadRequest);
    assert_eq!(list[0].name, "b");
}

#[test]
fn route_delete_parses_hyphenated_key() {
    let key: u128 = 0x67e5504410b1426f9247bb680e5fe0c8;
    let mut list = vec![p("a", 1), p("b", key)];
    let data = ProjectDeleteData { key: "67e55044-10b1-426f-9247-bb680e5fe0c8".to_string() };
    assert_eq!(project_routes::delete(&mut list, &data), Reply::Success);
    assert_eq!(names(&list), vec![("a".to_string(), 1)]);
    assert_eq!(project_routes::delete(&mut list, &data), Reply::BadRequest);
}

#[test]
fn route_delete_accepts_simple_and_upper_case_key() {
    let key: u128 = 0x67e5504410b1426f9247bb680e5fe0c8;
    let mut list = vec![p("b", key)];
    let data = ProjectDeleteData { key: "67E5504410B1426F9247BB680E5FE0C8".to_string() };
    assert_eq!(project_routes::delete(&mut list, &data), Reply::Success);
    assert!(list.is_empty());
}

#[test]
fn route_delete_rejects_text_that_is_no_uuid() {
    let mut list = vec![p("a", 1)];
    for bad in ["", "1", "not-a-uuid", "67e55044-10b1-426f-9247-bb680e5fe0c"] {
        let data = ProjectDeleteData { key: bad.to_string() };
        assert_eq!(project_routes::delete(&mut list, &data), Reply::BadRequest);
    }
    assert_eq!(list.len(), 1);
}
