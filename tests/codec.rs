use bson::{Bson, Document};
use todo_store::document::{id_filter, text_or_empty};
use todo_store::task::{
    build_task, task_from_document, task_from_found, task_to_document, task_update_documents,
    tasks_from_scan, Task,
};
use todo_store::user::{
    build_user, email_filter, user_from_document, user_from_found, user_to_document,
    user_update_documents, users_from_scan, User,
};

fn hela() -> User {
    build_user(
        "u1".to_string(),
        "hela@x.com".to_string(),
        "hela".to_string(),
        "pw".to_string(),
    )
}

fn milk() -> Task {
    build_task(
        "t1".to_string(),
        "u1".to_string(),
        "buy milk".to_string(),
        "".to_string(),
        "pending".to_string(),
    )
}

#[test]
fn build_user_places_each_argument() {
    let u = hela();
    assert_eq!(u.id, "u1");
    assert_eq!(u.email, "hela@x.com");
    assert_eq!(u.user_name, "hela");
    assert_eq!(u.password, "pw");
}

#[test]
fn build_task_places_each_argument() {
    let t = milk();
    assert_eq!(t.id, "t1");
    assert_eq!(t.user_id, "u1");
    assert_eq!(t.title, "buy milk");
    assert_eq!(t.description, "");
    assert_eq!(t.todo, "pending");
}

#[test]
fn user_document_layout() {
    let d = user_to_document(&hela());
    assert_eq!(d.len(), 4);
    assert_eq!(d.get_str("_id").unwrap(), "u1");
    assert_eq!(d.get_str("username").unwrap(), "hela");
    assert_eq!(d.get_str("password").unwrap(), "pw");
    assert_eq!(d.get_str("email").unwrap(), "hela@x.com");
    assert!(!d.contains_key("id"));
    assert!(!d.contains_key("user_name"));
}

#[test]
fn task_document_layout() {
    let d = task_to_document(&milk());
    assert_eq!(d.len(), 5);
    assert_eq!(d.get_str("_id").unwrap(), "t1");
    assert_eq!(d.get_str("title").unwrap(), "buy milk");
    assert_eq!(d.get_str("description").unwrap(), "");
    assert_eq!(d.get_str("user_id").unwrap(), "u1");
    assert_eq!(d.get_str("todo").unwrap(), "pending");
}

#[test]
fn user_round_trip() {
    let u = hela();
    assert_eq!(user_from_document(user_to_document(&u)), u);
    let odd = build_user("".to_string(), "é@ü".to_string(), "a b".to_string(), "\"q\"".to_string());
    assert_eq!(user_from_document(user_to_document(&odd)), odd);
}

#[test]
fn task_round_trip() {
    let t = milk();
    assert_eq!(task_from_document(task_to_document(&t)), t);
}

#[test]
fn task_missing_description_decodes_empty() {
    let mut d = Document::new();
    d.insert("_id", "t2");
    d.insert("title", "walk");
    d.insert("user_id", "u9");
    d.insert("todo", "done");
    let t = task_from_document(d);
    assert_eq!(t.description, "");
    assert_eq!(t.id, "t2");
    assert_eq!(t.title, "walk");
    assert_eq!(t.user_id, "u9");
    assert_eq!(t.todo, "done");
}

#[test]
fn task_non_string_title_decodes_empty() {
    let mut d = task_to_document(&milk());
    d.insert("title", Bson::I32(7));
    let t = task_from_document(d);
    assert_eq!(t.title, "");
    assert_eq!(t.id, "t1");
    assert_eq!(t.todo, "pending");
}

#[test]
fn numeric_id_decodes_empty() {
    let mut d = user_to_document(&hela());
    d.insert("_id", Bson::I64(42));
    let u = user_from_document(d);
    assert_eq!(u.id, "");
    assert_eq!(u.user_name, "hela");
}

#[test]
fn empty_document_decodes_to_empty_record() {
    let u = user_from_document(Document::new());
    assert_eq!(u, build_user(String::new(), String::new(), String::new(), String::new()));
    let t = task_from_document(Document::new());
    assert_eq!(t.id, "");
    assert_eq!(t.title, "");
}

#[test]
fn scan_keeps_partial_document() {
    let mut partial = Document::new();
    partial.insert("_id", "u2");
    partial.insert("username", "bob");
    partial.insert("password", "x");
    let users = users_from_scan(vec![Some(user_to_document(&hela())), Some(partial)]);
    assert_eq!(users.len(), 2);
    assert_eq!(users[0], hela());
    assert_eq!(users[1].id, "u2");
    assert_eq!(users[1].user_name, "bob");
    assert_eq!(users[1].email, "");
}

#[test]
fn scan_skips_unreadable_items() {
    let users = users_from_scan(vec![None, Some(user_to_document(&hela())), None]);
    assert_eq!(users, vec![hela()]);
    assert!(users_from_scan(Vec::new()).is_empty());
    assert!(tasks_from_scan(vec![None, None]).is_empty());
}

#[test]
fn task_scan_includes_created_task() {
    let other = build_task(
        "t0".to_string(),
        "u2".to_string(),
        "a".to_string(),
        "b".to_string(),
        "c".to_string(),
    );
    let tasks = tasks_from_scan(vec![Some(task_to_document(&other)), Some(task_to_document(&milk()))]);
    assert_eq!(tasks.len(), 2);
    assert!(tasks.contains(&milk()));
    assert_eq!(tasks[0], other);
}

#[test]
fn lookup_not_found_is_empty() {
    assert_eq!(user_from_found(None), None);
    assert_eq!(task_from_found(None), None);
    assert_eq!(user_from_found(Some(user_to_document(&hela()))), Some(hela()));
    assert_eq!(task_from_found(Some(task_to_document(&milk()))), Some(milk()));
}

#[test]
fn update_keys_on_id_and_replaces_every_field() {
    let changed = build_user("u1".to_string(), "n@x.com".to_string(), "hela2".to_string(), "pw2".to_string());
    let (filter, replacement) = user_update_documents(&changed);
    assert_eq!(filter.len(), 1);
    assert_eq!(filter.get_str("_id").unwrap(), "u1");
    let stored = user_from_document(replacement);
    assert_eq!(stored, changed);
    assert_eq!(stored.id, "u1");

    let t = build_task("t1".to_string(), "u3".to_string(), "x".to_string(), "y".to_string(), "z".to_string());
    let (filter, replacement) = task_update_documents(&t);
    assert_eq!(filter.len(), 1);
    assert_eq!(filter.get_str("_id").unwrap(), "t1");
    assert_eq!(task_from_document(replacement), t);
}

#[test]
fn user_lifecycle_documents() {
    let u = hela();
    let stored = user_to_document(&u);
    assert_eq!(user_from_found(Some(stored)), Some(u.clone()));
    let mut changed = u.clone();
    changed.user_name = "hela2".to_string();
    let (filter, replacement) = user_update_documents(&changed);
    assert_eq!(filter.get_str("_id").unwrap(), "u1");
    let after = user_from_found(Some(replacement)).unwrap();
    assert_eq!(after.user_name, "hela2");
    assert_eq!(after.id, "u1");
    let del = email_filter("hela@x.com");
    assert_eq!(del.len(), 1);
    assert_eq!(del.get_str("email").unwrap(), "hela@x.com");
}

#[test]
fn id_filter_holds_only_the_key() {
    let f = id_filter("nonexistent");
    assert_eq!(f.len(), 1);
    assert_eq!(f.get_str("_id").unwrap(), "nonexistent");
}

#[test]
fn document_text_access() {
    let mut d = Document::new();
    d.insert("a", "one");
    d.insert("a", "two");
    d.insert("n", Bson::Boolean(true));
    d.insert("z", Bson::Null);
    assert_eq!(text_or_empty(&d, "a"), "two");
    assert_eq!(text_or_empty(&d, "n"), "");
    assert_eq!(text_or_empty(&d, "z"), "");
    assert_eq!(text_or_empty(&d, "missing"), "");
}

fn keys_of(d: &Document) -> Vec<String> {
    d.keys().cloned().collect()
}

#[test]
fn user_document_key_order() {
    let d = user_to_document(&hela());
    assert_eq!(keys_of(&d), vec!["_id", "username", "password", "email"]);
    let (filter, replacement) = user_update_documents(&hela());
    assert_eq!(keys_of(&filter), vec!["_id"]);
    assert_eq!(keys_of(&replacement), vec!["_id", "username", "password", "email"]);
    assert_eq!(keys_of(&email_filter("a@b")), vec!["email"]);
}

#[test]
fn task_document_key_order() {
    let d = task_to_document(&milk());
    assert_eq!(keys_of(&d), vec!["_id", "title", "description", "user_id", "todo"]);
    let (filter, replacement) = task_update_documents(&milk());
    assert_eq!(keys_of(&filter), vec!["_id"]);
    assert_eq!(keys_of(&replacement), vec!["_id", "title", "description", "user_id", "todo"]);
}

#[test]
fn well_formed_user_document_round_trip() {
    let mut d = Document::new();
    d.insert("_id", "u7");
    d.insert("username", "ann");
    d.insert("password", "s3");
    d.insert("email", "ann@x.com");
    assert_eq!(user_to_document(&user_from_document(d.clone())), d);
}

#[test]
fn well_formed_task_document_round_trip() {
    let mut d = Document::new();
    d.insert("_id", "t7");
    d.insert("title", "read");
    d.insert("description", "a book");
    d.insert("user_id", "u7");
    d.insert("todo", "open");
    assert_eq!(task_to_document(&task_from_document(d.clone())), d);
}
