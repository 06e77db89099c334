use rust_crud_api::error::StoreError;
use rust_crud_api::route::Operation;
use rust_crud_api::store::{StoreReply, Table};
use rust_crud_api::user::{duplicate_all, User, UserFields};

fn user(id: i32, name: &str, email: &str) -> User {
    User { id, name: name.to_string(), email: email.to_string() }
}

fn fields(name: &str, email: &str) -> UserFields {
    UserFields { name: name.to_string(), email: email.to_string() }
}

#[test]
fn a_new_table_is_empty() {
    let table = Table::new();
    assert_eq!(table.list(), vec![]);
    assert_eq!(table.fetch(1), None);
}

#[test]
fn create_gives_out_ids_from_one_on() {
    let mut table = Table::new();
    assert_eq!(table.create(fields("a", "a@x")), Ok(1));
    assert_eq!(table.create(fields("b", "b@x")), Ok(2));
    assert_eq!(table.create(fields("a", "a@x")), Ok(3));
    assert_eq!(table.list(), vec![user(1, "a", "a@x"), user(2, "b", "b@x"), user(3, "a", "a@x")]);
}

#[test]
fn fetch_finds_a_user_by_id() {
    let mut table = Table::new();
    table.create(fields("a", "a@x")).unwrap();
    table.create(fields("b", "b@x")).unwrap();
    assert_eq!(table.fetch(2), Some(user(2, "b", "b@x")));
    assert_eq!(table.fetch(1), Some(user(1, "a", "a@x")));
    assert_eq!(table.fetch(3), None);
    assert_eq!(table.fetch(0), None);
    assert_eq!(table.fetch(-1), None);
}

#[test]
fn update_changes_name_and_email_in_place() {
    let mut table = Table::new();
    table.create(fields("a", "a@x")).unwrap();
    table.create(fields("b", "b@x")).unwrap();
    assert!(table.update(1, fields("A", "A@x")));
    assert_eq!(table.list(), vec![user(1, "A", "A@x"), user(2, "b", "b@x")]);
}

#[test]
fn update_of_a_missing_user_changes_nothing() {
    let mut table = Table::new();
    table.create(fields("a", "a@x")).unwrap();
    assert!(!table.update(2, fields("b", "b@x")));
    assert!(!table.update(0, fields("b", "b@x")));
    assert_eq!(table.list(), vec![user(1, "a", "a@x")]);
}

#[test]
fn delete_removes_a_user_once() {
    let mut table = Table::new();
    table.create(fields("a", "a@x")).unwrap();
    table.create(fields("b", "b@x")).unwrap();
    table.create(fields("c", "c@x")).unwrap();
    assert!(table.delete(2));
    assert_eq!(table.list(), vec![user(1, "a", "a@x"), user(3, "c", "c@x")]);
    assert!(!table.delete(2));
    assert_eq!(table.fetch(2), None);
    assert_eq!(table.list(), vec![user(1, "a", "a@x"), user(3, "c", "c@x")]);
}

#[test]
fn an_id_is_not_given_out_again() {
    let mut table = Table::new();
    table.create(fields("a", "a@x")).unwrap();
    assert!(table.delete(1));
    assert_eq!(table.create(fields("b", "b@x")), Ok(2));
    assert_eq!(table.fetch(1), None);
}

#[test]
fn execute_answers_each_operation() {
    let mut table = Table::new();
    assert_eq!(table.execute(&Operation::List), StoreReply::Listed(vec![]));
    assert_eq!(table.execute(&Operation::Create(fields("a", "a@x"))), StoreReply::Created(1));
    assert_eq!(table.execute(&Operation::Fetch(1)), StoreReply::Fetched(Some(user(1, "a", "a@x"))));
    assert_eq!(table.execute(&Operation::Fetch(2)), StoreReply::Fetched(None));
    assert_eq!(table.execute(&Operation::Update(1, fields("b", "b@x"))), StoreReply::Updated(true));
    assert_eq!(table.execute(&Operation::Update(2, fields("b", "b@x"))), StoreReply::Updated(false));
    assert_eq!(table.execute(&Operation::List), StoreReply::Listed(vec![user(1, "b", "b@x")]));
    assert_eq!(table.execute(&Operation::Delete(1)), StoreReply::Deleted(true));
    assert_eq!(table.execute(&Operation::Delete(1)), StoreReply::Deleted(false));
    assert_eq!(table.execute(&Operation::List), StoreReply::Listed(vec![]));
}

#[test]
fn store_errors_are_told_apart() {
    assert_ne!(StoreError::Unavailable, StoreError::Rejected);
}

#[test]
fn copies_have_the_same_content() {
    let u = user(4, "a", "b");
    assert_eq!(u.duplicate(), u);
    let f = fields("a", "b");
    assert_eq!(f.duplicate(), f);
    assert_eq!(f.with_id(9), user(9, "a", "b"));
    let all = vec![user(1, "a", "b"), user(2, "c", "d")];
    assert_eq!(duplicate_all(&all), all);
}

#[test]
fn fields_are_valid_when_both_texts_are_there() {
    assert!(fields("a", "b").is_valid());
    assert!(!fields("", "b").is_valid());
    assert!(!fields("a", "").is_valid());
    assert!(!fields("", "").is_valid());
}

#[test]
fn a_table_is_made_of_rows_in_ascending_order() {
    let rows = vec![user(2, "a", "a@x"), user(5, "b", "b@x")];
    let mut table = Table::from_rows(rows.clone()).unwrap();
    assert_eq!(table.list(), rows);
    assert_eq!(table.fetch(5), Some(user(5, "b", "b@x")));
    assert_eq!(table.fetch(3), None);
    assert_eq!(table.create(fields("c", "c@x")), Ok(6));
    let mut empty = Table::from_rows(vec![]).unwrap();
    assert_eq!(empty.create(fields("c", "c@x")), Ok(1));
}

#[test]
fn rows_out_of_order_make_no_table() {
    assert!(Table::from_rows(vec![user(2, "a", "a@x"), user(1, "b", "b@x")]).is_none());
    assert!(Table::from_rows(vec![user(1, "a", "a@x"), user(1, "b", "b@x")]).is_none());
    assert!(Table::from_rows(vec![user(0, "a", "a@x")]).is_none());
    assert!(Table::from_rows(vec![user(-4, "a", "a@x"), user(1, "b", "b@x")]).is_none());
}

#[test]
fn a_table_without_an_id_left_refuses_to_create() {
    let mut table = Table::from_rows(vec![user(2147483646, "a", "a@x")]).unwrap();
    assert_eq!(table.create(fields("b", "b@x")), Ok(2147483647));
    assert_eq!(table.create(fields("c", "c@x")), Err(StoreError::Rejected));
    assert_eq!(
        table.execute(&Operation::Create(fields("c", "c@x"))),
        StoreReply::Failed(StoreError::Rejected)
    );
    assert_eq!(table.list(), vec![user(2147483646, "a", "a@x"), user(2147483647, "b", "b@x")]);
    assert!(table.delete(2147483647));
    assert_eq!(table.create(fields("c", "c@x")), Err(StoreError::Rejected));
}

#[test]
fn a_failure_is_one_of_two_kinds() {
    assert_eq!(StoreError::of_failure(true), StoreError::Rejected);
    assert_eq!(StoreError::of_failure(false), StoreError::Unavailable);
}
