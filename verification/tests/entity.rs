use todo_repository::entity::{
    CreateLabel, CreateTodo, Todo, TodoEntity, UpdateTodo, TEXT_MAX, TEXT_MIN,
};
use todo_repository::error::{BackendFailure, RepositoryError};

#[test]
fn text_bounds() {
    assert_eq!(TEXT_MIN, 1);
    assert_eq!(TEXT_MAX, 100);
}

#[test]
fn create_todo_checks_the_length_of_its_text() {
    assert!(!CreateTodo::new(String::new(), vec![]).is_valid());
    assert!(CreateTodo::new("a".to_string(), vec![]).is_valid());
    assert!(CreateTodo::new("a".repeat(100), vec![1, 2]).is_valid());
    assert!(!CreateTodo::new("a".repeat(101), vec![]).is_valid());
}

#[test]
fn length_is_counted_in_characters() {
    let hundred = "\u{3042}".repeat(100);
    assert_eq!(hundred.len(), 300);
    assert!(CreateTodo::new(hundred, vec![]).is_valid());
    assert!(!CreateTodo::new("\u{3042}".repeat(101), vec![]).is_valid());
    assert!(CreateLabel { name: "\u{e9}".to_string() }.is_valid());
}

#[test]
fn update_todo_checks_a_text_that_is_given() {
    let none = UpdateTodo { text: None, completed: None, labels: None };
    assert!(none.is_valid());
    let empty = UpdateTodo { text: Some(String::new()), completed: None, labels: None };
    assert!(!empty.is_valid());
    let fine = UpdateTodo { text: Some("x".repeat(100)), completed: Some(true), labels: None };
    assert!(fine.is_valid());
    let long = UpdateTodo { text: Some("x".repeat(101)), completed: None, labels: Some(vec![]) };
    assert!(!long.is_valid());
}

#[test]
fn create_label_checks_the_length_of_its_name() {
    assert!(!CreateLabel { name: String::new() }.is_valid());
    assert!(CreateLabel { name: "n".to_string() }.is_valid());
    assert!(CreateLabel { name: "n".repeat(100) }.is_valid());
    assert!(!CreateLabel { name: "n".repeat(101) }.is_valid());
}

#[test]
fn new_records_are_not_completed() {
    let todo = Todo::new(3, "t".to_string());
    assert_eq!(todo, Todo { id: 3, text: "t".to_string(), completed: false });
    let entity = TodoEntity::new(3, "t".to_string());
    assert_eq!(entity.id, 3);
    assert_eq!(entity.text, "t");
    assert!(!entity.completed);
    assert!(entity.labels.is_empty());
}

#[test]
fn clones_hold_the_same() {
    let payload = CreateTodo::new("t".to_string(), vec![3, 1]);
    assert_eq!(payload.clone(), payload);
    let update = UpdateTodo { text: Some("u".to_string()), completed: None, labels: Some(vec![2]) };
    assert_eq!(update.clone(), update);
    let mut entity = TodoEntity::new(1, "e".to_string());
    entity.completed = true;
    let copy = entity.clone();
    assert_eq!(copy.text, "e");
    assert!(copy.completed);
    let error = RepositoryError::Unexpected("m".to_string());
    assert_eq!(error.clone(), error);
}

#[test]
fn missing_row_of_an_id_is_not_found() {
    let failure = BackendFailure { row_not_found: true, message: "m".to_string() };
    assert_eq!(
        RepositoryError::from_failure(Some(5), failure.clone()),
        RepositoryError::NotFound(5)
    );
    assert_eq!(
        RepositoryError::from_failure(None, failure),
        RepositoryError::Unexpected("m".to_string())
    );
}

#[test]
fn other_failures_are_unexpected() {
    let failure = BackendFailure { row_not_found: false, message: "broken".to_string() };
    assert_eq!(
        RepositoryError::from_failure(Some(5), failure.clone()),
        RepositoryError::Unexpected("broken".to_string())
    );
    assert_eq!(
        RepositoryError::from_failure(None, failure),
        RepositoryError::Unexpected("broken".to_string())
    );
}

#[test]
fn driver_errors_are_mapped() {
    assert_eq!(
        RepositoryError::from_backend(7, &sqlx::Error::RowNotFound),
        RepositoryError::NotFound(7)
    );
    assert_eq!(
        RepositoryError::from_backend(7, &sqlx::Error::PoolTimedOut),
        RepositoryError::Unexpected(
            "pool timed out while waiting for an open connection".to_string()
        )
    );
    assert_eq!(
        RepositoryError::from_backend(7, &sqlx::Error::Protocol("bad frame".to_string())),
        RepositoryError::Unexpected(
            "encountered unexpected or invalid data: bad frame".to_string()
        )
    );
}

#[test]
fn driver_errors_are_described() {
    let missing = BackendFailure::describe(&sqlx::Error::RowNotFound);
    assert!(missing.row_not_found);
    assert_eq!(
        missing.message,
        "no rows returned by a query that expected to return at least one row"
    );
    let closed = BackendFailure::describe(&sqlx::Error::PoolClosed);
    assert!(!closed.row_not_found);
    assert_eq!(closed.message, "attempted to acquire a connection on a closed pool");
}
