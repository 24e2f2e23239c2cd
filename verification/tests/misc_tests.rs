use daggerboard::error::AppError;
use daggerboard::migration::{pending_migrations, LATEST_SCHEMA_VERSION};
use daggerboard::state_manager::read_items;

#[test]
fn read_items_without_filter_copies_everything() {
    let items: Vec<i32> = vec![3, 1, 4, 1, 5];
    let none: Option<fn(&i32) -> bool> = None;
    let out = read_items(&items, none).unwrap();
    assert_eq!(out, items);
}

#[test]
fn read_items_with_filter_keeps_matches() {
    let items: Vec<i32> = vec![3, 1, 4, 1, 5, 9, 2, 6];
    let out = read_items(&items, Some(|x: &i32| *x > 3)).unwrap();
    assert_eq!(out, vec![4, 5, 9, 6]);
}

#[test]
fn read_items_with_filter_on_strings() {
    let items: Vec<String> = vec!["alpha".to_string(), "beta".to_string(), "ash".to_string()];
    let out = read_items(&items, Some(|s: &String| s.starts_with('a'))).unwrap();
    assert_eq!(out, vec!["alpha".to_string(), "ash".to_string()]);
}

#[test]
fn pending_migrations_from_scratch() {
    let plan = pending_migrations(0);
    assert_eq!(plan, vec![1, 2, 3, 4, 5, 6, 7, 8, 9]);
    assert_eq!(*plan.last().unwrap(), LATEST_SCHEMA_VERSION);
}

#[test]
fn pending_migrations_partial_and_idempotent() {
    assert_eq!(pending_migrations(7), vec![8, 9]);
    assert_eq!(pending_migrations(LATEST_SCHEMA_VERSION), Vec::<i32>::new());
    assert_eq!(pending_migrations(LATEST_SCHEMA_VERSION + 5), Vec::<i32>::new());
}

#[test]
fn error_messages_carry_the_detail() {
    assert_eq!(
        AppError::EntityNotFound("e1".to_string()).message(),
        "Entity not found: e1"
    );
    assert_eq!(
        AppError::TrackerNotFound("t1".to_string()).message(),
        "Tracker not found: t1"
    );
    assert_eq!(
        AppError::InvalidOperation("No campaign selected".to_string()).message(),
        "Invalid operation: No campaign selected"
    );
    assert_eq!(
        AppError::OutOfRange("Tick out of range".to_string()).message(),
        "Value out of range: Tick out of range"
    );
    assert_eq!(AppError::Validation("v".to_string()).message(), "Validation error: v");
    assert_eq!(AppError::LockError("l".to_string()).message(), "State lock error: l");
    assert_eq!(
        AppError::PersistenceError("p".to_string()).message(),
        "Persistence error: p"
    );
    assert_eq!(AppError::EmitError("e".to_string()).message(), "Event emission error: e");
}
