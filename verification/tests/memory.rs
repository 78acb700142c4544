use todo_repository::entity::{CreateTodo, TodoEntity, UpdateTodo};
use todo_repository::error::RepositoryError;
use todo_repository::memory::TodoRepositoryForMemory;
use todo_repository::repository::TodoRepository;

fn names(todo: &TodoEntity) -> Vec<(i32, String)> {
    todo.labels.iter().map(|label| (label.id, label.name.clone())).collect()
}

fn only_state(completed: bool) -> UpdateTodo {
    UpdateTodo { text: None, completed: Some(completed), labels: None }
}

#[test]
fn repositories_todo_crud_scenario() {
    let text = "todo text".to_string();
    let id = 1;
    let expected = TodoEntity::new(id, text.clone());

    // create
    let mut repository = TodoRepositoryForMemory::new();
    let todo = repository
        .create(CreateTodo::new(text, vec![]))
        .expect("failed create todo");
    assert_eq!(expected, todo);

    // find
    let todo = repository.find(todo.id).unwrap();
    assert_eq!(expected, todo);

    // all
    let todo = repository.all().expect("failed get all todos");
    assert_eq!(vec![expected], todo);

    // update
    let text = "update todo text".to_string();
    let todo = repository
        .update(
            id,
            UpdateTodo {
                text: Some(text.clone()),
                completed: Some(true),
                labels: None,
            },
        )
        .expect("failed update todo");

    assert_eq!(
        TodoEntity {
            id,
            text,
            completed: true,
            labels: vec![],
        },
        todo
    );

    // delete
    let res = repository.delete(id);
    assert!(res.is_ok());
}

#[test]
fn todo_todo_crud_scenario() {
    let text = "todo text".to_string();
    let id = 1;
    let expected = TodoEntity::new(id, text.clone());

    // create
    let labels = vec![];
    let mut repository = TodoRepositoryForMemory::new();
    let todo = repository
        .create(CreateTodo::new(text, labels))
        .expect("failed create todo");
    assert_eq!(expected, todo);

    // find
    let todo = repository.find(todo.id).unwrap();
    assert_eq!(expected, todo);

    // all
    let todo = repository.all().expect("failed get all todos");
    assert_eq!(vec![expected], todo);

    // update
    let text = "update todo text".to_string();
    let todo = repository
        .update(
            id,
            UpdateTodo {
                text: Some(text.clone()),
                completed: Some(true),
                labels: Some(vec![]),
            },
        )
        .expect("failed update todo");

    assert_eq!(
        TodoEntity {
            id,
            text,
            completed: true,
            labels: vec![],
        },
        todo
    );

    // delete
    let res = repository.delete(id);
    assert!(res.is_ok());
}

#[test]
fn new_store_holds_nothing() {
    let repository = TodoRepositoryForMemory::new();
    assert!(repository.all().unwrap().is_empty());
    assert!(repository.all_labels().is_empty());
    assert_eq!(repository.find(1), Err(RepositoryError::NotFound(1)));
}

#[test]
fn created_item_reads_back_as_returned() {
    let mut repository = TodoRepositoryForMemory::new();
    let work = repository.create_label("work".to_string()).unwrap();
    let home = repository.create_label("home".to_string()).unwrap();
    let created = repository
        .create(CreateTodo::new("write".to_string(), vec![home.id, work.id]))
        .unwrap();
    assert_eq!(created.id, 1);
    assert_eq!(created.text, "write");
    assert!(!created.completed);
    assert_eq!(
        names(&created),
        vec![(2, "home".to_string()), (1, "work".to_string())]
    );
    let found = repository.find(created.id).unwrap();
    assert_eq!(found, created);
    assert_eq!(found.text, created.text);
    assert_eq!(found.completed, created.completed);
    assert_eq!(names(&found), names(&created));
}

#[test]
fn update_of_state_keeps_text_and_labels() {
    let mut repository = TodoRepositoryForMemory::new();
    let label = repository.create_label("work".to_string()).unwrap();
    let created = repository
        .create(CreateTodo::new("write".to_string(), vec![label.id]))
        .unwrap();
    let updated = repository.update(created.id, only_state(true)).unwrap();
    assert_eq!(updated.id, created.id);
    assert_eq!(updated.text, "write");
    assert!(updated.completed);
    assert_eq!(names(&updated), vec![(1, "work".to_string())]);
    let back = repository.update(created.id, only_state(false)).unwrap();
    assert_eq!(back.text, "write");
    assert!(!back.completed);
    assert_eq!(names(&back), vec![(1, "work".to_string())]);
}

#[test]
fn update_of_text_keeps_state() {
    let mut repository = TodoRepositoryForMemory::new();
    let created = repository.create(CreateTodo::new("a".to_string(), vec![])).unwrap();
    repository.update(created.id, only_state(true)).unwrap();
    let updated = repository
        .update(
            created.id,
            UpdateTodo { text: Some("b".to_string()), completed: None, labels: None },
        )
        .unwrap();
    assert_eq!(updated.text, "b");
    assert!(updated.completed);
    assert_eq!(repository.find(created.id).unwrap().text, "b");
}

#[test]
fn clearing_labels_twice_leaves_none_both_times() {
    let mut repository = TodoRepositoryForMemory::new();
    let label = repository.create_label("work".to_string()).unwrap();
    let created = repository
        .create(CreateTodo::new("write".to_string(), vec![label.id]))
        .unwrap();
    assert_eq!(created.labels.len(), 1);
    let clear = UpdateTodo { text: None, completed: None, labels: Some(vec![]) };
    let first = repository.update(created.id, clear.clone()).unwrap();
    assert!(first.labels.is_empty());
    assert_eq!(first.text, "write");
    let second = repository.update(created.id, clear).unwrap();
    assert!(second.labels.is_empty());
    assert_eq!(second, first);
    assert!(repository.find(created.id).unwrap().labels.is_empty());
}

#[test]
fn update_replaces_labels() {
    let mut repository = TodoRepositoryForMemory::new();
    let a = repository.create_label("a".to_string()).unwrap();
    let b = repository.create_label("b".to_string()).unwrap();
    let c = repository.create_label("c".to_string()).unwrap();
    let created = repository
        .create(CreateTodo::new("t".to_string(), vec![a.id, b.id]))
        .unwrap();
    let updated = repository
        .update(
            created.id,
            UpdateTodo { text: None, completed: None, labels: Some(vec![c.id, a.id]) },
        )
        .unwrap();
    assert_eq!(names(&updated), vec![(3, "c".to_string()), (1, "a".to_string())]);
}

#[test]
fn absent_id_is_not_found() {
    let mut repository = TodoRepositoryForMemory::new();
    repository.create(CreateTodo::new("a".to_string(), vec![])).unwrap();
    assert_eq!(repository.find(2), Err(RepositoryError::NotFound(2)));
    assert_eq!(
        repository.update(2, only_state(true)),
        Err(RepositoryError::NotFound(2))
    );
    assert_eq!(repository.delete(2), Err(RepositoryError::NotFound(2)));
    assert_eq!(repository.find(-1), Err(RepositoryError::NotFound(-1)));
    assert_eq!(repository.find(0), Err(RepositoryError::NotFound(0)));
    assert_eq!(repository.delete(i32::MAX), Err(RepositoryError::NotFound(i32::MAX)));
    assert_eq!(repository.delete(i32::MIN), Err(RepositoryError::NotFound(i32::MIN)));
    assert_eq!(repository.all().unwrap().len(), 1);
}

#[test]
fn creates_give_distinct_rising_ids() {
    let mut repository = TodoRepositoryForMemory::new();
    let mut ids = Vec::new();
    for n in 0..100 {
        let created = repository
            .create(CreateTodo::new(format!("todo {}", n), vec![]))
            .unwrap();
        ids.push(created.id);
    }
    let expected: Vec<i32> = (1..=100).collect();
    assert_eq!(ids, expected);
    assert_eq!(repository.all().unwrap().len(), 100);
}

#[test]
fn deleted_item_is_gone_with_its_labels() {
    let mut repository = TodoRepositoryForMemory::new();
    let label = repository.create_label("work".to_string()).unwrap();
    let first = repository
        .create(CreateTodo::new("first".to_string(), vec![label.id]))
        .unwrap();
    let second = repository
        .create(CreateTodo::new("second".to_string(), vec![label.id]))
        .unwrap();
    assert_eq!(repository.delete(first.id), Ok(()));
    assert_eq!(repository.find(first.id), Err(RepositoryError::NotFound(first.id)));
    assert_eq!(repository.delete(first.id), Err(RepositoryError::NotFound(first.id)));
    let all = repository.all().unwrap();
    assert_eq!(all.len(), 1);
    assert_eq!(all[0].id, second.id);
    assert_eq!(names(&all[0]), vec![(1, "work".to_string())]);
    assert_eq!(repository.all_labels().len(), 1);
}

#[test]
fn deleted_id_is_not_given_again() {
    let mut repository = TodoRepositoryForMemory::new();
    let first = repository.create(CreateTodo::new("a".to_string(), vec![])).unwrap();
    let second = repository.create(CreateTodo::new("b".to_string(), vec![])).unwrap();
    assert_eq!((first.id, second.id), (1, 2));
    repository.delete(first.id).unwrap();
    let third = repository.create(CreateTodo::new("c".to_string(), vec![])).unwrap();
    assert_eq!(third.id, 3);
    assert_eq!(repository.find(2).unwrap().text, "b");
    assert_eq!(repository.find(3).unwrap().text, "c");
    assert_eq!(repository.find(1), Err(RepositoryError::NotFound(1)));
    repository.delete(3).unwrap();
    repository.delete(2).unwrap();
    let fourth = repository.create(CreateTodo::new("d".to_string(), vec![])).unwrap();
    assert_eq!(fourth.id, 4);
}

#[test]
fn all_lists_every_item_once() {
    let mut repository = TodoRepositoryForMemory::new();
    for text in ["a", "b", "c", "d"] {
        repository.create(CreateTodo::new(text.to_string(), vec![])).unwrap();
    }
    repository.delete(2).unwrap();
    let mut all: Vec<(i32, String)> = repository
        .all()
        .unwrap()
        .into_iter()
        .map(|todo| (todo.id, todo.text))
        .collect();
    all.sort();
    assert_eq!(
        all,
        vec![(1, "a".to_string()), (3, "c".to_string()), (4, "d".to_string())]
    );
}

#[test]
fn unknown_label_ids_give_no_label() {
    let mut repository = TodoRepositoryForMemory::new();
    let label = repository.create_label("known".to_string()).unwrap();
    let created = repository
        .create(CreateTodo::new("t".to_string(), vec![9, label.id, -4]))
        .unwrap();
    assert_eq!(names(&created), vec![(1, "known".to_string())]);
    let none = repository.create(CreateTodo::new("u".to_string(), vec![7, 8])).unwrap();
    assert!(none.labels.is_empty());
}

#[test]
fn repeated_label_ids_count_once() {
    let mut repository = TodoRepositoryForMemory::new();
    let a = repository.create_label("a".to_string()).unwrap();
    let b = repository.create_label("b".to_string()).unwrap();
    let created = repository
        .create(CreateTodo::new("t".to_string(), vec![b.id, a.id, b.id, b.id, a.id]))
        .unwrap();
    assert_eq!(names(&created), vec![(2, "b".to_string()), (1, "a".to_string())]);
}

#[test]
fn labels_are_created_listed_and_deleted() {
    let mut repository = TodoRepositoryForMemory::new();
    let a = repository.create_label("a".to_string()).unwrap();
    let b = repository.create_label("b".to_string()).unwrap();
    assert_eq!((a.id, a.name.as_str()), (1, "a"));
    assert_eq!((b.id, b.name.as_str()), (2, "b"));
    let mut listed: Vec<(i32, String)> = repository
        .all_labels()
        .into_iter()
        .map(|label| (label.id, label.name))
        .collect();
    listed.sort();
    assert_eq!(listed, vec![(1, "a".to_string()), (2, "b".to_string())]);
    assert_eq!(repository.delete_label(1), Ok(()));
    assert_eq!(repository.delete_label(1), Err(RepositoryError::NotFound(1)));
    assert_eq!(repository.delete_label(5), Err(RepositoryError::NotFound(5)));
    let c = repository.create_label("c".to_string()).unwrap();
    assert_eq!(c.id, 3);
    assert_eq!(repository.all_labels().len(), 2);
}

#[test]
fn deleted_label_is_no_longer_shown() {
    let mut repository = TodoRepositoryForMemory::new();
    let a = repository.create_label("a".to_string()).unwrap();
    let b = repository.create_label("b".to_string()).unwrap();
    let created = repository
        .create(CreateTodo::new("t".to_string(), vec![a.id, b.id]))
        .unwrap();
    assert_eq!(created.labels.len(), 2);
    repository.delete_label(a.id).unwrap();
    let found = repository.find(created.id).unwrap();
    assert_eq!(names(&found), vec![(2, "b".to_string())]);
}

#[test]
fn label_created_later_is_not_shown() {
    let mut repository = TodoRepositoryForMemory::new();
    let created = repository
        .create(CreateTodo::new("t".to_string(), vec![1]))
        .unwrap();
    assert!(created.labels.is_empty());
    let label = repository.create_label("late".to_string()).unwrap();
    assert_eq!(label.id, 1);
    assert!(repository.find(created.id).unwrap().labels.is_empty());
    let tied = repository
        .update(
            created.id,
            UpdateTodo { text: None, completed: None, labels: Some(vec![1]) },
        )
        .unwrap();
    assert_eq!(names(&tied), vec![(1, "late".to_string())]);
}
