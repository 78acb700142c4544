use todo_repository::entity::{CreateTodo, Label, Todo, TodoWithLabelFromRow, UpdateTodo};
use todo_repository::error::{BackendFailure, RepositoryError};
use todo_repository::relational::{advance, find_in_rows, start, Answer, Command, Plan, Reply, Request, Step};

fn row(id: i32, text: &str, completed: bool, label: Option<(i32, &str)>) -> TodoWithLabelFromRow {
    TodoWithLabelFromRow {
        id,
        text: String::from(text),
        completed,
        label_id: label.map(|(id, _)| id),
        label_name: label.map(|(_, name)| String::from(name)),
    }
}

fn failed(row_not_found: bool, message: &str) -> Reply {
    Reply::Failed(BackendFailure { row_not_found, message: message.to_string() })
}

/// Runs an operation against the replies and gives the statements, printed,
/// and what the caller is told. Panics when the replies run out.
fn drive(request: Request, replies: Vec<Reply>) -> (Vec<String>, Result<Answer, RepositoryError>) {
    let mut issued = Vec::new();
    let mut replies = replies.into_iter();
    let mut step = start(request);
    loop {
        match step {
            Step::Run(command, plan) => {
                issued.push(format!("{:?}", command));
                let reply = replies.next().expect("the replies ran out");
                step = advance(plan, reply);
            }
            Step::Finish(told) => {
                assert!(replies.next().is_none());
                return (issued, told);
            }
        }
    }
}

fn printed(commands: Vec<Command>) -> Vec<String> {
    commands.iter().map(|command| format!("{:?}", command)).collect()
}

#[test]
fn find_reads_the_rows_of_the_item() {
    let rows = vec![
        row(4, "four", true, Some((1, "a"))),
        row(4, "four", true, Some((2, "b"))),
    ];
    let (issued, told) = drive(Request::Find(4), vec![Reply::Rows(rows)]);
    assert_eq!(issued, printed(vec![Command::SelectTodo { id: 4 }]));
    match told {
        Ok(Answer::Item(todo)) => {
            assert_eq!(todo.id, 4);
            assert_eq!(todo.text, "four");
            assert!(todo.completed);
            assert_eq!(todo.labels.len(), 2);
            assert_eq!(todo.labels[1].name, "b");
        }
        other => panic!("unexpected: {:?}", other),
    }
}

#[test]
fn find_without_rows_is_not_found() {
    let (_, told) = drive(Request::Find(4), vec![Reply::Rows(vec![])]);
    assert_eq!(told.unwrap_err(), RepositoryError::NotFound(4));
}

#[test]
fn find_maps_backend_failures() {
    let (_, told) = drive(Request::Find(4), vec![failed(true, "no rows")]);
    assert_eq!(told.unwrap_err(), RepositoryError::NotFound(4));
    let (_, told) = drive(Request::Find(4), vec![failed(false, "connection lost")]);
    assert_eq!(
        told.unwrap_err(),
        RepositoryError::Unexpected("connection lost".to_string())
    );
    let (_, told) = drive(Request::Find(4), vec![Reply::Affected(1)]);
    assert_eq!(
        told.unwrap_err(),
        RepositoryError::Unexpected("the reply does not fit the statement".to_string())
    );
}

#[test]
fn all_folds_every_row() {
    let rows = vec![
        row(2, "two", false, Some((1, "a"))),
        row(2, "two", false, Some((2, "b"))),
        row(1, "one", true, None),
    ];
    let (issued, told) = drive(Request::All, vec![Reply::Rows(rows)]);
    assert_eq!(issued, printed(vec![Command::SelectAll]));
    match told {
        Ok(Answer::Items(todos)) => {
            assert_eq!(todos.len(), 2);
            assert_eq!(todos[0].id, 2);
            assert_eq!(todos[0].labels.len(), 2);
            assert_eq!(todos[1].id, 1);
            assert!(todos[1].labels.is_empty());
        }
        other => panic!("unexpected: {:?}", other),
    }
}

#[test]
fn all_reports_a_missing_row_as_unexpected() {
    let (_, told) = drive(Request::All, vec![failed(true, "no rows")]);
    assert_eq!(told.unwrap_err(), RepositoryError::Unexpected("no rows".to_string()));
}

#[test]
fn create_runs_in_one_transaction_and_reads_the_item() {
    let payload = CreateTodo::new("write".to_string(), vec![3, 5]);
    let replies = vec![
        Reply::Done,
        Reply::Inserted(Todo::new(8, "write".to_string())),
        Reply::Affected(2),
        Reply::Done,
        Reply::Rows(vec![
            row(8, "write", false, Some((3, "c"))),
            row(8, "write", false, Some((5, "e"))),
        ]),
    ];
    let (issued, told) = drive(Request::Create(payload), replies);
    assert_eq!(
        issued,
        printed(vec![
            Command::Begin,
            Command::InsertTodo { text: "write".to_string() },
            Command::InsertTodoLabels { todo_id: 8, label_ids: vec![3, 5] },
            Command::Commit,
            Command::SelectTodo { id: 8 },
        ])
    );
    match told {
        Ok(Answer::Item(todo)) => {
            assert_eq!(todo.id, 8);
            assert_eq!(todo.text, "write");
            assert!(!todo.completed);
            assert_eq!(todo.labels.len(), 2);
        }
        other => panic!("unexpected: {:?}", other),
    }
}

#[test]
fn create_with_an_unknown_label_rolls_back() {
    let payload = CreateTodo::new("write".to_string(), vec![99]);
    let replies = vec![
        Reply::Done,
        Reply::Inserted(Todo::new(8, "write".to_string())),
        failed(false, "foreign key violation"),
        Reply::Done,
    ];
    let (issued, told) = drive(Request::Create(payload), replies);
    assert_eq!(
        issued,
        printed(vec![
            Command::Begin,
            Command::InsertTodo { text: "write".to_string() },
            Command::InsertTodoLabels { todo_id: 8, label_ids: vec![99] },
            Command::Rollback,
        ])
    );
    assert_eq!(
        told.unwrap_err(),
        RepositoryError::Unexpected("foreign key violation".to_string())
    );
}

#[test]
fn create_that_cannot_begin_issues_nothing_more() {
    let payload = CreateTodo::new("write".to_string(), vec![]);
    let (issued, told) = drive(Request::Create(payload), vec![failed(false, "pool closed")]);
    assert_eq!(issued, printed(vec![Command::Begin]));
    assert_eq!(told.unwrap_err(), RepositoryError::Unexpected("pool closed".to_string()));
}

#[test]
fn create_whose_insert_fails_rolls_back() {
    let payload = CreateTodo::new("write".to_string(), vec![]);
    let replies = vec![Reply::Done, failed(true, "no rows"), failed(false, "gone")];
    let (issued, told) = drive(Request::Create(payload), replies);
    assert_eq!(
        issued,
        printed(vec![
            Command::Begin,
            Command::InsertTodo { text: "write".to_string() },
            Command::Rollback,
        ])
    );
    assert_eq!(told.unwrap_err(), RepositoryError::Unexpected("no rows".to_string()));
}

#[test]
fn failed_commit_is_unexpected() {
    let payload = CreateTodo::new("write".to_string(), vec![]);
    let replies = vec![
        Reply::Done,
        Reply::Inserted(Todo::new(8, "write".to_string())),
        Reply::Affected(0),
        failed(true, "commit failed"),
    ];
    let (issued, told) = drive(Request::Create(payload), replies);
    assert_eq!(issued.len(), 4);
    assert_eq!(issued[3], format!("{:?}", Command::Commit));
    assert_eq!(told.unwrap_err(), RepositoryError::Unexpected("commit failed".to_string()));
}

#[test]
fn update_keeps_the_fields_that_are_left_out() {
    let payload = UpdateTodo { text: None, completed: Some(true), labels: None };
    let replies = vec![
        Reply::Done,
        Reply::Rows(vec![row(3, "old text", false, Some((1, "a")))]),
        Reply::Affected(1),
        Reply::Done,
        Reply::Rows(vec![row(3, "old text", true, Some((1, "a")))]),
    ];
    let (issued, told) = drive(Request::Update(3, payload), replies);
    assert_eq!(
        issued,
        printed(vec![
            Command::Begin,
            Command::SelectTodo { id: 3 },
            Command::UpdateTodo { id: 3, text: "old text".to_string(), completed: true },
            Command::Commit,
            Command::SelectTodo { id: 3 },
        ])
    );
    match told {
        Ok(Answer::Item(todo)) => {
            assert_eq!(todo.text, "old text");
            assert!(todo.completed);
            assert_eq!(todo.labels.len(), 1);
        }
        other => panic!("unexpected: {:?}", other),
    }
}

#[test]
fn update_with_labels_replaces_the_ties() {
    let payload = UpdateTodo {
        text: Some("new".to_string()),
        completed: None,
        labels: Some(vec![]),
    };
    let replies = vec![
        Reply::Done,
        Reply::Rows(vec![row(3, "old", true, Some((1, "a")))]),
        Reply::Affected(1),
        Reply::Affected(1),
        Reply::Affected(0),
        Reply::Done,
        Reply::Rows(vec![row(3, "new", true, None)]),
    ];
    let (issued, told) = drive(Request::Update(3, payload), replies);
    assert_eq!(
        issued,
        printed(vec![
            Command::Begin,
            Command::SelectTodo { id: 3 },
            Command::UpdateTodo { id: 3, text: "new".to_string(), completed: true },
            Command::DeleteTodoLabels { todo_id: 3 },
            Command::InsertTodoLabels { todo_id: 3, label_ids: vec![] },
            Command::Commit,
            Command::SelectTodo { id: 3 },
        ])
    );
    match told {
        Ok(Answer::Item(todo)) => {
            assert_eq!(todo.text, "new");
            assert!(todo.labels.is_empty());
        }
        other => panic!("unexpected: {:?}", other),
    }
}

#[test]
fn update_of_an_absent_item_is_not_found() {
    let payload = UpdateTodo { text: None, completed: Some(true), labels: None };
    let replies = vec![Reply::Done, Reply::Rows(vec![]), Reply::Done];
    let (issued, told) = drive(Request::Update(3, payload), replies);
    assert_eq!(
        issued,
        printed(vec![Command::Begin, Command::SelectTodo { id: 3 }, Command::Rollback])
    );
    assert_eq!(told.unwrap_err(), RepositoryError::NotFound(3));
}

#[test]
fn update_that_changes_no_row_is_not_found() {
    let payload = UpdateTodo { text: None, completed: Some(true), labels: None };
    let replies = vec![
        Reply::Done,
        Reply::Rows(vec![row(3, "old", false, None)]),
        Reply::Affected(0),
        Reply::Done,
    ];
    let (issued, told) = drive(Request::Update(3, payload), replies);
    assert_eq!(issued.last().unwrap(), &format!("{:?}", Command::Rollback));
    assert_eq!(told.unwrap_err(), RepositoryError::NotFound(3));
}

#[test]
fn delete_unties_then_removes_in_one_transaction() {
    let replies = vec![Reply::Done, Reply::Affected(2), Reply::Affected(1), Reply::Done];
    let (issued, told) = drive(Request::Delete(6), replies);
    assert_eq!(
        issued,
        printed(vec![
            Command::Begin,
            Command::DeleteTodoLabels { todo_id: 6 },
            Command::DeleteTodo { id: 6 },
            Command::Commit,
        ])
    );
    assert!(matches!(told, Ok(Answer::Deleted)));
}

#[test]
fn delete_of_an_absent_item_is_not_found() {
    let replies = vec![Reply::Done, Reply::Affected(0), Reply::Affected(0), Reply::Done];
    let (issued, told) = drive(Request::Delete(6), replies);
    assert_eq!(
        issued,
        printed(vec![
            Command::Begin,
            Command::DeleteTodoLabels { todo_id: 6 },
            Command::DeleteTodo { id: 6 },
            Command::Rollback,
        ])
    );
    assert_eq!(told.unwrap_err(), RepositoryError::NotFound(6));
}

#[test]
fn delete_that_fails_rolls_back() {
    let replies = vec![Reply::Done, failed(false, "deadlock"), Reply::Done];
    let (issued, told) = drive(Request::Delete(6), replies);
    assert_eq!(
        issued,
        printed(vec![
            Command::Begin,
            Command::DeleteTodoLabels { todo_id: 6 },
            Command::Rollback,
        ])
    );
    assert_eq!(told.unwrap_err(), RepositoryError::Unexpected("deadlock".to_string()));
}

#[test]
fn rollback_tells_its_error_whatever_the_reply() {
    let plan = Plan::Aborting { error: RepositoryError::NotFound(2) };
    match advance(plan, failed(false, "rollback failed")) {
        Step::Finish(Err(error)) => assert_eq!(error, RepositoryError::NotFound(2)),
        other => panic!("unexpected: {:?}", other),
    }
}

#[test]
fn find_in_rows_takes_the_first_item() {
    let rows = vec![
        row(4, "four", false, Some((1, "a"))),
        row(5, "five", false, None),
        row(4, "four", false, Some((2, "b"))),
    ];
    let found = find_in_rows(4, rows).unwrap();
    assert_eq!(found.id, 4);
    assert_eq!(found.labels.len(), 2);
    assert_eq!(find_in_rows(4, vec![]), Err(RepositoryError::NotFound(4)));
}

#[test]
fn label_is_created_in_a_transaction() {
    let replies = vec![
        Reply::Done,
        Reply::InsertedLabel(Label { id: 4, name: "work".to_string() }),
        Reply::Done,
    ];
    let (issued, told) = drive(Request::CreateLabel("work".to_string()), replies);
    assert_eq!(
        issued,
        printed(vec![
            Command::Begin,
            Command::InsertLabel { name: "work".to_string() },
            Command::Commit,
        ])
    );
    match told {
        Ok(Answer::Label(label)) => {
            assert_eq!(label.id, 4);
            assert_eq!(label.name, "work");
        }
        other => panic!("unexpected: {:?}", other),
    }
}

#[test]
fn label_that_cannot_be_inserted_rolls_back() {
    let replies = vec![Reply::Done, failed(false, "unique violation"), Reply::Done];
    let (issued, told) = drive(Request::CreateLabel("work".to_string()), replies);
    assert_eq!(issued.last().unwrap(), &format!("{:?}", Command::Rollback));
    assert_eq!(
        told.unwrap_err(),
        RepositoryError::Unexpected("unique violation".to_string())
    );
}

#[test]
fn labels_are_listed_as_read() {
    let labels = vec![
        Label { id: 1, name: "a".to_string() },
        Label { id: 2, name: "b".to_string() },
    ];
    let (issued, told) = drive(Request::AllLabels, vec![Reply::Labels(labels)]);
    assert_eq!(issued, printed(vec![Command::SelectLabels]));
    match told {
        Ok(Answer::Labels(labels)) => {
            assert_eq!(labels.len(), 2);
            assert_eq!(labels[0].name, "a");
            assert_eq!(labels[1].id, 2);
        }
        other => panic!("unexpected: {:?}", other),
    }
}

#[test]
fn label_is_untied_then_removed() {
    let replies = vec![Reply::Done, Reply::Affected(3), Reply::Affected(1), Reply::Done];
    let (issued, told) = drive(Request::DeleteLabel(2), replies);
    assert_eq!(
        issued,
        printed(vec![
            Command::Begin,
            Command::DeleteLabelTies { label_id: 2 },
            Command::DeleteLabel { id: 2 },
            Command::Commit,
        ])
    );
    assert!(matches!(told, Ok(Answer::Deleted)));
}

#[test]
fn delete_of_an_absent_label_is_not_found() {
    let replies = vec![Reply::Done, Reply::Affected(0), Reply::Affected(0), Reply::Done];
    let (issued, told) = drive(Request::DeleteLabel(2), replies);
    assert_eq!(issued.last().unwrap(), &format!("{:?}", Command::Rollback));
    assert_eq!(told.unwrap_err(), RepositoryError::NotFound(2));
}
