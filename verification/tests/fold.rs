use todo_repository::entity::{Label, TodoEntity, TodoWithLabelFromRow};
use todo_repository::fold::fold_entities;

fn row(id: i32, text: &str, label: Option<(i32, &str)>) -> TodoWithLabelFromRow {
    TodoWithLabelFromRow {
        id,
        text: String::from(text),
        completed: false,
        label_id: label.map(|(id, _)| id),
        label_name: label.map(|(_, name)| String::from(name)),
    }
}

fn names(todo: &TodoEntity) -> Vec<(i32, String)> {
    todo.labels.iter().map(|label| (label.id, label.name.clone())).collect()
}

#[test]
fn fold_entities_test() {
    let label_1 = Label {
        id: 1,
        name: String::from("label 1"),
    };
    let label_2 = Label {
        id: 2,
        name: String::from("label 2"),
    };
    let rows = vec![
        TodoWithLabelFromRow {
            id: 1,
            text: String::from("todo 1"),
            completed: false,
            label_id: Some(label_1.id),
            label_name: Some(label_1.name.clone()),
        },
        TodoWithLabelFromRow {
            id: 1,
            text: String::from("todo 1"),
            completed: false,
            label_id: Some(label_2.id),
            label_name: Some(label_2.name.clone()),
        },
        TodoWithLabelFromRow {
            id: 2,
            text: String::from("todo 2"),
            completed: false,
            label_id: Some(label_1.id),
            label_name: Some(label_2.name.clone()),
        },
    ];
    let res = fold_entities(rows);
    assert_eq!(
        res,
        vec![
            TodoEntity {
                id: 1,
                text: String::from("todo 1"),
                completed: false,
                labels: vec![label_1.clone(), label_2.clone()],
            },
            TodoEntity {
                id: 2,
                text: String::from("todo 2"),
                completed: false,
                labels: vec![Label {
                    id: label_1.id,
                    name: label_2.name.clone(),
                }],
            },
        ]
    );
}

#[test]
fn fold_builds_each_label_from_its_own_row() {
    let rows = vec![
        row(1, "todo 1", Some((1, "label 1"))),
        row(1, "todo 1", Some((2, "label 2"))),
        row(2, "todo 2", Some((1, "label 2"))),
    ];
    let res = fold_entities(rows);
    assert_eq!(res.len(), 2);
    assert_eq!(
        names(&res[0]),
        vec![(1, String::from("label 1")), (2, String::from("label 2"))]
    );
    assert_eq!(names(&res[1]), vec![(1, String::from("label 2"))]);
}

#[test]
fn fold_two_labels_and_an_item_without_label() {
    let rows = vec![
        row(1, "a", Some((1, "L1"))),
        row(1, "a", Some((2, "L2"))),
        row(2, "b", None),
    ];
    let res = fold_entities(rows);
    assert_eq!(res.len(), 2);
    assert_eq!(res[0].id, 1);
    assert_eq!(res[0].text, "a");
    assert!(!res[0].completed);
    assert_eq!(
        names(&res[0]),
        vec![(1, String::from("L1")), (2, String::from("L2"))]
    );
    assert_eq!(res[1].id, 2);
    assert_eq!(res[1].text, "b");
    assert!(!res[1].completed);
    assert!(res[1].labels.is_empty());
}

#[test]
fn fold_of_no_rows_is_empty() {
    assert!(fold_entities(Vec::new()).is_empty());
}

#[test]
fn fold_brings_scattered_rows_of_one_item_together() {
    let rows = vec![
        row(7, "seven", Some((3, "c"))),
        row(4, "four", Some((1, "a"))),
        row(7, "seven", Some((1, "a"))),
        row(4, "four", Some((2, "b"))),
        row(9, "nine", None),
        row(7, "seven", Some((2, "b"))),
    ];
    let res = fold_entities(rows);
    let ids: Vec<i32> = res.iter().map(|todo| todo.id).collect();
    assert_eq!(ids, vec![7, 4, 9]);
    assert_eq!(
        names(&res[0]),
        vec![
            (3, String::from("c")),
            (1, String::from("a")),
            (2, String::from("b"))
        ]
    );
    assert_eq!(
        names(&res[1]),
        vec![(1, String::from("a")), (2, String::from("b"))]
    );
    assert!(res[2].labels.is_empty());
}

#[test]
fn fold_skips_a_row_without_label_for_an_item_seen_before() {
    let rows = vec![
        row(1, "a", Some((5, "five"))),
        row(1, "a", None),
        row(1, "a", Some((6, "six"))),
    ];
    let res = fold_entities(rows);
    assert_eq!(res.len(), 1);
    assert_eq!(
        names(&res[0]),
        vec![(5, String::from("five")), (6, String::from("six"))]
    );
}

#[test]
fn fold_keeps_each_label_id_once() {
    let rows = vec![
        row(1, "a", Some((5, "five"))),
        row(1, "a", Some((5, "again"))),
        row(1, "a", Some((6, "six"))),
        row(1, "a", Some((5, "five"))),
    ];
    let res = fold_entities(rows);
    assert_eq!(res.len(), 1);
    assert_eq!(
        names(&res[0]),
        vec![(5, String::from("five")), (6, String::from("six"))]
    );
}

#[test]
fn fold_makes_no_label_of_half_a_label() {
    let only_id = TodoWithLabelFromRow {
        id: 1,
        text: String::from("a"),
        completed: true,
        label_id: Some(3),
        label_name: None,
    };
    let only_name = TodoWithLabelFromRow {
        id: 2,
        text: String::from("b"),
        completed: false,
        label_id: None,
        label_name: Some(String::from("x")),
    };
    let res = fold_entities(vec![only_id, only_name]);
    assert_eq!(res.len(), 2);
    assert!(res[0].labels.is_empty());
    assert!(res[0].completed);
    assert!(res[1].labels.is_empty());
}

#[test]
fn fold_takes_the_record_of_the_first_row() {
    let mut second = row(1, "later text", Some((2, "b")));
    second.completed = true;
    let rows = vec![row(1, "first text", Some((1, "a"))), second];
    let res = fold_entities(rows);
    assert_eq!(res.len(), 1);
    assert_eq!(res[0].text, "first text");
    assert!(!res[0].completed);
    assert_eq!(res[0].labels.len(), 2);
}

#[test]
fn fold_keeps_falling_ids_falling() {
    let rows = vec![
        row(9, "i", Some((1, "a"))),
        row(9, "i", Some((2, "b"))),
        row(5, "e", None),
        row(2, "b", Some((1, "a"))),
    ];
    let ids: Vec<i32> = fold_entities(rows).iter().map(|todo| todo.id).collect();
    assert_eq!(ids, vec![9, 5, 2]);
}

#[test]
fn labels_are_equal_when_id_and_name_are() {
    let one = Label { id: 1, name: String::from("one") };
    let uno = Label { id: 1, name: String::from("uno") };
    let two = Label { id: 2, name: String::from("one") };
    assert_ne!(one, uno);
    assert_ne!(one, two);
    let copy = one.clone();
    assert_eq!(copy, one);
    assert_eq!(copy.id, 1);
    assert_eq!(copy.name, "one");
}
