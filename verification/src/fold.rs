//! Folding the rows of an outer join into items that hold their labels.
//!
//! A relational backend answers with one row for each pair of an item and one
//! of its labels, and with one row without a label for an item that has none.
//! Folding brings the rows of one item together again.

use vstd::prelude::*;
use crate::entity::{
    distinct_labels, entities_view, labels_view, rows_view, Label, LabelView, RowView, TodoEntity,
    TodoEntityView, TodoWithLabelFromRow,
};

verus! {

/// The label that a row carries. A row carries one when both its label id
/// and its label name are present.
pub open spec fn row_label(row: RowView) -> Option<LabelView> {
    match (row.label_id, row.label_name) {
        (Some(id), Some(name)) => Some(LabelView { id, name }),
        _ => None,
    }
}

/// The item that a row starts: its primary record, and no label yet.
pub open spec fn row_item(row: RowView) -> TodoEntityView {
    TodoEntityView { id: row.id, text: row.text, completed: row.completed, labels: Seq::empty() }
}

/// Whether one of the labels has the given id.
pub open spec fn carries(labels: Seq<LabelView>, id: i32) -> bool {
    exists|j: int| 0 <= j < labels.len() && #[trigger] labels[j].id == id
}

/// The item with the label added behind those it has, unless there is no
/// label to add or the item has one of that id already.
pub open spec fn with_label(item: TodoEntityView, label: Option<LabelView>) -> TodoEntityView {
    match label {
        Some(label) if !carries(item.labels, label.id) => TodoEntityView {
            labels: item.labels.push(label),
            ..item
        },
        _ => item,
    }
}

/// The index of the first item with the given id, if there is one.
pub open spec fn position(items: Seq<TodoEntityView>, id: i32) -> Option<int>
    decreases items.len(),
{
    if items.len() == 0 {
        None
    } else if items[0].id == id {
        Some(0)
    } else {
        match position(items.drop_first(), id) {
            Some(i) => Some(i + 1),
            None => None,
        }
    }
}

/// The items after one more row: the row's label goes to the item of the
/// row's id, which is started behind the others if the id is new.
pub open spec fn absorb(items: Seq<TodoEntityView>, row: RowView) -> Seq<TodoEntityView> {
    match position(items, row.id) {
        Some(i) => items.update(i, with_label(items[i], row_label(row))),
        None => items.push(with_label(row_item(row), row_label(row))),
    }
}

/// The items that a sequence of rows folds into: the rows are absorbed one
/// after the other, starting from no item.
pub open spec fn fold_rows(rows: Seq<RowView>) -> Seq<TodoEntityView>
    decreases rows.len(),
{
    if rows.len() == 0 {
        Seq::empty()
    } else {
        absorb(fold_rows(rows.drop_last()), rows.last())
    }
}

/// `position` finds the first index at which the id stands, and finds none
/// only where the id stands nowhere.
pub proof fn lemma_position(items: Seq<TodoEntityView>, id: i32)
    ensures
        match position(items, id) {
            Some(i) => 0 <= i < items.len() && items[i].id == id && forall|j: int|
                0 <= j < i ==> (#[trigger] items[j]).id != id,
            None => forall|j: int| 0 <= j < items.len() ==> (#[trigger] items[j]).id != id,
        },
    decreases items.len(),
{
    if items.len() > 0 && items[0].id != id {
        let rest = items.drop_first();
        lemma_position(rest, id);
        match position(rest, id) {
            Some(i) => {
                assert forall|j: int| 0 <= j < i + 1 implies (#[trigger] items[j]).id != id by {
                    if j > 0 {
                        assert(rest[j - 1].id != id);
                    }
                }
            },
            None => {
                assert forall|j: int| 0 <= j < items.len() implies (#[trigger] items[j]).id
                    != id by {
                    if j > 0 {
                        assert(rest[j - 1].id != id);
                    }
                }
            },
        }
    }
}

/// Whether no two of the items share an id.
pub open spec fn distinct_ids(items: Seq<TodoEntityView>) -> bool {
    forall|i: int, j: int|
        0 <= i < j < items.len() ==> (#[trigger] items[i]).id != (#[trigger] items[j]).id
}

/// Whether one of the rows is of the given item id.
pub open spec fn mentions(rows: Seq<RowView>, id: i32) -> bool {
    exists|k: int| 0 <= k < rows.len() && (#[trigger] rows[k]).id == id
}

/// Whether one of the rows is of the given item id and carries the label.
pub open spec fn row_gives(rows: Seq<RowView>, id: i32, label: LabelView) -> bool {
    exists|k: int|
        0 <= k < rows.len() && (#[trigger] rows[k]).id == id && row_label(rows[k]) == Some(label)
}

/// The index of the first row of the given item id, if there is one.
pub open spec fn first_row(rows: Seq<RowView>, id: i32) -> Option<int>
    decreases rows.len(),
{
    if rows.len() == 0 {
        None
    } else {
        match first_row(rows.drop_last(), id) {
            Some(k) => Some(k),
            None => if rows.last().id == id {
                Some(rows.len() - 1)
            } else {
                None
            },
        }
    }
}

/// `first_row` finds the first index at which a row of the id stands, and
/// finds none only where no row is of the id.
pub proof fn lemma_first_row(rows: Seq<RowView>, id: i32)
    ensures
        match first_row(rows, id) {
            Some(k) => 0 <= k < rows.len() && rows[k].id == id && forall|j: int|
                0 <= j < k ==> (#[trigger] rows[j]).id != id,
            None => !mentions(rows, id),
        },
    decreases rows.len(),
{
    if rows.len() > 0 {
        let earlier = rows.drop_last();
        lemma_first_row(earlier, id);
        match first_row(earlier, id) {
            Some(k) => {
                assert forall|j: int| 0 <= j < k implies (#[trigger] rows[j]).id != id by {
                    assert(earlier[j].id != id);
                }
            },
            None => {
                assert forall|j: int| 0 <= j < rows.len() - 1 implies (#[trigger] rows[j]).id
                    != id by {
                    assert(earlier[j].id == rows[j].id);
                }
            },
        }
    }
}

/// Each item id occurs once: no two folded items share an id.
pub proof fn lemma_fold_ids_distinct(rows: Seq<RowView>)
    ensures
        distinct_ids(fold_rows(rows)),
    decreases rows.len(),
{
    if rows.len() > 0 {
        let items = fold_rows(rows.drop_last());
        lemma_fold_ids_distinct(rows.drop_last());
        lemma_position(items, rows.last().id);
    }
}

/// The folded items are those of the rows: an id has an item exactly when a
/// row is of that id.
pub proof fn lemma_fold_covers_rows(rows: Seq<RowView>, id: i32)
    ensures
        position(fold_rows(rows), id) is Some <==> mentions(rows, id),
    decreases rows.len(),
{
    if rows.len() > 0 {
        let earlier = rows.drop_last();
        let row = rows.last();
        let items = fold_rows(earlier);
        let after = fold_rows(rows);
        lemma_fold_covers_rows(earlier, id);
        lemma_position(items, row.id);
        lemma_position(items, id);
        lemma_position(after, id);
        if mentions(rows, id) {
            let k = choose|k: int| 0 <= k < rows.len() && (#[trigger] rows[k]).id == id;
            if k < rows.len() - 1 {
                assert(earlier[k].id == id);
                let i = position(items, id).unwrap();
                assert(after[i].id == id);
            } else {
                match position(items, row.id) {
                    Some(i) => {
                        assert(after[i].id == id);
                    },
                    None => {
                        assert(after[after.len() - 1].id == id);
                    },
                }
            }
        }
        if position(after, id) is Some {
            let i = position(after, id).unwrap();
            if i < items.len() {
                assert(items[i].id == id);
                let k = choose|k: int| 0 <= k < earlier.len() && (#[trigger] earlier[k]).id == id;
                assert(rows[k].id == id);
            } else {
                assert(rows[rows.len() - 1].id == id);
            }
        }
    } else {
        assert(!mentions(rows, id));
    }
}

/// The items come in the order in which the rows first name their ids.
pub proof fn lemma_fold_keeps_first_seen_order(rows: Seq<RowView>, i: int, j: int)
    requires
        0 <= i < j < fold_rows(rows).len(),
    ensures
        first_row(rows, fold_rows(rows)[i].id) is Some,
        first_row(rows, fold_rows(rows)[j].id) is Some,
        first_row(rows, fold_rows(rows)[i].id).unwrap() < first_row(
            rows,
            fold_rows(rows)[j].id,
        ).unwrap(),
    decreases rows.len(),
{
    let earlier = rows.drop_last();
    let row = rows.last();
    let items = fold_rows(earlier);
    let after = fold_rows(rows);
    lemma_position(items, row.id);
    lemma_fold_ids_distinct(rows);
    assert(after[i].id == (if i < items.len() { items[i].id } else { row.id }));
    assert(after[j].id == (if j < items.len() { items[j].id } else { row.id }));
    lemma_first_row(earlier, after[i].id);
    lemma_first_row(earlier, after[j].id);
    lemma_fold_covers_rows(earlier, after[i].id);
    lemma_fold_covers_rows(earlier, after[j].id);
    lemma_position(items, after[i].id);
    lemma_position(items, after[j].id);
    if j < items.len() {
        lemma_fold_keeps_first_seen_order(earlier, i, j);
    } else {
        assert(i < items.len());
        assert(items[i].id == after[i].id);
        assert(position(items, after[i].id) is Some);
        assert(position(items, row.id) is None);
    }
}

/// An item has no label id twice.
pub proof fn lemma_fold_labels_distinct(rows: Seq<RowView>, i: int)
    requires
        0 <= i < fold_rows(rows).len(),
    ensures
        distinct_labels(fold_rows(rows)[i].labels),
    decreases rows.len(),
{
    let earlier = rows.drop_last();
    let row = rows.last();
    let items = fold_rows(earlier);
    lemma_position(items, row.id);
    if i < items.len() {
        lemma_fold_labels_distinct(earlier, i);
    }
}

/// No label is made up: each label of an item stands, with its name, in a
/// row of that item's id.
pub proof fn lemma_fold_labels_come_from_rows(rows: Seq<RowView>, i: int, j: int)
    requires
        0 <= i < fold_rows(rows).len(),
        0 <= j < fold_rows(rows)[i].labels.len(),
    ensures
        row_gives(rows, fold_rows(rows)[i].id, fold_rows(rows)[i].labels[j]),
    decreases rows.len(),
{
    let earlier = rows.drop_last();
    let row = rows.last();
    let items = fold_rows(earlier);
    let after = fold_rows(rows);
    let id = after[i].id;
    let label = after[i].labels[j];
    lemma_position(items, row.id);
    if i < items.len() && j < items[i].labels.len() {
        lemma_fold_labels_come_from_rows(earlier, i, j);
        let k = choose|k: int|
            0 <= k < earlier.len() && (#[trigger] earlier[k]).id == id && row_label(earlier[k])
                == Some(label);
        assert(rows[k].id == id && row_label(rows[k]) == Some(label));
    } else {
        let k = rows.len() - 1;
        assert(rows[k].id == id && row_label(rows[k]) == Some(label));
    }
}

/// No label is lost: where a row of an item's id carries a label, the item
/// has a label of that id.
pub proof fn lemma_fold_keeps_row_labels(rows: Seq<RowView>, k: int)
    requires
        0 <= k < rows.len(),
        row_label(rows[k]) is Some,
    ensures
        position(fold_rows(rows), rows[k].id) is Some,
        carries(
            fold_rows(rows)[position(fold_rows(rows), rows[k].id).unwrap()].labels,
            row_label(rows[k]).unwrap().id,
        ),
    decreases rows.len(),
{
    let earlier = rows.drop_last();
    let row = rows.last();
    let items = fold_rows(earlier);
    let after = fold_rows(rows);
    let id = rows[k].id;
    let label = row_label(rows[k]).unwrap();
    lemma_position(items, row.id);
    lemma_position(items, id);
    lemma_position(after, id);
    lemma_fold_ids_distinct(rows);
    lemma_fold_ids_distinct(earlier);
    if k < rows.len() - 1 {
        assert(earlier[k] == rows[k]);
        lemma_fold_keeps_row_labels(earlier, k);
        let i = position(items, id).unwrap();
        let w = choose|w: int| 0 <= w < items[i].labels.len() && (#[trigger] items[i].labels[w]).id == label.id;
        assert(after[i].id == id);
        assert(after[i].labels[w].id == label.id);
    } else {
        match position(items, id) {
            Some(i) => {
                assert(after[i].id == id);
                if !carries(items[i].labels, label.id) {
                    let w = items[i].labels.len() as int;
                    assert(after[i].labels[w].id == label.id);
                } else {
                    let w = choose|w: int| 0 <= w < items[i].labels.len() && (#[trigger] items[i].labels[w]).id == label.id;
                    assert(after[i].labels[w].id == label.id);
                }
            },
            None => {
                let i = items.len() as int;
                assert(after[i].id == id);
                assert(after[i].labels[0].id == label.id);
            },
        }
    }
}

/// Whether the row is of the given item id and carries a label of the given
/// label id.
pub open spec fn ties(row: RowView, id: i32, label_id: i32) -> bool {
    row.id == id && row_label(row) is Some && row_label(row).unwrap().id == label_id
}

/// The index of the first row that ties the item to the label, if there is
/// one.
pub open spec fn first_tie(rows: Seq<RowView>, id: i32, label_id: i32) -> Option<int>
    decreases rows.len(),
{
    if rows.len() == 0 {
        None
    } else {
        match first_tie(rows.drop_last(), id, label_id) {
            Some(k) => Some(k),
            None => if ties(rows.last(), id, label_id) {
                Some(rows.len() - 1)
            } else {
                None
            },
        }
    }
}

/// `first_tie` finds the first index at which a row ties the item to the
/// label, and finds none only where no row does.
pub proof fn lemma_first_tie(rows: Seq<RowView>, id: i32, label_id: i32)
    ensures
        match first_tie(rows, id, label_id) {
            Some(k) => 0 <= k < rows.len() && ties(rows[k], id, label_id) && forall|j: int|
                0 <= j < k ==> !ties(#[trigger] rows[j], id, label_id),
            None => forall|j: int| 0 <= j < rows.len() ==> !ties(#[trigger] rows[j], id, label_id),
        },
    decreases rows.len(),
{
    if rows.len() > 0 {
        let earlier = rows.drop_last();
        lemma_first_tie(earlier, id, label_id);
        match first_tie(earlier, id, label_id) {
            Some(k) => {
                assert(rows[k] == earlier[k]);
                assert forall|j: int| 0 <= j < k implies !ties(#[trigger] rows[j], id, label_id) by {
                    assert(rows[j] == earlier[j]);
                }
            },
            None => {
                assert forall|j: int| 0 <= j < rows.len() - 1 implies !ties(
                    #[trigger] rows[j],
                    id,
                    label_id,
                ) by {
                    assert(rows[j] == earlier[j]);
                }
            },
        }
    }
}

/// A label of an item is the one that the first row tying the item to that
/// label id carries: where later rows give the id another name, the first
/// name stays.
pub proof fn lemma_fold_label_from_first_tie(rows: Seq<RowView>, i: int, j: int)
    requires
        0 <= i < fold_rows(rows).len(),
        0 <= j < fold_rows(rows)[i].labels.len(),
    ensures
        first_tie(rows, fold_rows(rows)[i].id, fold_rows(rows)[i].labels[j].id) is Some,
        row_label(
            rows[first_tie(rows, fold_rows(rows)[i].id, fold_rows(rows)[i].labels[j].id).unwrap()],
        ) == Some(fold_rows(rows)[i].labels[j]),
    decreases rows.len(),
{
    let earlier = rows.drop_last();
    let row = rows.last();
    let items = fold_rows(earlier);
    let after = fold_rows(rows);
    let id = after[i].id;
    let label = after[i].labels[j];
    lemma_position(items, row.id);
    lemma_first_tie(earlier, id, label.id);
    if i < items.len() && j < items[i].labels.len() {
        lemma_fold_label_from_first_tie(earlier, i, j);
        let k = first_tie(earlier, id, label.id).unwrap();
        assert(rows[k] == earlier[k]);
    } else {
        assert(row.id == id && row_label(row) == Some(label));
        if first_tie(earlier, id, label.id) is Some {
            let k = first_tie(earlier, id, label.id).unwrap();
            lemma_fold_keeps_row_labels(earlier, k);
            lemma_fold_ids_distinct(earlier);
            lemma_position(items, id);
            assert(false);
        }
    }
}

/// The labels of an item come in the order in which the rows first name
/// their ids.
pub proof fn lemma_fold_labels_keep_first_seen_order(
    rows: Seq<RowView>,
    i: int,
    j1: int,
    j2: int,
)
    requires
        0 <= i < fold_rows(rows).len(),
        0 <= j1 < j2 < fold_rows(rows)[i].labels.len(),
    ensures
        first_tie(rows, fold_rows(rows)[i].id, fold_rows(rows)[i].labels[j1].id) is Some,
        first_tie(rows, fold_rows(rows)[i].id, fold_rows(rows)[i].labels[j2].id) is Some,
        first_tie(rows, fold_rows(rows)[i].id, fold_rows(rows)[i].labels[j1].id).unwrap()
            < first_tie(rows, fold_rows(rows)[i].id, fold_rows(rows)[i].labels[j2].id).unwrap(),
    decreases rows.len(),
{
    let earlier = rows.drop_last();
    let row = rows.last();
    let items = fold_rows(earlier);
    let after = fold_rows(rows);
    let id = after[i].id;
    lemma_position(items, row.id);
    lemma_fold_label_from_first_tie(rows, i, j1);
    lemma_fold_label_from_first_tie(rows, i, j2);
    if i < items.len() && j2 < items[i].labels.len() {
        lemma_fold_labels_keep_first_seen_order(earlier, i, j1, j2);
        lemma_fold_label_from_first_tie(earlier, i, j1);
        lemma_fold_label_from_first_tie(earlier, i, j2);
    } else {
        assert(i < items.len() && j1 < items[i].labels.len());
        lemma_fold_label_from_first_tie(earlier, i, j1);
        lemma_first_tie(earlier, id, after[i].labels[j1].id);
        lemma_first_tie(earlier, id, after[i].labels[j2].id);
        lemma_fold_labels_distinct(rows, i);
        if first_tie(earlier, id, after[i].labels[j2].id) is Some {
            let k = first_tie(earlier, id, after[i].labels[j2].id).unwrap();
            lemma_fold_keeps_row_labels(earlier, k);
            lemma_fold_ids_distinct(earlier);
            lemma_position(items, id);
            assert(carries(items[i].labels, after[i].labels[j2].id));
            let w = choose|w: int|
                0 <= w < items[i].labels.len() && (#[trigger] items[i].labels[w]).id
                    == after[i].labels[j2].id;
            assert(after[i].labels[w].id == after[i].labels[j2].id);
            assert(false);
        }
    }
}

/// Whether two runs of rows agree, row by row, in the item id and in the
/// label that the row carries.
pub open spec fn same_ties(rows: Seq<RowView>, others: Seq<RowView>) -> bool {
    &&& rows.len() == others.len()
    &&& forall|k: int|
        0 <= k < rows.len() ==> (#[trigger] rows[k]).id == others[k].id && row_label(rows[k])
            == row_label(others[k])
}

/// Items that agree in their ids hold a given id at the same place.
pub proof fn lemma_position_follows_ids(
    items: Seq<TodoEntityView>,
    others: Seq<TodoEntityView>,
    id: i32,
)
    requires
        items.len() == others.len(),
        forall|i: int| 0 <= i < items.len() ==> (#[trigger] items[i]).id == others[i].id,
    ensures
        position(items, id) == position(others, id),
    decreases items.len(),
{
    if items.len() > 0 {
        assert(items[0].id == others[0].id);
        let rest = items.drop_first();
        let other_rest = others.drop_first();
        assert forall|i: int| 0 <= i < rest.len() implies (#[trigger] rest[i]).id
            == other_rest[i].id by {
            assert(items[i + 1].id == others[i + 1].id);
        }
        lemma_position_follows_ids(rest, other_rest, id);
    }
}

/// Which items there are, and which labels each has, follows from the ids
/// and the labels of the rows alone: the text and the state of the rows make
/// no difference to it.
pub proof fn lemma_fold_labels_follow_ties(rows: Seq<RowView>, others: Seq<RowView>)
    requires
        same_ties(rows, others),
    ensures
        fold_rows(rows).len() == fold_rows(others).len(),
        forall|i: int|
            0 <= i < fold_rows(rows).len() ==> (#[trigger] fold_rows(rows)[i]).id == fold_rows(
                others,
            )[i].id && fold_rows(rows)[i].labels == fold_rows(others)[i].labels,
    decreases rows.len(),
{
    if rows.len() > 0 {
        let earlier = rows.drop_last();
        let other_earlier = others.drop_last();
        assert(same_ties(earlier, other_earlier)) by {
            assert forall|k: int| 0 <= k < earlier.len() implies (#[trigger] earlier[k]).id
                == other_earlier[k].id && row_label(earlier[k]) == row_label(
                other_earlier[k],
            ) by {
                assert(rows[k].id == others[k].id);
            }
        }
        lemma_fold_labels_follow_ties(earlier, other_earlier);
        let items = fold_rows(earlier);
        let other_items = fold_rows(other_earlier);
        assert(rows[rows.len() - 1].id == others[rows.len() - 1].id);
        lemma_position_follows_ids(items, other_items, rows.last().id);
        lemma_position(items, rows.last().id);
        lemma_position(other_items, rows.last().id);
        let after = fold_rows(rows);
        let other_after = fold_rows(others);
        assert forall|i: int| 0 <= i < after.len() implies (#[trigger] after[i]).id
            == other_after[i].id && after[i].labels == other_after[i].labels by {
            if i < items.len() {
                assert(items[i].id == other_items[i].id);
            }
        }
    }
}

/// An item has its text and its state from the first row of its id.
pub proof fn lemma_fold_record_from_first_row(rows: Seq<RowView>, i: int)
    requires
        0 <= i < fold_rows(rows).len(),
    ensures
        first_row(rows, fold_rows(rows)[i].id) is Some,
        fold_rows(rows)[i].text == rows[first_row(rows, fold_rows(rows)[i].id).unwrap()].text,
        fold_rows(rows)[i].completed == rows[first_row(
            rows,
            fold_rows(rows)[i].id,
        ).unwrap()].completed,
    decreases rows.len(),
{
    let earlier = rows.drop_last();
    let row = rows.last();
    let items = fold_rows(earlier);
    let after = fold_rows(rows);
    lemma_position(items, row.id);
    if i < items.len() {
        lemma_fold_record_from_first_row(earlier, i);
        lemma_first_row(earlier, items[i].id);
        let k = first_row(earlier, items[i].id).unwrap();
        assert(after[i].id == items[i].id);
        assert(rows[k] == earlier[k]);
    } else {
        lemma_fold_covers_rows(earlier, row.id);
        lemma_first_row(earlier, row.id);
        assert(after[i].id == row.id);
    }
}

/// Whether the item ids of the rows never rise from one row to the next.
pub open spec fn falling(rows: Seq<RowView>) -> bool {
    forall|i: int, j: int|
        0 <= i < j < rows.len() ==> (#[trigger] rows[i]).id >= (#[trigger] rows[j]).id
}

/// Rows that come with the greatest item id first fold into items that come
/// with the greatest id first.
pub proof fn lemma_fold_keeps_falling_ids(rows: Seq<RowView>, i: int, j: int)
    requires
        falling(rows),
        0 <= i < j < fold_rows(rows).len(),
    ensures
        fold_rows(rows)[i].id > fold_rows(rows)[j].id,
{
    let items = fold_rows(rows);
    lemma_fold_keeps_first_seen_order(rows, i, j);
    lemma_fold_ids_distinct(rows);
    lemma_first_row(rows, items[i].id);
    lemma_first_row(rows, items[j].id);
}

/// Folds joined rows into items.
///
/// Each item id of the rows gives one item, in the order in which the ids
/// first occur; an item has its primary record from the first row of its id
/// and its labels from all rows of its id, in their order, each label id once.
pub fn fold_entities(rows: Vec<TodoWithLabelFromRow>) -> (entities: Vec<TodoEntity>)
    ensures
        entities_view(entities@) == fold_rows(rows_view(rows@)),
        distinct_ids(entities_view(entities@)),
{
    let mut accum: Vec<TodoEntity> = Vec::new();
    let mut n: usize = 0;
    assert(entities_view(accum@) =~= fold_rows(rows_view(rows@).take(0)));
    while n < rows.len()
        invariant
            n <= rows.len(),
            entities_view(accum@) == fold_rows(rows_view(rows@).take(n as int)),
        decreases rows.len() - n,
    {
        let row = &rows[n];
        let ghost before = entities_view(accum@);
        proof {
            let seen = rows_view(rows@).take(n as int + 1);
            assert(seen.drop_last() =~= rows_view(rows@).take(n as int));
            assert(seen.last() == row@);
        }
        let label = label_of(row);
        match find_entity(&accum, row.id) {
            Some(i) => {
                match label {
                    Some(label) => {
                        if !has_label(&accum[i].labels, label.id) {
                            accum[i].labels.push(label);
                            assert(labels_view(accum[i as int].labels@) =~= before[i as int].labels.push(
                                label@,
                            ));
                        }
                    },
                    None => {},
                }
                assert(entities_view(accum@) =~= absorb(before, row@));
            },
            None => {
                let mut labels: Vec<Label> = Vec::new();
                match label {
                    Some(label) => {
                        labels.push(label);
                    },
                    None => {},
                }
                assert(labels_view(labels@) =~= with_label(row_item(row@), row_label(row@)).labels);
                accum.push(
                    TodoEntity {
                        id: row.id,
                        text: row.text.clone(),
                        completed: row.completed,
                        labels,
                    },
                );
                assert(entities_view(accum@) =~= absorb(before, row@));
            },
        }
        n += 1;
    }
    proof {
        assert(rows_view(rows@).take(n as int) =~= rows_view(rows@));
        lemma_fold_ids_distinct(rows_view(rows@));
    }
    accum
}

/// The label that a row carries, built from copies of the row's fields.
fn label_of(row: &TodoWithLabelFromRow) -> (label: Option<Label>)
    ensures
        match label {
            Some(label) => row_label(row@) == Some(label@),
            None => row_label(row@) is None,
        },
{
    match (&row.label_id, &row.label_name) {
        (Some(id), Some(name)) => Some(Label { id: *id, name: name.clone() }),
        _ => None,
    }
}

/// Looks for the first entity with the given id.
fn find_entity(entities: &Vec<TodoEntity>, id: i32) -> (found: Option<usize>)
    ensures
        match found {
            Some(i) => position(entities_view(entities@), id) == Some(i as int) && i
                < entities.len(),
            None => position(entities_view(entities@), id) is None,
        },
{
    let ghost items = entities_view(entities@);
    let mut k: usize = 0;
    while k < entities.len()
        invariant
            k <= entities.len(),
            items == entities_view(entities@),
            forall|j: int| 0 <= j < k ==> (#[trigger] items[j]).id != id,
        decreases entities.len() - k,
    {
        if entities[k].id == id {
            proof {
                lemma_position(items, id);
                assert(items[k as int].id == id);
            }
            return Some(k);
        }
        k += 1;
    }
    proof {
        lemma_position(items, id);
    }
    None
}

/// Tells whether one of the labels has the given id.
fn has_label(labels: &Vec<Label>, id: i32) -> (found: bool)
    ensures
        found == carries(labels_view(labels@), id),
{
    let ghost views = labels_view(labels@);
    let mut k: usize = 0;
    while k < labels.len()
        invariant
            k <= labels.len(),
            views == labels_view(labels@),
            forall|j: int| 0 <= j < k ==> (#[trigger] views[j]).id != id,
        decreases labels.len() - k,
    {
        if labels[k].id == id {
            assert(views[k as int].id == id);
            return true;
        }
        k += 1;
    }
    false
}

} // verus!
