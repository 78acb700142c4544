//! A relational backend as the store takes it to be, and what the store's
//! operations come to when such a backend serves them.
//!
//! The backend itself is not part of this crate. What is written down here is
//! what the plans of `relational` count on: three tables, statements that do
//! what their names say, and transactions that take effect as a whole or not
//! at all. Every law in this file holds of a backend that answers so.

use vstd::prelude::*;
use crate::entity::{CreateTodoView, LabelView, RowView, TodoEntityView, TodoView, UpdateTodoView};
use crate::error::{BackendFailureView, RepositoryErrorView};
use crate::fold::{
    fold_rows, lemma_fold_covers_rows, lemma_fold_labels_follow_ties, lemma_position, mentions,
    position, same_ties,
};
use crate::relational::{
    first_step, item_in_rows, next_step, AnswerView, CommandView, ReplyView, RequestView,
    StepView,
};

verus! {

/// What the tables hold.
pub struct TablesView {
    /// The rows of the items, by id.
    pub todos: Map<i32, TodoView>,
    /// The names of the labels, by id.
    pub labels: Map<i32, Seq<char>>,
    /// The ties of each item: the ids of its labels, in the order of their
    /// rows. An item without an entry has no tie.
    pub ties: Map<i32, Seq<i32>>,
    /// The last id that was given to an item.
    pub last_todo_id: i32,
    /// The last id that was given to a label.
    pub last_label_id: i32,
}

/// A backend: what is committed, and, while a transaction is open, the
/// tables as the transaction sees them.
pub struct BackendView {
    pub committed: TablesView,
    pub open: Option<TablesView>,
}

/// The failure with which the backend turns a statement down.
pub open spec fn refused() -> BackendFailureView {
    BackendFailureView { row_not_found: false, message: "the statement was refused"@ }
}

/// A number of rows as the backend counts it.
pub open spec fn counted(rows: nat) -> u64 {
    if rows <= u64::MAX {
        rows as u64
    } else {
        u64::MAX
    }
}

impl TablesView {
    /// The ids of the labels that the item is tied to, in the order of their
    /// rows.
    pub open spec fn ties_of(self, id: i32) -> Seq<i32> {
        if self.ties.contains_key(id) {
            self.ties[id]
        } else {
            Seq::empty()
        }
    }

    /// The row of the outer join for an item and one of its ties. A tie to a
    /// label that the tables do not hold gives a row without a label.
    pub open spec fn joined(self, id: i32, label_id: i32) -> RowView {
        RowView {
            id,
            text: self.todos[id].text,
            completed: self.todos[id].completed,
            label_id: if self.labels.contains_key(label_id) {
                Some(label_id)
            } else {
                None
            },
            label_name: if self.labels.contains_key(label_id) {
                Some(self.labels[label_id])
            } else {
                None
            },
        }
    }

    /// The rows of the outer join for one item: none where there is no such
    /// item, one without a label where the item has no tie, and one for each
    /// tie otherwise.
    pub open spec fn rows_of(self, id: i32) -> Seq<RowView> {
        if !self.todos.contains_key(id) {
            Seq::empty()
        } else if self.ties_of(id).len() == 0 {
            seq![
                RowView {
                    id,
                    text: self.todos[id].text,
                    completed: self.todos[id].completed,
                    label_id: None,
                    label_name: None,
                },
            ]
        } else {
            Seq::new(self.ties_of(id).len(), |k: int| self.joined(id, self.ties_of(id)[k]))
        }
    }

    /// The rows of the outer join for the items of the ids from `top` down to
    /// 1, the greatest id first.
    pub open spec fn rows_down(self, top: int) -> Seq<RowView>
        decreases top,
    {
        if top <= 0 {
            Seq::empty()
        } else {
            self.rows_of(top as i32) + self.rows_down(top - 1)
        }
    }

    /// The labels of the ids from 1 up to `top`, the least id first.
    pub open spec fn labels_up(self, top: int) -> Seq<LabelView>
        decreases top,
    {
        if top <= 0 {
            Seq::empty()
        } else if self.labels.contains_key(top as i32) {
            self.labels_up(top - 1).push(LabelView { id: top as i32, name: self.labels[top as i32] })
        } else {
            self.labels_up(top - 1)
        }
    }

    /// The number of ties to the label among the items of the ids up to
    /// `top`.
    pub open spec fn tied_to(self, label_id: i32, top: int) -> nat
        decreases top,
    {
        if top <= 0 {
            0
        } else {
            self.ties_of(top as i32).filter(|tied: i32| tied == label_id).len() + self.tied_to(
                label_id,
                top - 1,
            )
        }
    }

    /// The item as a read of its rows shows it.
    pub open spec fn shown(self, id: i32) -> TodoEntityView {
        fold_rows(self.rows_of(id))[0]
    }

    /// What the statement leaves of the tables, and what it is answered with.
    pub open spec fn execute(self, command: CommandView) -> (TablesView, ReplyView) {
        match command {
            CommandView::InsertTodo { text } => if self.last_todo_id < i32::MAX {
                let id = (self.last_todo_id + 1) as i32;
                let row = TodoView { id, text, completed: false };
                (
                    TablesView { todos: self.todos.insert(id, row), last_todo_id: id, ..self },
                    ReplyView::Inserted(row),
                )
            } else {
                (self, ReplyView::Failed(refused()))
            },
            CommandView::InsertTodoLabels { todo_id, label_ids } => if self.todos.contains_key(
                todo_id,
            ) && forall|k: int|
                0 <= k < label_ids.len() ==> self.labels.contains_key(#[trigger] label_ids[k]) {
                (
                    TablesView {
                        ties: self.ties.insert(todo_id, self.ties_of(todo_id) + label_ids),
                        ..self
                    },
                    ReplyView::Affected(counted(label_ids.len())),
                )
            } else {
                (self, ReplyView::Failed(refused()))
            },
            CommandView::SelectTodo { id } => (self, ReplyView::Rows(self.rows_of(id))),
            CommandView::SelectAll => (
                self,
                ReplyView::Rows(self.rows_down(self.last_todo_id as int)),
            ),
            CommandView::UpdateTodo { id, text, completed } => if self.todos.contains_key(id) {
                (
                    TablesView {
                        todos: self.todos.insert(id, TodoView { id, text, completed }),
                        ..self
                    },
                    ReplyView::Affected(1),
                )
            } else {
                (self, ReplyView::Affected(0))
            },
            CommandView::DeleteTodoLabels { todo_id } => (
                TablesView { ties: self.ties.remove(todo_id), ..self },
                ReplyView::Affected(counted(self.ties_of(todo_id).len())),
            ),
            CommandView::DeleteTodo { id } => if self.todos.contains_key(id) {
                (TablesView { todos: self.todos.remove(id), ..self }, ReplyView::Affected(1))
            } else {
                (self, ReplyView::Affected(0))
            },
            CommandView::InsertLabel { name } => if self.last_label_id < i32::MAX {
                let id = (self.last_label_id + 1) as i32;
                (
                    TablesView { labels: self.labels.insert(id, name), last_label_id: id, ..self },
                    ReplyView::InsertedLabel(LabelView { id, name }),
                )
            } else {
                (self, ReplyView::Failed(refused()))
            },
            CommandView::SelectLabels => (
                self,
                ReplyView::Labels(self.labels_up(self.last_label_id as int)),
            ),
            CommandView::DeleteLabelTies { label_id } => (
                TablesView {
                    ties: self.ties.map_values(
                        |tied: Seq<i32>| tied.filter(|other: i32| other != label_id),
                    ),
                    ..self
                },
                ReplyView::Affected(counted(self.tied_to(label_id, self.last_todo_id as int))),
            ),
            CommandView::DeleteLabel { id } => if self.labels.contains_key(id) {
                (TablesView { labels: self.labels.remove(id), ..self }, ReplyView::Affected(1))
            } else {
                (self, ReplyView::Affected(0))
            },
            _ => (self, ReplyView::Failed(refused())),
        }
    }
}

impl BackendView {
    /// Whether no transaction is open.
    pub open spec fn idle(self) -> bool {
        self.open is None
    }

    /// The backend after one statement, and what the statement is answered
    /// with. `Begin` gives the transaction the committed tables to work on,
    /// `Commit` makes what the transaction did the committed tables,
    /// `Rollback` forgets it. Every other statement works on the tables of
    /// the open transaction, or on the committed ones where none is open.
    pub open spec fn serve(self, command: CommandView) -> (BackendView, ReplyView) {
        match command {
            CommandView::Begin => match self.open {
                None => (BackendView { open: Some(self.committed), ..self }, ReplyView::Done),
                Some(_) => (self, ReplyView::Failed(refused())),
            },
            CommandView::Commit => match self.open {
                Some(tables) => (BackendView { committed: tables, open: None }, ReplyView::Done),
                None => (self, ReplyView::Failed(refused())),
            },
            CommandView::Rollback => (BackendView { open: None, ..self }, ReplyView::Done),
            _ => match self.open {
                Some(tables) => {
                    let (after, reply) = tables.execute(command);
                    (BackendView { open: Some(after), ..self }, reply)
                },
                None => {
                    let (after, reply) = self.committed.execute(command);
                    (BackendView { committed: after, ..self }, reply)
                },
            },
        }
    }

    /// Where an operation stands after at most `fuel` statements, each served
    /// by the backend.
    pub open spec fn run(self, step: StepView, fuel: nat) -> (BackendView, StepView)
        decreases fuel,
    {
        match step {
            StepView::Run(command, plan) => if fuel == 0 {
                (self, step)
            } else {
                let (after, reply) = self.serve(command);
                after.run(next_step(plan, reply), (fuel - 1) as nat)
            },
            StepView::Finish(_) => (self, step),
        }
    }

    /// The backend after an operation, and what the caller is told. No
    /// operation takes more than seven statements.
    pub open spec fn perform(self, request: RequestView) -> (BackendView, StepView) {
        self.run(first_step(request), 8)
    }
}

/// The rows that are read for an item are all of its id and all carry its
/// text and its state; there is at least one where the item is there, and
/// none where it is not.
pub proof fn lemma_rows_of(tables: TablesView, id: i32)
    ensures
        tables.todos.contains_key(id) <==> tables.rows_of(id).len() > 0,
        forall|k: int|
            0 <= k < tables.rows_of(id).len() ==> {
                let row = #[trigger] tables.rows_of(id)[k];
                row.id == id && row.text == tables.todos[id].text && row.completed
                    == tables.todos[id].completed
            },
{
}

/// A read of an item that is there shows its id, its text and its state.
pub proof fn lemma_shown(tables: TablesView, id: i32)
    requires
        tables.todos.contains_key(id),
    ensures
        item_in_rows(id, tables.rows_of(id)) == Ok::<TodoEntityView, RepositoryErrorView>(
            tables.shown(id),
        ),
        tables.shown(id).id == id,
        tables.shown(id).text == tables.todos[id].text,
        tables.shown(id).completed == tables.todos[id].completed,
{
    let rows = tables.rows_of(id);
    let items = fold_rows(rows);
    lemma_rows_of(tables, id);
    crate::relational::lemma_fold_is_not_empty(rows);
    let first = items[0].id;
    lemma_position(items, first);
    lemma_fold_covers_rows(rows, first);
    let k = choose|k: int| 0 <= k < rows.len() && (#[trigger] rows[k]).id == first;
    assert(rows[k].id == id);
    crate::fold::lemma_fold_record_from_first_row(rows, 0);
    crate::fold::lemma_first_row(rows, first);
}

/// Finding an item reads its rows and changes nothing: the item as its rows
/// show it where it is there, `NotFound` of the id where it is not.
pub proof fn law_find_on_backend(backend: BackendView, id: i32)
    requires
        backend.idle(),
    ensures
        backend.perform(RequestView::Find(id)) == (
            backend,
            if backend.committed.todos.contains_key(id) {
                StepView::Finish(Ok(AnswerView::Item(backend.committed.shown(id))))
            } else {
                StepView::Finish(Err(RepositoryErrorView::NotFound(id)))
            },
        ),
{
    reveal_with_fuel(BackendView::run, 3);
    let tables = backend.committed;
    lemma_rows_of(tables, id);
    if tables.todos.contains_key(id) {
        lemma_shown(tables, id);
    } else {
        assert(tables.rows_of(id) =~= Seq::empty());
        assert(fold_rows(Seq::<RowView>::empty()).len() == 0);
    }
}

/// An id that names no item is answered with `NotFound` of that id by a
/// change and by a deletion, never with another failure, and the backend is
/// left as it was: nothing was written.
pub proof fn law_missing_item_on_backend(backend: BackendView, id: i32, payload: UpdateTodoView)
    requires
        backend.idle(),
        !backend.committed.todos.contains_key(id),
    ensures
        backend.perform(RequestView::Find(id)) == (
            backend,
            StepView::Finish(Err(RepositoryErrorView::NotFound(id))),
        ),
        backend.perform(RequestView::Update(id, payload)) == (
            backend,
            StepView::Finish(Err(RepositoryErrorView::NotFound(id))),
        ),
        backend.perform(RequestView::Delete(id)) == (
            backend,
            StepView::Finish(Err(RepositoryErrorView::NotFound(id))),
        ),
{
    reveal_with_fuel(BackendView::run, 6);
    let tables = backend.committed;
    law_find_on_backend(backend, id);
    lemma_rows_of(tables, id);
    assert(tables.rows_of(id) =~= Seq::empty());
    assert(fold_rows(Seq::<RowView>::empty()).len() == 0);
}

/// Deleting an item that is there removes its ties and its row in one
/// transaction and answers that it is deleted. Everything else stays: the
/// other items, their ties, and the labels. Afterwards the id is not found.
pub proof fn law_delete_on_backend(backend: BackendView, id: i32)
    requires
        backend.idle(),
        backend.committed.todos.contains_key(id),
    ensures
        backend.perform(RequestView::Delete(id)) == (
            BackendView {
                committed: TablesView {
                    todos: backend.committed.todos.remove(id),
                    ties: backend.committed.ties.remove(id),
                    ..backend.committed
                },
                open: None,
            },
            StepView::Finish(Ok(AnswerView::Deleted)),
        ),
        backend.perform(RequestView::Delete(id)).0.perform(RequestView::Find(id)).1
            == StepView::Finish(Err(RepositoryErrorView::NotFound(id))),
{
    reveal_with_fuel(BackendView::run, 6);
    let after = backend.perform(RequestView::Delete(id)).0;
    law_find_on_backend(after, id);
}

/// The rows that are read for all items are of exactly the ids, up to the
/// top one, under which an item is there.
pub proof fn lemma_rows_down(tables: TablesView, top: int, id: i32)
    requires
        top <= i32::MAX,
    ensures
        mentions(tables.rows_down(top), id) <==> 1 <= id <= top && tables.todos.contains_key(id),
    decreases top,
{
    if top > 0 {
        let here = tables.rows_of(top as i32);
        let below = tables.rows_down(top - 1);
        let rows = tables.rows_down(top);
        lemma_rows_down(tables, top - 1, id);
        lemma_rows_of(tables, top as i32);
        if mentions(rows, id) {
            let k = choose|k: int| 0 <= k < rows.len() && (#[trigger] rows[k]).id == id;
            if k < here.len() {
                assert(here[k].id == id);
            } else {
                assert(below[k - here.len()].id == id);
            }
        }
        if 1 <= id <= top && tables.todos.contains_key(id) {
            if id == top {
                assert(rows[0] == here[0]);
                assert(rows[0].id == id);
            } else {
                let k = choose|k: int| 0 <= k < below.len() && (#[trigger] below[k]).id == id;
                assert(rows[here.len() + k] == below[k]);
                assert(rows[here.len() + k].id == id);
            }
        }
    } else {
        assert(!mentions(tables.rows_down(top), id));
    }
}

/// Listing the items reads all rows and changes nothing. An id is in the
/// listing exactly when an item is there under it, so an item that was
/// deleted, and with it every tie of its id, is in no listing made
/// afterwards.
pub proof fn law_all_on_backend(backend: BackendView, id: i32)
    requires
        backend.idle(),
    ensures
        ({
            let tables = backend.committed;
            let listing = fold_rows(tables.rows_down(tables.last_todo_id as int));
            &&& backend.perform(RequestView::All) == (
                backend,
                StepView::Finish(Ok(AnswerView::Items(listing))),
            )
            &&& position(listing, id) is Some <==> 1 <= id <= tables.last_todo_id
                && tables.todos.contains_key(id)
            &&& !tables.todos.contains_key(id) ==> forall|i: int|
                0 <= i < listing.len() ==> (#[trigger] listing[i]).id != id
        }),
{
    reveal_with_fuel(BackendView::run, 3);
    let tables = backend.committed;
    let rows = tables.rows_down(tables.last_todo_id as int);
    lemma_rows_down(tables, tables.last_todo_id as int, id);
    lemma_fold_covers_rows(rows, id);
    lemma_position(fold_rows(rows), id);
}

/// Writing the text and the state of an item leaves its labels as a read
/// shows them.
pub proof fn lemma_record_keeps_labels(tables: TablesView, id: i32, row: TodoView)
    requires
        tables.todos.contains_key(id),
    ensures
        (TablesView { todos: tables.todos.insert(id, row), ..tables }).shown(id).labels
            == tables.shown(id).labels,
{
    let after = TablesView { todos: tables.todos.insert(id, row), ..tables };
    assert(after.ties_of(id) == tables.ties_of(id));
    assert(same_ties(after.rows_of(id), tables.rows_of(id)));
    lemma_fold_labels_follow_ties(after.rows_of(id), tables.rows_of(id));
    lemma_rows_of(tables, id);
    crate::relational::lemma_fold_is_not_empty(tables.rows_of(id));
}

/// Creating an item succeeds exactly where an id is left and every label id
/// of the payload names a label. It then inserts the item and its ties in
/// one transaction and answers with the item as a read shows it, and finding
/// the id afterwards answers the same. Where it fails nothing was written.
pub proof fn law_create_on_backend(backend: BackendView, payload: CreateTodoView)
    requires
        backend.idle(),
    ensures
        ({
            let tables = backend.committed;
            let id = (tables.last_todo_id + 1) as i32;
            let after = BackendView {
                committed: TablesView {
                    todos: tables.todos.insert(
                        id,
                        TodoView { id, text: payload.text, completed: false },
                    ),
                    ties: tables.ties.insert(id, tables.ties_of(id) + payload.labels),
                    last_todo_id: id,
                    ..tables
                },
                open: None,
            };
            if tables.last_todo_id < i32::MAX && forall|k: int|
                0 <= k < payload.labels.len() ==> tables.labels.contains_key(
                    #[trigger] payload.labels[k],
                ) {
                &&& backend.perform(RequestView::Create(payload)) == (
                    after,
                    StepView::Finish(Ok(AnswerView::Item(after.committed.shown(id)))),
                )
                &&& after.perform(RequestView::Find(after.committed.shown(id).id)) == (
                    after,
                    StepView::Finish(Ok(AnswerView::Item(after.committed.shown(id)))),
                )
                &&& after.committed.shown(id).id == id
                &&& after.committed.shown(id).text == payload.text
                &&& !after.committed.shown(id).completed
            } else {
                backend.perform(RequestView::Create(payload)) == (
                    backend,
                    StepView::Finish(Err(RepositoryErrorView::Unexpected(refused().message))),
                )
            }
        }),
{
    reveal_with_fuel(BackendView::run, 7);
    let tables = backend.committed;
    if tables.last_todo_id < i32::MAX {
        let id = (tables.last_todo_id + 1) as i32;
        let inserted = TablesView {
            todos: tables.todos.insert(id, TodoView { id, text: payload.text, completed: false }),
            last_todo_id: id,
            ..tables
        };
        if forall|k: int|
            0 <= k < payload.labels.len() ==> tables.labels.contains_key(
                #[trigger] payload.labels[k],
            ) {
            let tied = TablesView {
                ties: inserted.ties.insert(id, inserted.ties_of(id) + payload.labels),
                ..inserted
            };
            let after = BackendView { committed: tied, open: None };
            lemma_shown(tied, id);
            law_find_on_backend(after, id);
        }
    }
}

/// A change that gives the state alone, of an item that is there, writes the
/// item's own text back with the new state and touches no tie: the caller
/// gets the item with its text and its labels as they were.
pub proof fn law_update_of_state_on_backend(backend: BackendView, id: i32, completed: bool)
    requires
        backend.idle(),
        backend.committed.todos.contains_key(id),
    ensures
        ({
            let tables = backend.committed;
            let payload = UpdateTodoView { text: None, completed: Some(completed), labels: None };
            backend.perform(RequestView::Update(id, payload)) == (
                BackendView {
                    committed: TablesView {
                        todos: tables.todos.insert(
                            id,
                            TodoView { id, text: tables.todos[id].text, completed },
                        ),
                        ..tables
                    },
                    open: None,
                },
                StepView::Finish(
                    Ok(AnswerView::Item(TodoEntityView { completed, ..tables.shown(id) })),
                ),
            )
        }),
{
    reveal_with_fuel(BackendView::run, 7);
    let tables = backend.committed;
    let row = TodoView { id, text: tables.todos[id].text, completed };
    let after = TablesView { todos: tables.todos.insert(id, row), ..tables };
    lemma_shown(tables, id);
    lemma_shown(after, id);
    lemma_record_keeps_labels(tables, id, row);
}

/// A change with an empty list of label ids, of an item that is there,
/// leaves the item without a tie and answers with the item without labels.
/// The same change made once more answers the same and leaves the backend
/// as the first left it.
pub proof fn law_clearing_labels_on_backend(backend: BackendView, id: i32, payload: UpdateTodoView)
    requires
        backend.idle(),
        backend.committed.todos.contains_key(id),
        payload.labels == Some(Seq::<i32>::empty()),
    ensures
        ({
            let (first, told) = backend.perform(RequestView::Update(id, payload));
            let (second, again) = first.perform(RequestView::Update(id, payload));
            &&& told == StepView::Finish(Ok(AnswerView::Item(first.committed.shown(id))))
            &&& first.committed.shown(id).labels == Seq::<LabelView>::empty()
            &&& first.committed.ties_of(id) == Seq::<i32>::empty()
            &&& first.idle()
            &&& again == told
            &&& second == first
        }),
{
    reveal_with_fuel(BackendView::run, 9);
    let tables = backend.committed;
    lemma_shown(tables, id);
    let old_item = tables.shown(id);
    let row = TodoView {
        id,
        text: if payload.text is Some {
            payload.text.unwrap()
        } else {
            old_item.text
        },
        completed: if payload.completed is Some {
            payload.completed.unwrap()
        } else {
            old_item.completed
        },
    };
    let written = TablesView { todos: tables.todos.insert(id, row), ..tables };
    let cleared = TablesView { ties: written.ties.remove(id), ..written };
    assert(cleared.ties_of(id) + Seq::<i32>::empty() =~= Seq::<i32>::empty());
    let tied = TablesView { ties: cleared.ties.insert(id, Seq::<i32>::empty()), ..cleared };
    let first = BackendView { committed: tied, open: None };
    lemma_shown(tied, id);
    assert(backend.perform(RequestView::Update(id, payload)) == (
        first,
        StepView::Finish(Ok(AnswerView::Item(tied.shown(id)))),
    ));
    lemma_no_tie_no_label(tied, id);
    // the second round
    let written_again = TablesView { todos: tied.todos.insert(id, row), ..tied };
    assert(written_again.todos =~= tied.todos);
    let cleared_again = TablesView { ties: written_again.ties.remove(id), ..written_again };
    assert(cleared_again.ties_of(id) + Seq::<i32>::empty() =~= Seq::<i32>::empty());
    let tied_again = TablesView {
        ties: cleared_again.ties.insert(id, Seq::<i32>::empty()),
        ..cleared_again
    };
    assert(tied_again.ties =~= tied.ties);
    assert(tied_again == tied);
}

/// An item without a tie is shown without a label.
pub proof fn lemma_no_tie_no_label(tables: TablesView, id: i32)
    requires
        tables.todos.contains_key(id),
        tables.ties_of(id).len() == 0,
    ensures
        tables.shown(id).labels == Seq::<LabelView>::empty(),
{
    let rows = tables.rows_of(id);
    assert(rows.len() == 1);
    assert(rows.drop_last() =~= Seq::empty());
    assert(fold_rows(rows.drop_last()) =~= Seq::empty());
    assert(tables.shown(id).labels =~= Seq::<LabelView>::empty());
}

} // verus!
