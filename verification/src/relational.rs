//! What a relational store asks of its backend, one statement at a time, and
//! what it makes of the replies.
//!
//! The store itself only carries statements to the backend and replies back.
//! Which statement comes next, when a transaction is abandoned, and what the
//! caller is told in the end is decided here: `start` gives the first step of
//! an operation, `advance` gives the step that follows a reply.

use vstd::prelude::*;
use crate::entity::{
    entities_view, labels_view, rows_view, CreateTodo, CreateTodoView, Label, LabelView, RowView,
    Todo, TodoEntity, TodoEntityView, TodoView, TodoWithLabelFromRow, UpdateTodo, UpdateTodoView,
};
use crate::error::{
    error_of_failure, BackendFailure, BackendFailureView, RepositoryError, RepositoryErrorView,
};
use crate::fold::{fold_entities, fold_rows};

verus! {

/// A statement for the backend.
#[derive(Debug)]
pub enum Command {
    /// Open a transaction. Answered with `Done`.
    Begin,
    /// Insert an item that is not completed. Answered with `Inserted`.
    InsertTodo { text: String },
    /// Tie the item to each of the labels. Answered with `Affected`.
    InsertTodoLabels { todo_id: i32, label_ids: Vec<i32> },
    /// Read the rows of one item, joined with its labels. Answered with
    /// `Rows`.
    SelectTodo { id: i32 },
    /// Read the rows of all items, joined with their labels, the greatest
    /// item id first. Answered with `Rows`.
    SelectAll,
    /// Set the text and the state of an item. Answered with `Affected`.
    UpdateTodo { id: i32, text: String, completed: bool },
    /// Remove every tie of the item to a label. Answered with `Affected`.
    DeleteTodoLabels { todo_id: i32 },
    /// Remove the item. Answered with `Affected`.
    DeleteTodo { id: i32 },
    /// Insert a label. Answered with `InsertedLabel`.
    InsertLabel { name: String },
    /// Read all labels. Answered with `Labels`.
    SelectLabels,
    /// Remove every tie of the label to an item. Answered with `Affected`.
    DeleteLabelTies { label_id: i32 },
    /// Remove the label. Answered with `Affected`.
    DeleteLabel { id: i32 },
    /// Commit the open transaction. Answered with `Done`.
    Commit,
    /// Abandon the open transaction. Answered with `Done`.
    Rollback,
}

/// A `Command` as a mathematical value.
pub enum CommandView {
    Begin,
    InsertTodo { text: Seq<char> },
    InsertTodoLabels { todo_id: i32, label_ids: Seq<i32> },
    SelectTodo { id: i32 },
    SelectAll,
    UpdateTodo { id: i32, text: Seq<char>, completed: bool },
    DeleteTodoLabels { todo_id: i32 },
    DeleteTodo { id: i32 },
    InsertLabel { name: Seq<char> },
    SelectLabels,
    DeleteLabelTies { label_id: i32 },
    DeleteLabel { id: i32 },
    Commit,
    Rollback,
}

impl View for Command {
    type V = CommandView;

    open spec fn view(&self) -> CommandView {
        match self {
            Command::Begin => CommandView::Begin,
            Command::InsertTodo { text } => CommandView::InsertTodo { text: text@ },
            Command::InsertTodoLabels { todo_id, label_ids } => CommandView::InsertTodoLabels {
                todo_id: *todo_id,
                label_ids: label_ids@,
            },
            Command::SelectTodo { id } => CommandView::SelectTodo { id: *id },
            Command::SelectAll => CommandView::SelectAll,
            Command::UpdateTodo { id, text, completed } => CommandView::UpdateTodo {
                id: *id,
                text: text@,
                completed: *completed,
            },
            Command::DeleteTodoLabels { todo_id } => CommandView::DeleteTodoLabels {
                todo_id: *todo_id,
            },
            Command::DeleteTodo { id } => CommandView::DeleteTodo { id: *id },
            Command::InsertLabel { name } => CommandView::InsertLabel { name: name@ },
            Command::SelectLabels => CommandView::SelectLabels,
            Command::DeleteLabelTies { label_id } => CommandView::DeleteLabelTies {
                label_id: *label_id,
            },
            Command::DeleteLabel { id } => CommandView::DeleteLabel { id: *id },
            Command::Commit => CommandView::Commit,
            Command::Rollback => CommandView::Rollback,
        }
    }
}

/// What the backend answered to a statement.
#[derive(Debug)]
pub enum Reply {
    /// The transaction was opened, committed or abandoned.
    Done,
    /// The item was inserted; this is its primary record.
    Inserted(Todo),
    /// The statement was executed on this many rows.
    Affected(u64),
    /// The rows that were read.
    Rows(Vec<TodoWithLabelFromRow>),
    /// The label was inserted; this is the label.
    InsertedLabel(Label),
    /// The labels that were read.
    Labels(Vec<Label>),
    /// The statement failed.
    Failed(BackendFailure),
}

/// A `Reply` as a mathematical value.
pub enum ReplyView {
    Done,
    Inserted(TodoView),
    Affected(u64),
    Rows(Seq<RowView>),
    InsertedLabel(LabelView),
    Labels(Seq<LabelView>),
    Failed(BackendFailureView),
}

impl View for Reply {
    type V = ReplyView;

    open spec fn view(&self) -> ReplyView {
        match self {
            Reply::Done => ReplyView::Done,
            Reply::Inserted(todo) => ReplyView::Inserted(todo@),
            Reply::Affected(count) => ReplyView::Affected(*count),
            Reply::Rows(rows) => ReplyView::Rows(rows_view(rows@)),
            Reply::InsertedLabel(label) => ReplyView::InsertedLabel(label@),
            Reply::Labels(labels) => ReplyView::Labels(labels_view(labels@)),
            Reply::Failed(failure) => ReplyView::Failed(failure@),
        }
    }
}

/// An operation that a caller asks of the store.
#[derive(Debug)]
pub enum Request {
    Create(CreateTodo),
    Find(i32),
    All,
    Update(i32, UpdateTodo),
    Delete(i32),
    /// Create a label of the given name.
    CreateLabel(String),
    AllLabels,
    DeleteLabel(i32),
}

/// A `Request` as a mathematical value.
pub enum RequestView {
    Create(CreateTodoView),
    Find(i32),
    All,
    Update(i32, UpdateTodoView),
    Delete(i32),
    CreateLabel(Seq<char>),
    AllLabels,
    DeleteLabel(i32),
}

impl View for Request {
    type V = RequestView;

    open spec fn view(&self) -> RequestView {
        match self {
            Request::Create(payload) => RequestView::Create(payload@),
            Request::Find(id) => RequestView::Find(*id),
            Request::All => RequestView::All,
            Request::Update(id, payload) => RequestView::Update(*id, payload@),
            Request::Delete(id) => RequestView::Delete(*id),
            Request::CreateLabel(name) => RequestView::CreateLabel(name@),
            Request::AllLabels => RequestView::AllLabels,
            Request::DeleteLabel(id) => RequestView::DeleteLabel(*id),
        }
    }
}

/// What an operation that succeeded hands to the caller.
#[derive(Debug)]
pub enum Answer {
    /// The item that was created, found or changed.
    Item(TodoEntity),
    /// All items.
    Items(Vec<TodoEntity>),
    /// The label that was created.
    Label(Label),
    /// All labels.
    Labels(Vec<Label>),
    /// The item, or the label, is deleted.
    Deleted,
}

/// An `Answer` as a mathematical value.
pub enum AnswerView {
    Item(TodoEntityView),
    Items(Seq<TodoEntityView>),
    Label(LabelView),
    Labels(Seq<LabelView>),
    Deleted,
}

impl View for Answer {
    type V = AnswerView;

    open spec fn view(&self) -> AnswerView {
        match self {
            Answer::Item(todo) => AnswerView::Item(todo@),
            Answer::Items(todos) => AnswerView::Items(entities_view(todos@)),
            Answer::Label(label) => AnswerView::Label(label@),
            Answer::Labels(labels) => AnswerView::Labels(labels_view(labels@)),
            Answer::Deleted => AnswerView::Deleted,
        }
    }
}

/// How far an operation has come: the statement that was issued last, and
/// what is still needed to go on once its reply is there.
#[derive(Debug)]
pub enum Plan {
    /// `SelectAll` was issued.
    Listing,
    /// `SelectTodo` was issued outside a transaction; its rows are the answer.
    Reading { id: i32 },
    /// `Begin` was issued to create an item.
    Creating { payload: CreateTodo },
    /// `InsertTodo` was issued.
    Inserting { label_ids: Vec<i32> },
    /// `InsertTodoLabels` was issued.
    Tying { id: i32 },
    /// `Commit` was issued; the item is read afterwards.
    Committing { id: i32 },
    /// `Begin` was issued to change an item.
    Updating { id: i32, change: UpdateTodo },
    /// `SelectTodo` was issued inside the transaction, to see the item as it
    /// is before the change.
    Checking { id: i32, change: UpdateTodo },
    /// `UpdateTodo` was issued.
    Writing { id: i32, ties: Option<Vec<i32>> },
    /// `DeleteTodoLabels` was issued to replace the item's labels.
    Clearing { id: i32, label_ids: Vec<i32> },
    /// `Begin` was issued to delete an item.
    Deleting { id: i32 },
    /// `DeleteTodoLabels` was issued to delete the item.
    Untying { id: i32 },
    /// `DeleteTodo` was issued.
    Removing { id: i32 },
    /// `Commit` was issued; nothing is read afterwards.
    Closing,
    /// `SelectLabels` was issued.
    LabelListing,
    /// `Begin` was issued to create a label.
    LabelCreating { name: String },
    /// `InsertLabel` was issued.
    LabelInserting,
    /// `Commit` was issued; the label is the answer.
    LabelCommitting { label: Label },
    /// `Begin` was issued to delete a label.
    LabelDeleting { id: i32 },
    /// `DeleteLabelTies` was issued.
    LabelUntying { id: i32 },
    /// `DeleteLabel` was issued.
    LabelRemoving { id: i32 },
    /// `Rollback` was issued; the error is what the caller is told.
    Aborting { error: RepositoryError },
}

/// A `Plan` as a mathematical value.
pub enum PlanView {
    Listing,
    Reading { id: i32 },
    Creating { payload: CreateTodoView },
    Inserting { label_ids: Seq<i32> },
    Tying { id: i32 },
    Committing { id: i32 },
    Updating { id: i32, change: UpdateTodoView },
    Checking { id: i32, change: UpdateTodoView },
    Writing { id: i32, ties: Option<Seq<i32>> },
    Clearing { id: i32, label_ids: Seq<i32> },
    Deleting { id: i32 },
    Untying { id: i32 },
    Removing { id: i32 },
    Closing,
    LabelListing,
    LabelCreating { name: Seq<char> },
    LabelInserting,
    LabelCommitting { label: LabelView },
    LabelDeleting { id: i32 },
    LabelUntying { id: i32 },
    LabelRemoving { id: i32 },
    Aborting { error: RepositoryErrorView },
}

impl View for Plan {
    type V = PlanView;

    open spec fn view(&self) -> PlanView {
        match self {
            Plan::Listing => PlanView::Listing,
            Plan::Reading { id } => PlanView::Reading { id: *id },
            Plan::Creating { payload } => PlanView::Creating { payload: payload@ },
            Plan::Inserting { label_ids } => PlanView::Inserting { label_ids: label_ids@ },
            Plan::Tying { id } => PlanView::Tying { id: *id },
            Plan::Committing { id } => PlanView::Committing { id: *id },
            Plan::Updating { id, change } => PlanView::Updating { id: *id, change: change@ },
            Plan::Checking { id, change } => PlanView::Checking { id: *id, change: change@ },
            Plan::Writing { id, ties } => PlanView::Writing {
                id: *id,
                ties: match ties {
                    Some(label_ids) => Some(label_ids@),
                    None => None,
                },
            },
            Plan::Clearing { id, label_ids } => PlanView::Clearing {
                id: *id,
                label_ids: label_ids@,
            },
            Plan::Deleting { id } => PlanView::Deleting { id: *id },
            Plan::Untying { id } => PlanView::Untying { id: *id },
            Plan::Removing { id } => PlanView::Removing { id: *id },
            Plan::Closing => PlanView::Closing,
            Plan::LabelListing => PlanView::LabelListing,
            Plan::LabelCreating { name } => PlanView::LabelCreating { name: name@ },
            Plan::LabelInserting => PlanView::LabelInserting,
            Plan::LabelCommitting { label } => PlanView::LabelCommitting { label: label@ },
            Plan::LabelDeleting { id } => PlanView::LabelDeleting { id: *id },
            Plan::LabelUntying { id } => PlanView::LabelUntying { id: *id },
            Plan::LabelRemoving { id } => PlanView::LabelRemoving { id: *id },
            Plan::Aborting { error } => PlanView::Aborting { error: error@ },
        }
    }
}

/// What is to be done next for an operation.
#[derive(Debug)]
pub enum Step {
    /// Issue the statement, and hand its reply and the plan to `advance`.
    Run(Command, Plan),
    /// The operation is over: this is what the caller is told.
    Finish(Result<Answer, RepositoryError>),
}

/// A `Step` as a mathematical value.
pub enum StepView {
    Run(CommandView, PlanView),
    Finish(Result<AnswerView, RepositoryErrorView>),
}

impl View for Step {
    type V = StepView;

    open spec fn view(&self) -> StepView {
        match self {
            Step::Run(command, plan) => StepView::Run(command@, plan@),
            Step::Finish(Ok(answer)) => StepView::Finish(Ok(answer@)),
            Step::Finish(Err(error)) => StepView::Finish(Err(error@)),
        }
    }
}

/// The message of the failure that stands for a reply of a kind that the
/// statement cannot have.
pub open spec fn misfit() -> Seq<char> {
    "the reply does not fit the statement"@
}

/// The failure that a reply stands for when it is not the reply that was
/// hoped for: the backend's own, or one that says that the reply does not fit.
pub open spec fn failure_in(reply: ReplyView) -> BackendFailureView {
    match reply {
        ReplyView::Failed(failure) => failure,
        _ => BackendFailureView { row_not_found: false, message: misfit() },
    }
}

/// The step that abandons the open transaction and keeps the error for the
/// caller.
pub open spec fn abort(error: RepositoryErrorView) -> StepView {
    StepView::Run(CommandView::Rollback, PlanView::Aborting { error })
}

/// What reading one item makes of the rows: the first item that they fold
/// into, or `NotFound` of the id where there is no row.
pub open spec fn item_in_rows(id: i32, rows: Seq<RowView>) -> Result<
    TodoEntityView,
    RepositoryErrorView,
> {
    if fold_rows(rows).len() > 0 {
        Ok(fold_rows(rows)[0])
    } else {
        Err(RepositoryErrorView::NotFound(id))
    }
}

/// The first step of an operation: a read asks for its rows at once, a
/// change opens a transaction first.
pub open spec fn first_step(request: RequestView) -> StepView {
    match request {
        RequestView::Create(payload) => StepView::Run(
            CommandView::Begin,
            PlanView::Creating { payload },
        ),
        RequestView::Find(id) => StepView::Run(
            CommandView::SelectTodo { id },
            PlanView::Reading { id },
        ),
        RequestView::All => StepView::Run(CommandView::SelectAll, PlanView::Listing),
        RequestView::Update(id, change) => StepView::Run(
            CommandView::Begin,
            PlanView::Updating { id, change },
        ),
        RequestView::Delete(id) => StepView::Run(CommandView::Begin, PlanView::Deleting { id }),
        RequestView::CreateLabel(name) => StepView::Run(
            CommandView::Begin,
            PlanView::LabelCreating { name },
        ),
        RequestView::AllLabels => StepView::Run(CommandView::SelectLabels, PlanView::LabelListing),
        RequestView::DeleteLabel(id) => StepView::Run(
            CommandView::Begin,
            PlanView::LabelDeleting { id },
        ),
    }
}

/// The step that follows a reply.
///
/// A reply of the kind that the last statement asks for leads on to the next
/// statement, or to the answer. Any other reply is a failure. A failure ends
/// the operation at once where no transaction is open: before `Begin` has
/// been answered, after `Commit` has been issued, and on a read outside a
/// transaction. Inside a transaction it leads to `Rollback` first.
pub open spec fn next_step(plan: PlanView, reply: ReplyView) -> StepView {
    match plan {
        PlanView::Listing => match reply {
            ReplyView::Rows(rows) => StepView::Finish(Ok(AnswerView::Items(fold_rows(rows)))),
            _ => StepView::Finish(Err(error_of_failure(None, failure_in(reply)))),
        },
        PlanView::Reading { id } => match reply {
            ReplyView::Rows(rows) => match item_in_rows(id, rows) {
                Ok(item) => StepView::Finish(Ok(AnswerView::Item(item))),
                Err(error) => StepView::Finish(Err(error)),
            },
            _ => StepView::Finish(Err(error_of_failure(Some(id), failure_in(reply)))),
        },
        PlanView::Creating { payload } => match reply {
            ReplyView::Done => StepView::Run(
                CommandView::InsertTodo { text: payload.text },
                PlanView::Inserting { label_ids: payload.labels },
            ),
            _ => StepView::Finish(Err(error_of_failure(None, failure_in(reply)))),
        },
        PlanView::Inserting { label_ids } => match reply {
            ReplyView::Inserted(todo) => StepView::Run(
                CommandView::InsertTodoLabels { todo_id: todo.id, label_ids },
                PlanView::Tying { id: todo.id },
            ),
            _ => abort(error_of_failure(None, failure_in(reply))),
        },
        PlanView::Tying { id } => match reply {
            ReplyView::Affected(_) => StepView::Run(
                CommandView::Commit,
                PlanView::Committing { id },
            ),
            _ => abort(error_of_failure(Some(id), failure_in(reply))),
        },
        PlanView::Committing { id } => match reply {
            ReplyView::Done => StepView::Run(
                CommandView::SelectTodo { id },
                PlanView::Reading { id },
            ),
            _ => StepView::Finish(Err(error_of_failure(None, failure_in(reply)))),
        },
        PlanView::Updating { id, change } => match reply {
            ReplyView::Done => StepView::Run(
                CommandView::SelectTodo { id },
                PlanView::Checking { id, change },
            ),
            _ => StepView::Finish(Err(error_of_failure(None, failure_in(reply)))),
        },
        PlanView::Checking { id, change } => match reply {
            ReplyView::Rows(rows) => match item_in_rows(id, rows) {
                Ok(item) => StepView::Run(
                    CommandView::UpdateTodo {
                        id,
                        text: match change.text {
                            Some(text) => text,
                            None => item.text,
                        },
                        completed: match change.completed {
                            Some(completed) => completed,
                            None => item.completed,
                        },
                    },
                    PlanView::Writing { id, ties: change.labels },
                ),
                Err(error) => abort(error),
            },
            _ => abort(error_of_failure(Some(id), failure_in(reply))),
        },
        PlanView::Writing { id, ties } => match reply {
            ReplyView::Affected(count) => if count == 0 {
                abort(RepositoryErrorView::NotFound(id))
            } else {
                match ties {
                    Some(label_ids) => StepView::Run(
                        CommandView::DeleteTodoLabels { todo_id: id },
                        PlanView::Clearing { id, label_ids },
                    ),
                    None => StepView::Run(CommandView::Commit, PlanView::Committing { id }),
                }
            },
            _ => abort(error_of_failure(Some(id), failure_in(reply))),
        },
        PlanView::Clearing { id, label_ids } => match reply {
            ReplyView::Affected(_) => StepView::Run(
                CommandView::InsertTodoLabels { todo_id: id, label_ids },
                PlanView::Tying { id },
            ),
            _ => abort(error_of_failure(Some(id), failure_in(reply))),
        },
        PlanView::Deleting { id } => match reply {
            ReplyView::Done => StepView::Run(
                CommandView::DeleteTodoLabels { todo_id: id },
                PlanView::Untying { id },
            ),
            _ => StepView::Finish(Err(error_of_failure(None, failure_in(reply)))),
        },
        PlanView::Untying { id } => match reply {
            ReplyView::Affected(_) => StepView::Run(
                CommandView::DeleteTodo { id },
                PlanView::Removing { id },
            ),
            _ => abort(error_of_failure(Some(id), failure_in(reply))),
        },
        PlanView::Removing { id } => match reply {
            ReplyView::Affected(count) => if count == 0 {
                abort(RepositoryErrorView::NotFound(id))
            } else {
                StepView::Run(CommandView::Commit, PlanView::Closing)
            },
            _ => abort(error_of_failure(Some(id), failure_in(reply))),
        },
        PlanView::Closing => match reply {
            ReplyView::Done => StepView::Finish(Ok(AnswerView::Deleted)),
            _ => StepView::Finish(Err(error_of_failure(None, failure_in(reply)))),
        },
        PlanView::LabelListing => match reply {
            ReplyView::Labels(labels) => StepView::Finish(Ok(AnswerView::Labels(labels))),
            _ => StepView::Finish(Err(error_of_failure(None, failure_in(reply)))),
        },
        PlanView::LabelCreating { name } => match reply {
            ReplyView::Done => StepView::Run(
                CommandView::InsertLabel { name },
                PlanView::LabelInserting,
            ),
            _ => StepView::Finish(Err(error_of_failure(None, failure_in(reply)))),
        },
        PlanView::LabelInserting => match reply {
            ReplyView::InsertedLabel(label) => StepView::Run(
                CommandView::Commit,
                PlanView::LabelCommitting { label },
            ),
            _ => abort(error_of_failure(None, failure_in(reply))),
        },
        PlanView::LabelCommitting { label } => match reply {
            ReplyView::Done => StepView::Finish(Ok(AnswerView::Label(label))),
            _ => StepView::Finish(Err(error_of_failure(None, failure_in(reply)))),
        },
        PlanView::LabelDeleting { id } => match reply {
            ReplyView::Done => StepView::Run(
                CommandView::DeleteLabelTies { label_id: id },
                PlanView::LabelUntying { id },
            ),
            _ => StepView::Finish(Err(error_of_failure(None, failure_in(reply)))),
        },
        PlanView::LabelUntying { id } => match reply {
            ReplyView::Affected(_) => StepView::Run(
                CommandView::DeleteLabel { id },
                PlanView::LabelRemoving { id },
            ),
            _ => abort(error_of_failure(Some(id), failure_in(reply))),
        },
        PlanView::LabelRemoving { id } => match reply {
            ReplyView::Affected(count) => if count == 0 {
                abort(RepositoryErrorView::NotFound(id))
            } else {
                StepView::Run(CommandView::Commit, PlanView::Closing)
            },
            _ => abort(error_of_failure(Some(id), failure_in(reply))),
        },
        PlanView::Aborting { error } => StepView::Finish(Err(error)),
    }
}

impl CommandView {
    /// Whether the statement changes what the backend holds.
    pub open spec fn writes(self) -> bool {
        match self {
            CommandView::InsertTodo { .. } => true,
            CommandView::InsertTodoLabels { .. } => true,
            CommandView::UpdateTodo { .. } => true,
            CommandView::DeleteTodoLabels { .. } => true,
            CommandView::DeleteTodo { .. } => true,
            CommandView::InsertLabel { .. } => true,
            CommandView::DeleteLabelTies { .. } => true,
            CommandView::DeleteLabel { .. } => true,
            _ => false,
        }
    }

    /// Whether the statement ends a transaction.
    pub open spec fn closes(self) -> bool {
        self == CommandView::Commit || self == CommandView::Rollback
    }
}

/// The kinds of answer that an operation can give.
pub enum AnswerKind {
    Item,
    Items,
    Label,
    Labels,
    Deleted,
}

impl AnswerView {
    /// The kind of the answer.
    pub open spec fn kind(self) -> AnswerKind {
        match self {
            AnswerView::Item(_) => AnswerKind::Item,
            AnswerView::Items(_) => AnswerKind::Items,
            AnswerView::Label(_) => AnswerKind::Label,
            AnswerView::Labels(_) => AnswerKind::Labels,
            AnswerView::Deleted => AnswerKind::Deleted,
        }
    }
}

impl RequestView {
    /// The kind of answer that the operation is asked for.
    pub open spec fn asks_for(self) -> AnswerKind {
        match self {
            RequestView::All => AnswerKind::Items,
            RequestView::Delete(_) => AnswerKind::Deleted,
            RequestView::CreateLabel(_) => AnswerKind::Label,
            RequestView::AllLabels => AnswerKind::Labels,
            RequestView::DeleteLabel(_) => AnswerKind::Deleted,
            _ => AnswerKind::Item,
        }
    }

    /// Whether the operation changes what the backend holds.
    pub open spec fn changes(self) -> bool {
        !(self is Find || self is All || self is AllLabels)
    }
}

impl PlanView {
    /// Whether the statement that was issued last stands inside an open
    /// transaction: `Begin` has been answered, and neither `Commit` nor
    /// `Rollback` has been issued.
    pub open spec fn in_transaction(self) -> bool {
        match self {
            PlanView::Inserting { .. } => true,
            PlanView::Tying { .. } => true,
            PlanView::Checking { .. } => true,
            PlanView::Writing { .. } => true,
            PlanView::Clearing { .. } => true,
            PlanView::Untying { .. } => true,
            PlanView::Removing { .. } => true,
            PlanView::LabelInserting => true,
            PlanView::LabelUntying { .. } => true,
            PlanView::LabelRemoving { .. } => true,
            _ => false,
        }
    }

    /// Whether `Begin` was issued last.
    pub open spec fn opening(self) -> bool {
        self is Creating || self is Updating || self is Deleting || self is LabelCreating
            || self is LabelDeleting
    }

    /// The kind of answer that the operation works towards; none once the
    /// transaction is being abandoned.
    pub open spec fn works_for(self) -> Option<AnswerKind> {
        match self {
            PlanView::Listing => Some(AnswerKind::Items),
            PlanView::Deleting { .. } => Some(AnswerKind::Deleted),
            PlanView::Untying { .. } => Some(AnswerKind::Deleted),
            PlanView::Removing { .. } => Some(AnswerKind::Deleted),
            PlanView::Closing => Some(AnswerKind::Deleted),
            PlanView::LabelListing => Some(AnswerKind::Labels),
            PlanView::LabelCreating { .. } => Some(AnswerKind::Label),
            PlanView::LabelInserting => Some(AnswerKind::Label),
            PlanView::LabelCommitting { .. } => Some(AnswerKind::Label),
            PlanView::LabelDeleting { .. } => Some(AnswerKind::Deleted),
            PlanView::LabelUntying { .. } => Some(AnswerKind::Deleted),
            PlanView::LabelRemoving { .. } => Some(AnswerKind::Deleted),
            PlanView::Aborting { .. } => None,
            _ => Some(AnswerKind::Item),
        }
    }
}

/// The statements that are issued, in their order, when the operation goes on
/// from the step and the backend answers with the replies one after the
/// other. A reply that is left over when the operation is over is not read.
pub open spec fn statements(step: StepView, replies: Seq<ReplyView>) -> Seq<CommandView>
    decreases replies.len(),
{
    match step {
        StepView::Run(command, plan) => if replies.len() == 0 {
            seq![command]
        } else {
            seq![command] + statements(next_step(plan, replies[0]), replies.drop_first())
        },
        StepView::Finish(_) => Seq::empty(),
    }
}

/// The step that is reached when the operation goes on from the step and the
/// backend answers with the replies one after the other.
pub open spec fn outcome(step: StepView, replies: Seq<ReplyView>) -> StepView
    decreases replies.len(),
{
    match step {
        StepView::Run(command, plan) => if replies.len() == 0 {
            step
        } else {
            outcome(next_step(plan, replies[0]), replies.drop_first())
        },
        StepView::Finish(_) => step,
    }
}

/// Whether the statements keep to the discipline of transactions, from a
/// point at which a transaction is open or not: a statement that writes
/// stands inside a transaction, `Begin` stands outside one and opens one when
/// it is answered with `Done`, `Commit` and `Rollback` stand inside one and
/// end it, and no statement follows a `Begin` that was not answered so.
pub open spec fn orderly(commands: Seq<CommandView>, replies: Seq<ReplyView>, open: bool) -> bool
    decreases commands.len(),
{
    if commands.len() == 0 {
        true
    } else {
        let command = commands[0];
        let rest = commands.drop_first();
        let left = if replies.len() > 0 {
            replies.drop_first()
        } else {
            replies
        };
        if command == CommandView::Begin {
            !open && if replies.len() > 0 && replies[0] == ReplyView::Done {
                orderly(rest, left, true)
            } else {
                rest.len() == 0
            }
        } else if command.closes() {
            open && orderly(rest, left, false)
        } else if command.writes() {
            open && orderly(rest, left, true)
        } else {
            orderly(rest, left, open)
        }
    }
}

/// Whether the statement is the one that the plan says was issued last.
pub open spec fn fits(command: CommandView, plan: PlanView) -> bool {
    match plan {
        PlanView::Listing => command == CommandView::SelectAll,
        PlanView::Reading { id } => command == (CommandView::SelectTodo { id }),
        PlanView::Creating { .. } => command == CommandView::Begin,
        PlanView::Inserting { .. } => command is InsertTodo,
        PlanView::Tying { id } => command is InsertTodoLabels && command->InsertTodoLabels_todo_id
            == id,
        PlanView::Committing { .. } => command == CommandView::Commit,
        PlanView::Updating { .. } => command == CommandView::Begin,
        PlanView::Checking { id, .. } => command == (CommandView::SelectTodo { id }),
        PlanView::Writing { id, .. } => command is UpdateTodo && command->UpdateTodo_id == id,
        PlanView::Clearing { id, .. } => command == (CommandView::DeleteTodoLabels {
            todo_id: id,
        }),
        PlanView::Deleting { .. } => command == CommandView::Begin,
        PlanView::Untying { id } => command == (CommandView::DeleteTodoLabels { todo_id: id }),
        PlanView::Removing { id } => command == (CommandView::DeleteTodo { id }),
        PlanView::Closing => command == CommandView::Commit,
        PlanView::LabelListing => command == CommandView::SelectLabels,
        PlanView::LabelCreating { .. } => command == CommandView::Begin,
        PlanView::LabelInserting => command is InsertLabel,
        PlanView::LabelCommitting { .. } => command == CommandView::Commit,
        PlanView::LabelDeleting { .. } => command == CommandView::Begin,
        PlanView::LabelUntying { id } => command == (CommandView::DeleteLabelTies {
            label_id: id,
        }),
        PlanView::LabelRemoving { id } => command == (CommandView::DeleteLabel { id }),
        PlanView::Aborting { .. } => command == CommandView::Rollback,
    }
}

/// Whether the step, where it issues a statement, issues the one that its
/// plan says was issued last.
pub open spec fn sound(step: StepView) -> bool {
    match step {
        StepView::Run(command, plan) => fits(command, plan),
        StepView::Finish(_) => true,
    }
}

/// Every step that `first_step` and `next_step` give issues the statement
/// that its plan names, and each statement names the item that the operation
/// is about.
pub proof fn law_steps_are_sound(request: RequestView, plan: PlanView, reply: ReplyView)
    ensures
        sound(first_step(request)),
        sound(next_step(plan, reply)),
{
}

/// Whether a transaction is open when the statement of the step is issued.
pub open spec fn stands_open(step: StepView) -> bool {
    match step {
        StepView::Run(command, plan) => plan.in_transaction() || command.closes(),
        StepView::Finish(_) => false,
    }
}

/// A statement that writes is only issued inside a transaction, and a
/// transaction is only entered by a `Begin` that was answered with `Done`.
pub proof fn law_writes_stand_in_transactions(plan: PlanView, reply: ReplyView)
    ensures
        match next_step(plan, reply) {
            StepView::Run(command, next) => {
                &&& command.writes() ==> next.in_transaction()
                &&& next.in_transaction() ==> plan.in_transaction() || (plan.opening() && reply
                    == ReplyView::Done)
                &&& command == CommandView::Begin ==> false
            },
            StepView::Finish(_) => true,
        },
{
}

/// A transaction is never left open: from inside one the operation goes on
/// inside it, or issues `Commit` or `Rollback`; it does not end there.
pub proof fn law_transactions_are_closed(plan: PlanView, reply: ReplyView)
    requires
        plan.in_transaction(),
    ensures
        match next_step(plan, reply) {
            StepView::Run(command, next) => next.in_transaction() != command.closes(),
            StepView::Finish(_) => false,
        },
{
}

/// A failure inside a transaction leads to `Rollback` and to nothing else,
/// and what the caller is told after the rollback is the error of that
/// failure, whatever the backend answers to the rollback.
pub proof fn law_failure_rolls_back(plan: PlanView, reply: ReplyView, after: ReplyView)
    requires
        plan.in_transaction(),
        reply is Failed,
    ensures
        match next_step(plan, reply) {
            StepView::Run(command, next) => command == CommandView::Rollback && match next_step(
                next,
                after,
            ) {
                StepView::Finish(Err(error)) => error is Unexpected || (error is NotFound
                    && reply->Failed_0.row_not_found),
                _ => false,
            },
            StepView::Finish(_) => false,
        },
{
}

/// A failure never leads to `Commit`, nor to an answer.
pub proof fn law_failure_never_commits(plan: PlanView, reply: ReplyView)
    requires
        reply is Failed,
    ensures
        match next_step(plan, reply) {
            StepView::Run(command, _) => command == CommandView::Rollback,
            StepView::Finish(told) => told is Err,
        },
{
}

/// An id that names nothing is answered with `NotFound` of that id: by a
/// read that gets no row, by a change that finds no row to change, and by a
/// deletion, of an item or of a label, that removes no row. Those that stand
/// in a transaction abandon it first.
pub proof fn law_missing_row_is_not_found(id: i32, payload: UpdateTodoView, after: ReplyView)
    ensures
        next_step(PlanView::Reading { id }, ReplyView::Rows(Seq::empty())) == StepView::Finish(
            Err(RepositoryErrorView::NotFound(id)),
        ),
        next_step(PlanView::Checking { id, change: payload }, ReplyView::Rows(Seq::empty())) == abort(
            RepositoryErrorView::NotFound(id),
        ),
        next_step(PlanView::Removing { id }, ReplyView::Affected(0)) == abort(
            RepositoryErrorView::NotFound(id),
        ),
        next_step(PlanView::LabelRemoving { id }, ReplyView::Affected(0)) == abort(
            RepositoryErrorView::NotFound(id),
        ),
        next_step(PlanView::Aborting { error: RepositoryErrorView::NotFound(id) }, after)
            == StepView::Finish(Err(RepositoryErrorView::NotFound(id))),
{
    assert(fold_rows(Seq::<RowView>::empty()).len() == 0);
}

/// Rows that are there are never answered with `NotFound`: a read of at
/// least one row gives the item that the rows fold into.
pub proof fn law_rows_give_an_item(id: i32, rows: Seq<RowView>)
    requires
        rows.len() > 0,
    ensures
        item_in_rows(id, rows) is Ok,
        next_step(PlanView::Reading { id }, ReplyView::Rows(rows)) == StepView::Finish(
            Ok(AnswerView::Item(fold_rows(rows)[0])),
        ),
{
    lemma_fold_is_not_empty(rows);
}

/// Rows fold into at least one item.
pub proof fn lemma_fold_is_not_empty(rows: Seq<RowView>)
    requires
        rows.len() > 0,
    ensures
        fold_rows(rows).len() > 0,
{
    let earlier = fold_rows(rows.drop_last());
    crate::fold::lemma_position(earlier, rows.last().id);
}

/// An operation keeps working towards the kind of answer that it was asked
/// for, and an answer that it gives is of that kind.
pub proof fn law_steps_keep_the_kind(plan: PlanView, reply: ReplyView)
    ensures
        match next_step(plan, reply) {
            StepView::Run(_, next) => next.works_for() is Some ==> next.works_for()
                == plan.works_for(),
            StepView::Finish(Ok(answer)) => plan.works_for() == Some(answer.kind()),
            StepView::Finish(Err(_)) => true,
        },
{
}

/// Whatever the backend answers, an operation that gives an answer gives one
/// of the kind that the request asks for.
pub proof fn law_answer_fits_request(request: RequestView, replies: Seq<ReplyView>)
    ensures
        match outcome(first_step(request), replies) {
            StepView::Finish(Ok(answer)) => answer.kind() == request.asks_for(),
            _ => true,
        },
{
    let step = first_step(request);
    lemma_outcome_keeps_the_kind(step, replies, request.asks_for());
}

/// From a step that works towards a kind of answer, only answers of that
/// kind are reached.
pub proof fn lemma_outcome_keeps_the_kind(
    step: StepView,
    replies: Seq<ReplyView>,
    kind: AnswerKind,
)
    requires
        match step {
            StepView::Run(_, plan) => plan.works_for() is Some ==> plan.works_for() == Some(
                kind,
            ),
            StepView::Finish(Ok(answer)) => answer.kind() == kind,
            StepView::Finish(Err(_)) => true,
        },
    ensures
        match outcome(step, replies) {
            StepView::Finish(Ok(answer)) => answer.kind() == kind,
            _ => true,
        },
    decreases replies.len(),
{
    match step {
        StepView::Run(_, plan) => {
            if replies.len() > 0 {
                law_steps_keep_the_kind(plan, replies[0]);
                lemma_outcome_keeps_the_kind(
                    next_step(plan, replies[0]),
                    replies.drop_first(),
                    kind,
                );
            }
        },
        StepView::Finish(_) => {},
    }
}

/// Whatever the backend answers, the statements of an operation keep to the
/// discipline of transactions: every statement that writes stands between a
/// `Begin` that was answered with `Done` and the `Commit` or `Rollback` that
/// ends that transaction.
pub proof fn law_statements_are_orderly(request: RequestView, replies: Seq<ReplyView>)
    ensures
        orderly(statements(first_step(request), replies), replies, false),
{
    lemma_statements_are_orderly(first_step(request), replies);
}

/// From a sound step the statements keep to the discipline of transactions,
/// with a transaction open exactly where the step stands inside one or ends
/// one.
pub proof fn lemma_statements_are_orderly(step: StepView, replies: Seq<ReplyView>)
    requires
        sound(step),
    ensures
        orderly(statements(step, replies), replies, stands_open(step)),
    decreases replies.len(),
{
    match step {
        StepView::Run(command, plan) => {
            let commands = statements(step, replies);
            assert(commands[0] == command);
            if replies.len() > 0 {
                let next = next_step(plan, replies[0]);
                let rest = statements(next, replies.drop_first());
                law_steps_are_sound(RequestView::All, plan, replies[0]);
                lemma_statements_are_orderly(next, replies.drop_first());
                assert(commands.drop_first() =~= rest);
                if command == CommandView::Begin {
                    assert(replies[0] == ReplyView::Done ==> stands_open(next));
                    assert(replies[0] != ReplyView::Done ==> rest.len() == 0);
                } else if command.closes() {
                    assert(!stands_open(next));
                } else if command.writes() {
                    assert(stands_open(next));
                } else {
                    assert(stands_open(next) == stands_open(step) || rest.len() == 0);
                }
            } else {
                assert(commands.drop_first() =~= Seq::empty());
                assert(orderly(commands.drop_first(), replies, false));
                assert(orderly(commands.drop_first(), replies, true));
            }
        },
        StepView::Finish(_) => {},
    }
}

/// With a backend that serves every statement, deleting an item removes its
/// ties to labels and then the item, in one transaction, and answers that the
/// item is deleted.
pub proof fn law_delete_unties_then_removes(id: i32, untied: u64, removed: u64)
    requires
        removed > 0,
    ensures
        ({
            let replies = seq![
                ReplyView::Done,
                ReplyView::Affected(untied),
                ReplyView::Affected(removed),
                ReplyView::Done,
            ];
            let step = first_step(RequestView::Delete(id));
            &&& statements(step, replies) == seq![
                CommandView::Begin,
                CommandView::DeleteTodoLabels { todo_id: id },
                CommandView::DeleteTodo { id },
                CommandView::Commit,
            ]
            &&& outcome(step, replies) == StepView::Finish(Ok(AnswerView::Deleted))
        }),
{
    let replies = seq![
        ReplyView::Done,
        ReplyView::Affected(untied),
        ReplyView::Affected(removed),
        ReplyView::Done,
    ];
    let step = first_step(RequestView::Delete(id));
    reveal_with_fuel(statements, 6);
    reveal_with_fuel(outcome, 6);
    let r1 = replies.drop_first();
    let r2 = r1.drop_first();
    let r3 = r2.drop_first();
    let r4 = r3.drop_first();
    assert(r4.len() == 0);
    assert(statements(step, replies) =~= seq![
        CommandView::Begin,
        CommandView::DeleteTodoLabels { todo_id: id },
        CommandView::DeleteTodo { id },
        CommandView::Commit,
    ]);
}

/// With a backend that serves every statement, creating an item inserts it
/// and its ties in one transaction, and then reads it: the caller gets what
/// the rows of the new id fold into.
pub proof fn law_create_inserts_then_reads(
    payload: CreateTodoView,
    inserted: TodoView,
    tied: u64,
    rows: Seq<RowView>,
)
    ensures
        ({
            let replies = seq![
                ReplyView::Done,
                ReplyView::Inserted(inserted),
                ReplyView::Affected(tied),
                ReplyView::Done,
                ReplyView::Rows(rows),
            ];
            let step = first_step(RequestView::Create(payload));
            &&& statements(step, replies) == seq![
                CommandView::Begin,
                CommandView::InsertTodo { text: payload.text },
                CommandView::InsertTodoLabels { todo_id: inserted.id, label_ids: payload.labels },
                CommandView::Commit,
                CommandView::SelectTodo { id: inserted.id },
            ]
            &&& outcome(step, replies) == match item_in_rows(inserted.id, rows) {
                Ok(item) => StepView::Finish(Ok(AnswerView::Item(item))),
                Err(error) => StepView::Finish(Err(error)),
            }
        }),
{
    let replies = seq![
        ReplyView::Done,
        ReplyView::Inserted(inserted),
        ReplyView::Affected(tied),
        ReplyView::Done,
        ReplyView::Rows(rows),
    ];
    let step = first_step(RequestView::Create(payload));
    reveal_with_fuel(statements, 7);
    reveal_with_fuel(outcome, 7);
    let r1 = replies.drop_first();
    let r2 = r1.drop_first();
    let r3 = r2.drop_first();
    let r4 = r3.drop_first();
    let r5 = r4.drop_first();
    assert(r5.len() == 0);
    assert(statements(step, replies) =~= seq![
        CommandView::Begin,
        CommandView::InsertTodo { text: payload.text },
        CommandView::InsertTodoLabels { todo_id: inserted.id, label_ids: payload.labels },
        CommandView::Commit,
        CommandView::SelectTodo { id: inserted.id },
    ]);
}

/// A change writes, for each field of the record that the payload leaves
/// out, what the item holds before the change; and where the payload gives no
/// label ids, no tie to a label is touched: the next statement after the
/// write is `Commit`.
pub proof fn law_update_writes_what_it_leaves_out(
    id: i32,
    payload: UpdateTodoView,
    rows: Seq<RowView>,
    written: u64,
)
    requires
        rows.len() > 0,
        written > 0,
    ensures
        ({
            let before = fold_rows(rows)[0];
            next_step(PlanView::Checking { id, change: payload }, ReplyView::Rows(rows)) == StepView::Run(
                CommandView::UpdateTodo {
                    id,
                    text: if payload.text is Some {
                        payload.text.unwrap()
                    } else {
                        before.text
                    },
                    completed: if payload.completed is Some {
                        payload.completed.unwrap()
                    } else {
                        before.completed
                    },
                },
                PlanView::Writing { id, ties: payload.labels },
            )
        }),
        payload.labels is None ==> next_step(
            PlanView::Writing { id, ties: payload.labels },
            ReplyView::Affected(written),
        ) == StepView::Run(CommandView::Commit, PlanView::Committing { id }),
{
    lemma_fold_is_not_empty(rows);
}

/// A change that gives label ids removes every tie of the item and then ties
/// it to the ids that were given: with an empty list the item is left without
/// a tie, however often the change is made.
pub proof fn law_update_replaces_ties(id: i32, label_ids: Seq<i32>, written: u64, untied: u64)
    requires
        written > 0,
    ensures
        next_step(
            PlanView::Writing { id, ties: Some(label_ids) },
            ReplyView::Affected(written),
        ) == StepView::Run(
            CommandView::DeleteTodoLabels { todo_id: id },
            PlanView::Clearing { id, label_ids },
        ),
        next_step(PlanView::Clearing { id, label_ids }, ReplyView::Affected(untied))
            == StepView::Run(
            CommandView::InsertTodoLabels { todo_id: id, label_ids },
            PlanView::Tying { id },
        ),
{
}

/// Reads one item out of the rows that the backend answered with.
pub fn find_in_rows(id: i32, rows: Vec<TodoWithLabelFromRow>) -> (found: Result<
    TodoEntity,
    RepositoryError,
>)
    ensures
        match found {
            Ok(todo) => item_in_rows(id, rows_view(rows@)) == Ok::<
                TodoEntityView,
                RepositoryErrorView,
            >(todo@),
            Err(error) => item_in_rows(id, rows_view(rows@)) == Err::<
                TodoEntityView,
                RepositoryErrorView,
            >(error@),
        },
{
    let todos = fold_entities(rows);
    if todos.len() > 0 {
        Ok(todos[0].clone())
    } else {
        Err(RepositoryError::NotFound(id))
    }
}

/// The failure that a reply stands for when it is not the reply that was
/// hoped for.
fn failure_of(reply: Reply) -> (failure: BackendFailure)
    ensures
        failure@ == failure_in(reply@),
{
    match reply {
        Reply::Failed(failure) => failure,
        _ => BackendFailure {
            row_not_found: false,
            message: "the reply does not fit the statement".to_owned(),
        },
    }
}

/// Ends the operation with the error that the reply stands for.
fn fail(id: Option<i32>, reply: Reply) -> (step: Step)
    ensures
        step@ == StepView::Finish(Err(error_of_failure(id, failure_in(reply@)))),
{
    Step::Finish(Err(RepositoryError::from_failure(id, failure_of(reply))))
}

/// Abandons the transaction and keeps the error for the caller.
fn give_up(error: RepositoryError) -> (step: Step)
    ensures
        step@ == abort(error@),
{
    Step::Run(Command::Rollback, Plan::Aborting { error })
}

/// Abandons the transaction with the error that the reply stands for.
fn give_up_on(id: Option<i32>, reply: Reply) -> (step: Step)
    ensures
        step@ == abort(error_of_failure(id, failure_in(reply@))),
{
    give_up(RepositoryError::from_failure(id, failure_of(reply)))
}

/// Gives the first step of an operation.
pub fn start(request: Request) -> (step: Step)
    ensures
        step@ == first_step(request@),
{
    match request {
        Request::Create(payload) => Step::Run(Command::Begin, Plan::Creating { payload }),
        Request::Find(id) => Step::Run(Command::SelectTodo { id }, Plan::Reading { id }),
        Request::All => Step::Run(Command::SelectAll, Plan::Listing),
        Request::Update(id, change) => Step::Run(Command::Begin, Plan::Updating { id, change }),
        Request::Delete(id) => Step::Run(Command::Begin, Plan::Deleting { id }),
        Request::CreateLabel(name) => Step::Run(Command::Begin, Plan::LabelCreating { name }),
        Request::AllLabels => Step::Run(Command::SelectLabels, Plan::LabelListing),
        Request::DeleteLabel(id) => Step::Run(Command::Begin, Plan::LabelDeleting { id }),
    }
}

/// Gives the step that follows the reply to the statement that was issued
/// last.
pub fn advance(plan: Plan, reply: Reply) -> (step: Step)
    ensures
        step@ == next_step(plan@, reply@),
{
    match plan {
        Plan::Listing => match reply {
            Reply::Rows(rows) => Step::Finish(Ok(Answer::Items(fold_entities(rows)))),
            other => fail(None, other),
        },
        Plan::Reading { id } => match reply {
            Reply::Rows(rows) => match find_in_rows(id, rows) {
                Ok(todo) => Step::Finish(Ok(Answer::Item(todo))),
                Err(error) => Step::Finish(Err(error)),
            },
            other => fail(Some(id), other),
        },
        Plan::Creating { payload } => match reply {
            Reply::Done => Step::Run(
                Command::InsertTodo { text: payload.text },
                Plan::Inserting { label_ids: payload.labels },
            ),
            other => fail(None, other),
        },
        Plan::Inserting { label_ids } => match reply {
            Reply::Inserted(todo) => Step::Run(
                Command::InsertTodoLabels { todo_id: todo.id, label_ids },
                Plan::Tying { id: todo.id },
            ),
            other => give_up_on(None, other),
        },
        Plan::Tying { id } => match reply {
            Reply::Affected(_) => Step::Run(Command::Commit, Plan::Committing { id }),
            other => give_up_on(Some(id), other),
        },
        Plan::Committing { id } => match reply {
            Reply::Done => Step::Run(Command::SelectTodo { id }, Plan::Reading { id }),
            other => fail(None, other),
        },
        Plan::Updating { id, change } => match reply {
            Reply::Done => Step::Run(Command::SelectTodo { id }, Plan::Checking { id, change }),
            other => fail(None, other),
        },
        Plan::Checking { id, change } => match reply {
            Reply::Rows(rows) => match find_in_rows(id, rows) {
                Ok(item) => Step::Run(
                    Command::UpdateTodo {
                        id,
                        text: match change.text {
                            Some(text) => text,
                            None => item.text,
                        },
                        completed: match change.completed {
                            Some(completed) => completed,
                            None => item.completed,
                        },
                    },
                    Plan::Writing { id, ties: change.labels },
                ),
                Err(error) => give_up(error),
            },
            other => give_up_on(Some(id), other),
        },
        Plan::Writing { id, ties } => match reply {
            Reply::Affected(count) => if count == 0 {
                give_up(RepositoryError::NotFound(id))
            } else {
                match ties {
                    Some(label_ids) => Step::Run(
                        Command::DeleteTodoLabels { todo_id: id },
                        Plan::Clearing { id, label_ids },
                    ),
                    None => Step::Run(Command::Commit, Plan::Committing { id }),
                }
            },
            other => give_up_on(Some(id), other),
        },
        Plan::Clearing { id, label_ids } => match reply {
            Reply::Affected(_) => Step::Run(
                Command::InsertTodoLabels { todo_id: id, label_ids },
                Plan::Tying { id },
            ),
            other => give_up_on(Some(id), other),
        },
        Plan::Deleting { id } => match reply {
            Reply::Done => Step::Run(
                Command::DeleteTodoLabels { todo_id: id },
                Plan::Untying { id },
            ),
            other => fail(None, other),
        },
        Plan::Untying { id } => match reply {
            Reply::Affected(_) => Step::Run(Command::DeleteTodo { id }, Plan::Removing { id }),
            other => give_up_on(Some(id), other),
        },
        Plan::Removing { id } => match reply {
            Reply::Affected(count) => if count == 0 {
                give_up(RepositoryError::NotFound(id))
            } else {
                Step::Run(Command::Commit, Plan::Closing)
            },
            other => give_up_on(Some(id), other),
        },
        Plan::Closing => match reply {
            Reply::Done => Step::Finish(Ok(Answer::Deleted)),
            other => fail(None, other),
        },
        Plan::LabelListing => match reply {
            Reply::Labels(labels) => Step::Finish(Ok(Answer::Labels(labels))),
            other => fail(None, other),
        },
        Plan::LabelCreating { name } => match reply {
            Reply::Done => Step::Run(Command::InsertLabel { name }, Plan::LabelInserting),
            other => fail(None, other),
        },
        Plan::LabelInserting => match reply {
            Reply::InsertedLabel(label) => Step::Run(
                Command::Commit,
                Plan::LabelCommitting { label },
            ),
            other => give_up_on(None, other),
        },
        Plan::LabelCommitting { label } => match reply {
            Reply::Done => Step::Finish(Ok(Answer::Label(label))),
            other => fail(None, other),
        },
        Plan::LabelDeleting { id } => match reply {
            Reply::Done => Step::Run(
                Command::DeleteLabelTies { label_id: id },
                Plan::LabelUntying { id },
            ),
            other => fail(None, other),
        },
        Plan::LabelUntying { id } => match reply {
            Reply::Affected(_) => Step::Run(Command::DeleteLabel { id }, Plan::LabelRemoving { id }),
            other => give_up_on(Some(id), other),
        },
        Plan::LabelRemoving { id } => match reply {
            Reply::Affected(count) => if count == 0 {
                give_up(RepositoryError::NotFound(id))
            } else {
                Step::Run(Command::Commit, Plan::Closing)
            },
            other => give_up_on(Some(id), other),
        },
        Plan::Aborting { error } => Step::Finish(Err(error)),
    }
}

} // verus!
