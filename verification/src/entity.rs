//! The entities that a repository stores, the payloads that change them, and
//! the flat rows that a relational backend answers with.

use vstd::prelude::*;

verus! {

/// The least number of characters in an item's text or a label's name.
pub const TEXT_MIN: u64 = 1;

/// The greatest number of characters in an item's text or a label's name.
pub const TEXT_MAX: u64 = 100;

/// Whether a text has a length that entities accept.
pub open spec fn text_fits(text: Seq<char>) -> bool {
    TEXT_MIN <= text.len() <= TEXT_MAX
}

/// A tag that items can carry.
#[derive(Debug, PartialEq, Eq)]
pub struct Label {
    pub id: i32,
    pub name: String,
}

/// A `Label` with its name as a sequence of characters.
pub struct LabelView {
    pub id: i32,
    pub name: Seq<char>,
}

impl View for Label {
    type V = LabelView;

    open spec fn view(&self) -> LabelView {
        LabelView { id: self.id, name: self.name@ }
    }
}

impl Clone for Label {
    fn clone(&self) -> (copy: Label)
        ensures
            copy == *self,
    {
        Label { id: self.id, name: self.name.clone() }
    }
}

/// The views of a sequence of labels, in the same order.
pub open spec fn labels_view(labels: Seq<Label>) -> Seq<LabelView> {
    labels.map_values(|label: Label| label@)
}

/// Whether no two of the labels share an id.
pub open spec fn distinct_labels(labels: Seq<LabelView>) -> bool {
    forall|i: int, j: int|
        0 <= i < j < labels.len() ==> (#[trigger] labels[i]).id != (#[trigger] labels[j]).id
}

/// The primary record of an item: what it holds without its labels.
#[derive(Debug, PartialEq, Eq)]
pub struct Todo {
    pub id: i32,
    pub text: String,
    pub completed: bool,
}

/// A `Todo` with its text as a sequence of characters.
pub struct TodoView {
    pub id: i32,
    pub text: Seq<char>,
    pub completed: bool,
}

impl View for Todo {
    type V = TodoView;

    open spec fn view(&self) -> TodoView {
        TodoView { id: self.id, text: self.text@, completed: self.completed }
    }
}

impl Clone for Todo {
    fn clone(&self) -> (copy: Todo)
        ensures
            copy == *self,
    {
        Todo { id: self.id, text: self.text.clone(), completed: self.completed }
    }
}

impl Todo {
    /// A record that is not completed yet.
    pub fn new(id: i32, text: String) -> (todo: Todo)
        ensures
            todo@ == (TodoView { id, text: text@, completed: false }),
    {
        Todo { id, text, completed: false }
    }
}

/// An item together with the labels that it carries.
#[derive(Debug, PartialEq, Eq)]
pub struct TodoEntity {
    pub id: i32,
    pub text: String,
    pub completed: bool,
    pub labels: Vec<Label>,
}

/// A `TodoEntity` as a mathematical value.
pub struct TodoEntityView {
    pub id: i32,
    pub text: Seq<char>,
    pub completed: bool,
    pub labels: Seq<LabelView>,
}

impl View for TodoEntity {
    type V = TodoEntityView;

    open spec fn view(&self) -> TodoEntityView {
        TodoEntityView {
            id: self.id,
            text: self.text@,
            completed: self.completed,
            labels: labels_view(self.labels@),
        }
    }
}

impl Clone for TodoEntity {
    fn clone(&self) -> (copy: TodoEntity)
        ensures
            copy@ == self@,
    {
        let labels = self.labels.clone();
        assert(labels_view(labels@) =~= labels_view(self.labels@));
        TodoEntity {
            id: self.id,
            text: self.text.clone(),
            completed: self.completed,
            labels,
        }
    }
}

impl TodoEntity {
    /// An item that is not completed and carries no label.
    pub fn new(id: i32, text: String) -> (todo: TodoEntity)
        ensures
            todo@ == (TodoEntityView { id, text: text@, completed: false, labels: Seq::empty() }),
    {
        let todo = TodoEntity { id, text, completed: false, labels: Vec::new() };
        assert(labels_view(todo.labels@) =~= Seq::empty());
        todo
    }
}

/// The views of a sequence of items, in the same order.
pub open spec fn entities_view(entities: Seq<TodoEntity>) -> Seq<TodoEntityView> {
    entities.map_values(|entity: TodoEntity| entity@)
}

/// What a caller hands over to have an item created.
#[derive(Debug, PartialEq, Eq)]
pub struct CreateTodo {
    pub text: String,
    pub labels: Vec<i32>,
}

/// A `CreateTodo` as a mathematical value.
pub struct CreateTodoView {
    pub text: Seq<char>,
    pub labels: Seq<i32>,
}

impl View for CreateTodo {
    type V = CreateTodoView;

    open spec fn view(&self) -> CreateTodoView {
        CreateTodoView { text: self.text@, labels: self.labels@ }
    }
}

impl Clone for CreateTodo {
    fn clone(&self) -> (copy: CreateTodo)
        ensures
            copy@ == self@,
    {
        let labels = self.labels.clone();
        assert(labels@ =~= self.labels@);
        CreateTodo { text: self.text.clone(), labels }
    }
}

impl CreateTodo {
    /// A payload of the given text and label ids.
    pub fn new(text: String, labels: Vec<i32>) -> (payload: CreateTodo)
        ensures
            payload@ == (CreateTodoView { text: text@, labels: labels@ }),
    {
        CreateTodo { text, labels }
    }

    /// Whether the text has an accepted length.
    pub fn is_valid(&self) -> (valid: bool)
        ensures
            valid == text_fits(self@.text),
    {
        length_within(&self.text, TEXT_MIN, TEXT_MAX)
    }
}

/// What a caller hands over to have an item changed. A field that is `None`
/// leaves that part of the item as it is.
#[derive(Debug, PartialEq, Eq)]
pub struct UpdateTodo {
    pub text: Option<String>,
    pub completed: Option<bool>,
    pub labels: Option<Vec<i32>>,
}

/// An `UpdateTodo` as a mathematical value.
pub struct UpdateTodoView {
    pub text: Option<Seq<char>>,
    pub completed: Option<bool>,
    pub labels: Option<Seq<i32>>,
}

impl View for UpdateTodo {
    type V = UpdateTodoView;

    open spec fn view(&self) -> UpdateTodoView {
        UpdateTodoView {
            text: match self.text {
                Some(text) => Some(text@),
                None => None,
            },
            completed: self.completed,
            labels: match self.labels {
                Some(labels) => Some(labels@),
                None => None,
            },
        }
    }
}

impl Clone for UpdateTodo {
    fn clone(&self) -> (copy: UpdateTodo)
        ensures
            copy@ == self@,
    {
        let text = match &self.text {
            Some(text) => Some(text.clone()),
            None => None,
        };
        let labels = match &self.labels {
            Some(labels) => {
                let copied = labels.clone();
                assert(copied@ =~= labels@);
                Some(copied)
            },
            None => None,
        };
        UpdateTodo { text, completed: self.completed, labels }
    }
}

impl UpdateTodo {
    /// Whether the text, where one is given, has an accepted length.
    pub fn is_valid(&self) -> (valid: bool)
        ensures
            valid == match self@.text {
                Some(text) => text_fits(text),
                None => true,
            },
    {
        match &self.text {
            Some(text) => length_within(text, TEXT_MIN, TEXT_MAX),
            None => true,
        }
    }
}

/// What a caller hands over to have a label created.
#[derive(Debug, PartialEq, Eq)]
pub struct CreateLabel {
    pub name: String,
}

impl Clone for CreateLabel {
    fn clone(&self) -> (copy: CreateLabel)
        ensures
            copy == *self,
    {
        CreateLabel { name: self.name.clone() }
    }
}

impl CreateLabel {
    /// Whether the name has an accepted length.
    pub fn is_valid(&self) -> (valid: bool)
        ensures
            valid == text_fits(self.name@),
    {
        length_within(&self.name, TEXT_MIN, TEXT_MAX)
    }
}

/// One row of the outer join of items with their labels: an item's primary
/// record, and one of its labels or none.
#[derive(Debug, PartialEq, Eq)]
pub struct TodoWithLabelFromRow {
    pub id: i32,
    pub text: String,
    pub completed: bool,
    pub label_id: Option<i32>,
    pub label_name: Option<String>,
}

/// A `TodoWithLabelFromRow` as a mathematical value.
pub struct RowView {
    pub id: i32,
    pub text: Seq<char>,
    pub completed: bool,
    pub label_id: Option<i32>,
    pub label_name: Option<Seq<char>>,
}

impl View for TodoWithLabelFromRow {
    type V = RowView;

    open spec fn view(&self) -> RowView {
        RowView {
            id: self.id,
            text: self.text@,
            completed: self.completed,
            label_id: self.label_id,
            label_name: match self.label_name {
                Some(name) => Some(name@),
                None => None,
            },
        }
    }
}

impl Clone for TodoWithLabelFromRow {
    fn clone(&self) -> (copy: TodoWithLabelFromRow)
        ensures
            copy == *self,
    {
        let label_name = match &self.label_name {
            Some(name) => Some(name.clone()),
            None => None,
        };
        TodoWithLabelFromRow {
            id: self.id,
            text: self.text.clone(),
            completed: self.completed,
            label_id: self.label_id,
            label_name,
        }
    }
}

/// The views of a sequence of rows, in the same order.
pub open spec fn rows_view(rows: Seq<TodoWithLabelFromRow>) -> Seq<RowView> {
    rows.map_values(|row: TodoWithLabelFromRow| row@)
}

/// Calls `validate_length` of the `validator` crate's `ValidateLength` on a
/// `String`, with both bounds given and no exact length. The crate measures a
/// `String` by the number of its characters and accepts it when that number
/// is neither under `min` nor over `max`.
#[verifier::external_body]
fn length_within(text: &String, min: u64, max: u64) -> (within: bool)
    ensures
        within == (min <= text@.len() <= max),
{
    validator::ValidateLength::validate_length(text, Some(min), Some(max), None)
}

} // verus!
