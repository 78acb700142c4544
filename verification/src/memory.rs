//! A store of items and labels that lives in memory.
//!
//! The store is an owned value: whoever shares it among callers puts it
//! behind a lock, and each operation then runs as one critical section. Ids
//! are given in rising order and never a second time, so an id that was
//! deleted names nothing for the rest of the store's life.

use std::collections::HashMap;
use vstd::prelude::*;
use vstd::std_specs::hash::spec_hash_map_iter;
use vstd::std_specs::iter::IteratorSpec;
use crate::entity::{
    entities_view, labels_view, CreateTodo, Label, LabelView, TodoEntity, TodoEntityView,
    UpdateTodo,
};
use crate::error::{RepositoryError, RepositoryErrorView};
use crate::model::{
    accepted, ids_used_up, lemma_accepted, lemma_resolve, resolve, RecordView, StoreView,
};
use crate::repository::TodoRepository;

verus! {

broadcast use vstd::std_specs::hash::group_hash_axioms;

/// What the store keeps of one item.
#[derive(Debug)]
struct Record {
    text: String,
    completed: bool,
    label_ids: Vec<i32>,
}

impl View for Record {
    type V = RecordView;

    closed spec fn view(&self) -> RecordView {
        RecordView { text: self.text@, completed: self.completed, label_ids: self.label_ids@ }
    }
}

/// The in-memory store.
#[derive(Debug)]
pub struct TodoRepositoryForMemory {
    todos: HashMap<i32, Record>,
    labels: HashMap<i32, String>,
    last_todo_id: i32,
    last_label_id: i32,
}

impl View for TodoRepositoryForMemory {
    type V = StoreView;

    closed spec fn view(&self) -> StoreView {
        StoreView {
            todos: self.todos@.map_values(|record: Record| record@),
            labels: self.labels@.map_values(|name: String| name@),
            last_todo_id: self.last_todo_id,
            last_label_id: self.last_label_id,
        }
    }
}

/// The view of what a fallible operation answers with an item.
pub open spec fn entity_result(result: Result<TodoEntity, RepositoryError>) -> Result<
    TodoEntityView,
    RepositoryErrorView,
> {
    match result {
        Ok(todo) => Ok(todo@),
        Err(error) => Err(error@),
    }
}

/// The view of what a fallible operation answers with a label.
pub open spec fn label_result(result: Result<Label, RepositoryError>) -> Result<
    LabelView,
    RepositoryErrorView,
> {
    match result {
        Ok(label) => Ok(label@),
        Err(error) => Err(error@),
    }
}

/// The view of what a fallible operation answers without a value.
pub open spec fn unit_result(result: Result<(), RepositoryError>) -> Result<
    (),
    RepositoryErrorView,
> {
    match result {
        Ok(_) => Ok(()),
        Err(error) => Err(error@),
    }
}

impl TodoRepositoryForMemory {
    #[verifier::type_invariant]
    spec fn well_formed(&self) -> bool {
        self@.wf()
    }

    /// A store that holds nothing.
    pub fn new() -> (store: TodoRepositoryForMemory)
        ensures
            store@ == StoreView::empty(),
            store@.wf(),
    {
        let store = TodoRepositoryForMemory {
            todos: HashMap::new(),
            labels: HashMap::new(),
            last_todo_id: 0,
            last_label_id: 0,
        };
        assert(store@.todos =~= Map::empty());
        assert(store@.labels =~= Map::empty());
        store
    }

    /// The labels that the ids name among those the store knows.
    fn labels_of(&self, ids: &Vec<i32>) -> (labels: Vec<Label>)
        ensures
            labels_view(labels@) == resolve(self@.labels, ids@),
    {
        let mut labels: Vec<Label> = Vec::new();
        let mut k: usize = 0;
        assert(ids@.take(0) =~= Seq::empty());
        assert(labels_view(labels@) =~= Seq::empty());
        while k < ids.len()
            invariant
                k <= ids.len(),
                labels_view(labels@) == resolve(self@.labels, ids@.take(k as int)),
            decreases ids.len() - k,
        {
            let id = ids[k];
            let ghost before = labels_view(labels@);
            proof {
                assert(ids@.take(k as int + 1).drop_last() =~= ids@.take(k as int));
            }
            match self.labels.get(&id) {
                Some(name) => {
                    labels.push(Label { id, name: name.clone() });
                    assert(labels_view(labels@) =~= before.push(
                        LabelView { id, name: self@.labels[id] },
                    ));
                },
                None => {},
            }
            k += 1;
        }
        assert(ids@.take(k as int) =~= ids@);
        labels
    }

    /// The ids that the store takes for an item's ties.
    fn accepted_ids(&self, ids: &Vec<i32>) -> (kept: Vec<i32>)
        ensures
            kept@ == accepted(self@.labels, ids@),
    {
        let mut kept: Vec<i32> = Vec::new();
        let mut k: usize = 0;
        assert(ids@.take(0) =~= Seq::empty());
        while k < ids.len()
            invariant
                k <= ids.len(),
                kept@ == accepted(self@.labels, ids@.take(k as int)),
            decreases ids.len() - k,
        {
            let id = ids[k];
            proof {
                assert(ids@.take(k as int + 1).drop_last() =~= ids@.take(k as int));
            }
            if self.labels.contains_key(&id) && !holds_id(&kept, id) {
                kept.push(id);
            }
            k += 1;
        }
        assert(ids@.take(k as int) =~= ids@);
        kept
    }

    /// The item of a record as a reader sees it.
    fn entity_of(&self, id: i32, record: &Record) -> (todo: TodoEntity)
        ensures
            todo@ == (TodoEntityView {
                id,
                text: record@.text,
                completed: record@.completed,
                labels: resolve(self@.labels, record@.label_ids),
            }),
    {
        TodoEntity {
            id,
            text: record.text.clone(),
            completed: record.completed,
            labels: self.labels_of(&record.label_ids),
        }
    }

    /// Puts a record under an id that has been given. The map leaves the
    /// store while it changes, so that the store is well formed throughout.
    fn put(&mut self, id: i32, record: Record)
        requires
            1 <= id <= old(self)@.last_todo_id,
            record@.label_ids.no_duplicates(),
            forall|j: int|
                0 <= j < record@.label_ids.len() ==> 1 <= #[trigger] record@.label_ids[j] <= old(
                    self,
                )@.last_label_id,
        ensures
            final(self)@ == (StoreView {
                todos: old(self)@.todos.insert(id, record@),
                ..old(self)@
            }),
    {
        proof {
            use_type_invariant(&*self);
        }
        let ghost before = self@;
        let mut todos: HashMap<i32, Record> = HashMap::new();
        assert(todos@.map_values(|record: Record| record@) =~= Map::<i32, RecordView>::empty());
        std::mem::swap(&mut self.todos, &mut todos);
        assert(todos@.map_values(|record: Record| record@) =~= before.todos);
        todos.insert(id, record);
        assert(todos@.map_values(|record: Record| record@) =~= before.todos.insert(id, record@));
        self.todos = todos;
    }

    /// Takes the record of an id out of the store, if there is one.
    fn take(&mut self, id: i32) -> (taken: bool)
        ensures
            taken == old(self)@.todos.contains_key(id),
            final(self)@ == (StoreView { todos: old(self)@.todos.remove(id), ..old(self)@ }),
    {
        proof {
            use_type_invariant(&*self);
        }
        let ghost before = self@;
        let mut todos: HashMap<i32, Record> = HashMap::new();
        assert(todos@.map_values(|record: Record| record@) =~= Map::<i32, RecordView>::empty());
        std::mem::swap(&mut self.todos, &mut todos);
        assert(todos@.map_values(|record: Record| record@) =~= before.todos);
        let taken = todos.remove(&id).is_some();
        assert(todos@.map_values(|record: Record| record@) =~= before.todos.remove(id));
        self.todos = todos;
        taken
    }

    /// Stores a new label under the id after the last one given to a label.
    /// Fails only where every label id has been given out.
    pub fn create_label(&mut self, name: String) -> (created: Result<Label, RepositoryError>)
        ensures
            (final(self)@, label_result(created)) == old(self)@.create_label(name@),
            old(self)@.wf(),
            final(self)@.wf(),
    {
        proof {
            use_type_invariant(&*self);
        }
        if self.last_label_id == i32::MAX {
            return Err(RepositoryError::Unexpected(used_up_message()));
        }
        let id = self.last_label_id + 1;
        let label = Label { id, name: name.clone() };
        let ghost before = self@;
        assert((StoreView { last_label_id: id, ..before }).wf());
        self.last_label_id = id;
        let mut labels: HashMap<i32, String> = HashMap::new();
        assert(labels@.map_values(|name: String| name@) =~= Map::<i32, Seq<char>>::empty());
        std::mem::swap(&mut self.labels, &mut labels);
        assert(labels@.map_values(|name: String| name@) =~= before.labels);
        labels.insert(id, name);
        assert(labels@.map_values(|name: String| name@) =~= before.labels.insert(id, name@));
        self.labels = labels;
        Ok(label)
    }

    /// Answers with every label, each once, in the order in which the map
    /// happens to hand out its entries.
    pub fn all_labels(&self) -> (listing: Vec<Label>)
        ensures
            self@.lists_labels(labels_view(listing@)),
            self@.wf(),
    {
        proof {
            use_type_invariant(self);
        }
        let mut listing: Vec<Label> = Vec::new();
        for entry in it: self.labels.iter()
            invariant
                listing.len() == it.index(),
                it.seq().no_duplicates(),
                it.seq() == spec_hash_map_iter(&self.labels).remaining(),
                forall|i: int|
                    0 <= i < listing.len() ==> self.labels@.contains_key(*it.seq()[i].0)
                        && self.labels@[*it.seq()[i].0] == *it.seq()[i].1
                        && (#[trigger] listing[i])@ == (LabelView {
                        id: *it.seq()[i].0,
                        name: self@.labels[*it.seq()[i].0],
                    }),
        {
            let (id, name) = entry;
            listing.push(Label { id: *id, name: name.clone() });
        }
        proof {
            let views = labels_view(listing@);
            let pairs = spec_hash_map_iter(&self.labels).remaining();
            assert(pairs.len() == listing.len());
            assert forall|i: int| 0 <= i < views.len() implies self@.labels.contains_key(
                (#[trigger] views[i]).id,
            ) && views[i].name == self@.labels[views[i].id] by {
                assert(listing[i]@.id == *pairs[i].0);
            }
            assert forall|i: int, j: int| 0 <= i < j < views.len() implies (#[trigger] views[i]).id
                != (#[trigger] views[j]).id by {
                assert(listing[i]@.id == *pairs[i].0);
                assert(listing[j]@.id == *pairs[j].0);
                assert(pairs[i] != pairs[j]);
            }
            assert forall|id: i32| #[trigger] self@.labels.contains_key(id) implies exists|i: int|
                0 <= i < views.len() && (#[trigger] views[i]).id == id by {
                assert(self.labels@.contains_key(id));
                assert(pairs.contains((&id, &self.labels@[id])));
                let i = choose|i: int| 0 <= i < pairs.len() && pairs[i] == (&id, &self.labels@[id]);
                assert(listing[i]@.id == *pairs[i].0);
                assert(views[i].id == id);
            }
        }
        listing
    }

    /// Removes the label of the given id: no item shows it any longer. Fails
    /// only where no label has the id.
    pub fn delete_label(&mut self, id: i32) -> (deleted: Result<(), RepositoryError>)
        ensures
            (final(self)@, unit_result(deleted)) == old(self)@.delete_label(id),
            old(self)@.wf(),
            final(self)@.wf(),
    {
        proof {
            use_type_invariant(&*self);
        }
        let ghost before = self@;
        let mut labels: HashMap<i32, String> = HashMap::new();
        proof {
            assert(labels@.map_values(|name: String| name@) =~= Map::<i32, Seq<char>>::empty());
            assert((StoreView { labels: Map::empty(), ..before }).wf());
            assert((StoreView { labels: before.labels.remove(id), ..before }).wf());
        }
        std::mem::swap(&mut self.labels, &mut labels);
        assert(labels@.map_values(|name: String| name@) =~= before.labels);
        let taken = labels.remove(&id).is_some();
        assert(labels@.map_values(|name: String| name@) =~= before.labels.remove(id));
        self.labels = labels;
        if taken {
            Ok(())
        } else {
            proof {
                assert(before.labels.remove(id) =~= before.labels);
            }
            Err(RepositoryError::NotFound(id))
        }
    }
}

impl TodoRepository for TodoRepositoryForMemory {
    open spec fn items(&self) -> Map<i32, TodoEntityView> {
        self@.items()
    }

    /// Fails only where every item id has been given out.
    fn create(&mut self, payload: CreateTodo) -> (created: Result<TodoEntity, RepositoryError>)
        ensures
            (final(self)@, entity_result(created)) == old(self)@.create(payload@),
            old(self)@.wf(),
            final(self)@.wf(),
    {
        proof {
            use_type_invariant(&*self);
            lemma_accepted(self@.labels, payload.labels@);
        }
        if self.last_todo_id == i32::MAX {
            return Err(RepositoryError::Unexpected(used_up_message()));
        }
        let id = self.last_todo_id + 1;
        let record = Record {
            text: payload.text,
            completed: false,
            label_ids: self.accepted_ids(&payload.labels),
        };
        let todo = self.entity_of(id, &record);
        let ghost before = self@;
        assert((StoreView { last_todo_id: id, ..before }).wf());
        self.last_todo_id = id;
        self.put(id, record);
        proof {
            assert(self@.items() =~= before.items().insert(id, todo@));
            lemma_resolve(before.labels, record@.label_ids);
            assert forall|j: int| 0 <= j < todo@.labels.len() implies payload@.labels.contains(
                (#[trigger] todo@.labels[j]).id,
            ) by {
                assert(record@.label_ids.contains(todo@.labels[j].id));
            }
        }
        Ok(todo)
    }

    /// Fails only where no item has the id.
    fn find(&self, id: i32) -> (found: Result<TodoEntity, RepositoryError>)
        ensures
            entity_result(found) == self@.find(id),
            self@.wf(),
    {
        proof {
            use_type_invariant(self);
        }
        match self.todos.get(&id) {
            Some(record) => Ok(self.entity_of(id, record)),
            None => Err(RepositoryError::NotFound(id)),
        }
    }

    /// Never fails. The order of the listing is that in which the map
    /// happens to hand out its entries.
    fn all(&self) -> (listing: Result<Vec<TodoEntity>, RepositoryError>)
        ensures
            listing is Ok,
            self@.wf(),
    {
        proof {
            use_type_invariant(self);
        }
        let mut todos: Vec<TodoEntity> = Vec::new();
        for entry in it: self.todos.iter()
            invariant
                todos.len() == it.index(),
                it.seq().no_duplicates(),
                it.seq() == spec_hash_map_iter(&self.todos).remaining(),
                forall|i: int|
                    0 <= i < todos.len() ==> self.todos@.contains_key(*it.seq()[i].0)
                        && self.todos@[*it.seq()[i].0] == *it.seq()[i].1
                        && (#[trigger] todos[i])@ == self@.item(*it.seq()[i].0),
        {
            let (id, record) = entry;
            let todo = self.entity_of(*id, record);
            todos.push(todo);
        }
        proof {
            let listing = entities_view(todos@);
            let pairs = spec_hash_map_iter(&self.todos).remaining();
            assert(pairs.len() == todos.len());
            assert forall|i: int| 0 <= i < listing.len() implies self@.items().contains_key(
                (#[trigger] listing[i]).id,
            ) && listing[i] == self@.items()[listing[i].id] by {
                assert(todos[i]@ == self@.item(*pairs[i].0));
            }
            assert forall|i: int, j: int| 0 <= i < j < listing.len() implies (#[trigger] listing[i]).id
                != (#[trigger] listing[j]).id by {
                assert(todos[i]@ == self@.item(*pairs[i].0));
                assert(todos[j]@ == self@.item(*pairs[j].0));
                assert(pairs[i] != pairs[j]);
            }
            assert forall|id: i32| #[trigger] self@.items().contains_key(id) implies exists|i: int|
                0 <= i < listing.len() && (#[trigger] listing[i]).id == id by {
                assert(self.todos@.contains_key(id));
                assert(pairs.contains((&id, &self.todos@[id])));
                let i = choose|i: int| 0 <= i < pairs.len() && pairs[i] == (&id, &self.todos@[id]);
                assert(todos[i]@ == self@.item(*pairs[i].0));
                assert(listing[i].id == id);
            }
        }
        Ok(todos)
    }

    /// Fails only where no item has the id.
    fn update(&mut self, id: i32, payload: UpdateTodo) -> (updated: Result<
        TodoEntity,
        RepositoryError,
    >)
        ensures
            (final(self)@, entity_result(updated)) == old(self)@.update(id, payload@),
            old(self)@.wf(),
            final(self)@.wf(),
    {
        proof {
            use_type_invariant(&*self);
        }
        let record = match self.todos.get(&id) {
            Some(before) => Record {
                text: match payload.text {
                    Some(text) => text,
                    None => before.text.clone(),
                },
                completed: match payload.completed {
                    Some(completed) => completed,
                    None => before.completed,
                },
                label_ids: match payload.labels {
                    Some(labels) => {
                        proof {
                            lemma_accepted(self@.labels, labels@);
                        }
                        self.accepted_ids(&labels)
                    },
                    None => {
                        let kept = before.label_ids.clone();
                        assert(kept@ =~= before.label_ids@);
                        kept
                    },
                },
            },
            None => {
                return Err(RepositoryError::NotFound(id));
            },
        };
        let todo = self.entity_of(id, &record);
        let ghost before = self@;
        assert(before.todos.contains_key(id));
        self.put(id, record);
        proof {
            assert(self@.items() =~= before.items().insert(id, todo@));
            lemma_resolve(before.labels, record@.label_ids);
        }
        Ok(todo)
    }

    /// Fails only where no item has the id.
    fn delete(&mut self, id: i32) -> (deleted: Result<(), RepositoryError>)
        ensures
            (final(self)@, unit_result(deleted)) == old(self)@.delete(id),
            old(self)@.wf(),
            final(self)@.wf(),
    {
        proof {
            use_type_invariant(&*self);
        }
        let ghost before = self@;
        if self.take(id) {
            proof {
                assert(self@.items() =~= before.items().remove(id));
            }
            Ok(())
        } else {
            proof {
                assert(before.todos.remove(id) =~= before.todos);
            }
            Err(RepositoryError::NotFound(id))
        }
    }
}

/// The message of the failure that is reported when every id has been given.
fn used_up_message() -> (message: String)
    ensures
        message@ == ids_used_up(),
{
    "every id has been given out".to_owned()
}

/// Tells whether the id is among the ids.
fn holds_id(ids: &Vec<i32>, id: i32) -> (found: bool)
    ensures
        found == ids@.contains(id),
{
    let mut k: usize = 0;
    while k < ids.len()
        invariant
            k <= ids.len(),
            forall|j: int| 0 <= j < k ==> ids@[j] != id,
        decreases ids.len() - k,
    {
        if ids[k] == id {
            return true;
        }
        k += 1;
    }
    false
}

} // verus!
