//! The mathematical model of a store: what it holds, and what each operation
//! answers and leaves behind.
//!
//! A store keeps the primary record of each item together with the ids of the
//! labels that the item is tied to, and keeps the labels apart. A tie is made
//! only to a label that the store knows when the item is written, and an
//! item's labels are looked up when the item is read: a label that has been
//! deleted since is not shown.

use vstd::prelude::*;
use crate::entity::{
    distinct_labels, CreateTodoView, LabelView, TodoEntityView, UpdateTodoView,
};
use crate::repository::lists_all;
use crate::error::RepositoryErrorView;

verus! {

/// What a store keeps of one item: its text, its state, and the ids of the
/// labels that it is tied to, each id once. A tie is made only to a label
/// that the store knows at that moment.
pub struct RecordView {
    pub text: Seq<char>,
    pub completed: bool,
    pub label_ids: Seq<i32>,
}

/// What a store holds.
pub struct StoreView {
    /// The records of the items, by item id.
    pub todos: Map<i32, RecordView>,
    /// The names of the labels, by label id.
    pub labels: Map<i32, Seq<char>>,
    /// The last id that was given to an item; 0 before the first.
    pub last_todo_id: i32,
    /// The last id that was given to a label; 0 before the first.
    pub last_label_id: i32,
}

/// The ids that a store takes for an item's ties: those that name a known
/// label, each once, where it first stands. An id that names no label is
/// dropped without a word.
pub open spec fn accepted(known: Map<i32, Seq<char>>, ids: Seq<i32>) -> Seq<i32>
    decreases ids.len(),
{
    if ids.len() == 0 {
        Seq::empty()
    } else {
        let earlier = accepted(known, ids.drop_last());
        if known.contains_key(ids.last()) && !earlier.contains(ids.last()) {
            earlier.push(ids.last())
        } else {
            earlier
        }
    }
}

/// The labels that the ids name among the known labels, in the order of the
/// ids. An id that names no known label gives none.
pub open spec fn resolve(known: Map<i32, Seq<char>>, ids: Seq<i32>) -> Seq<LabelView>
    decreases ids.len(),
{
    if ids.len() == 0 {
        Seq::empty()
    } else {
        let earlier = resolve(known, ids.drop_last());
        if known.contains_key(ids.last()) {
            earlier.push(LabelView { id: ids.last(), name: known[ids.last()] })
        } else {
            earlier
        }
    }
}

/// The message of the failure that is reported when every id has been given.
pub open spec fn ids_used_up() -> Seq<char> {
    "every id has been given out"@
}

impl StoreView {
    /// A store that holds nothing and has given no id.
    pub open spec fn empty() -> StoreView {
        StoreView {
            todos: Map::empty(),
            labels: Map::empty(),
            last_todo_id: 0,
            last_label_id: 0,
        }
    }

    /// What holds of every store: the ids in use are positive and none is
    /// beyond the last one given, no item is tied to a label id twice, and
    /// every tie is to a label id that has been given.
    pub open spec fn wf(self) -> bool {
        &&& 0 <= self.last_todo_id
        &&& 0 <= self.last_label_id
        &&& forall|id: i32| #[trigger] self.todos.contains_key(id) ==> 1 <= id <= self.last_todo_id
        &&& forall|id: i32| #[trigger]
            self.labels.contains_key(id) ==> 1 <= id <= self.last_label_id
        &&& forall|id: i32| #[trigger]
            self.todos.contains_key(id) ==> self.todos[id].label_ids.no_duplicates()
        &&& forall|id: i32, j: int|
            self.todos.contains_key(id) && 0 <= j < self.todos[id].label_ids.len() ==> 1
                <= #[trigger] self.todos[id].label_ids[j] <= self.last_label_id
    }

    /// The item of the given id as a reader sees it: its record, and those of
    /// its labels that the store knows.
    pub open spec fn item(self, id: i32) -> TodoEntityView {
        TodoEntityView {
            id,
            text: self.todos[id].text,
            completed: self.todos[id].completed,
            labels: resolve(self.labels, self.todos[id].label_ids),
        }
    }

    /// All items as a reader sees them, by id.
    pub open spec fn items(self) -> Map<i32, TodoEntityView> {
        Map::new(|id: i32| self.todos.contains_key(id), |id: i32| self.item(id))
    }

    /// Creating an item: it gets the id after the last one given, is not
    /// completed, and is tied to the payload's label ids. Where no id is left
    /// the store stays as it is and the failure says so.
    pub open spec fn create(self, payload: CreateTodoView) -> (
        StoreView,
        Result<TodoEntityView, RepositoryErrorView>,
    ) {
        if self.last_todo_id < i32::MAX {
            let id = (self.last_todo_id + 1) as i32;
            let record = RecordView {
                text: payload.text,
                completed: false,
                label_ids: accepted(self.labels, payload.labels),
            };
            let after = StoreView {
                todos: self.todos.insert(id, record),
                last_todo_id: id,
                ..self
            };
            (after, Ok(after.item(id)))
        } else {
            (self, Err(RepositoryErrorView::Unexpected(ids_used_up())))
        }
    }

    /// Finding an item: the item of that id, or `NotFound` of the id.
    pub open spec fn find(self, id: i32) -> Result<TodoEntityView, RepositoryErrorView> {
        if self.todos.contains_key(id) {
            Ok(self.item(id))
        } else {
            Err(RepositoryErrorView::NotFound(id))
        }
    }

    /// Changing an item: each field that the payload gives replaces the
    /// item's, each field that it leaves out stays. An id that names no item
    /// leaves the store as it is and gives `NotFound` of the id.
    pub open spec fn update(self, id: i32, payload: UpdateTodoView) -> (
        StoreView,
        Result<TodoEntityView, RepositoryErrorView>,
    ) {
        if self.todos.contains_key(id) {
            let before = self.todos[id];
            let record = RecordView {
                text: match payload.text {
                    Some(text) => text,
                    None => before.text,
                },
                completed: match payload.completed {
                    Some(completed) => completed,
                    None => before.completed,
                },
                label_ids: match payload.labels {
                    Some(labels) => accepted(self.labels, labels),
                    None => before.label_ids,
                },
            };
            let after = StoreView { todos: self.todos.insert(id, record), ..self };
            (after, Ok(after.item(id)))
        } else {
            (self, Err(RepositoryErrorView::NotFound(id)))
        }
    }

    /// Deleting an item: its record goes, and with it every tie to a label.
    /// An id that names no item leaves the store as it is and gives
    /// `NotFound` of the id.
    pub open spec fn delete(self, id: i32) -> (StoreView, Result<(), RepositoryErrorView>) {
        if self.todos.contains_key(id) {
            (StoreView { todos: self.todos.remove(id), ..self }, Ok(()))
        } else {
            (self, Err(RepositoryErrorView::NotFound(id)))
        }
    }

    /// Creating a label: it gets the id after the last one given to a label.
    /// Where no id is left the store stays as it is and the failure says so.
    pub open spec fn create_label(self, name: Seq<char>) -> (
        StoreView,
        Result<LabelView, RepositoryErrorView>,
    ) {
        if self.last_label_id < i32::MAX {
            let id = (self.last_label_id + 1) as i32;
            let after = StoreView {
                labels: self.labels.insert(id, name),
                last_label_id: id,
                ..self
            };
            (after, Ok(LabelView { id, name }))
        } else {
            (self, Err(RepositoryErrorView::Unexpected(ids_used_up())))
        }
    }

    /// Whether a listing holds every label of the store once, and nothing
    /// else.
    pub open spec fn lists_labels(self, listing: Seq<LabelView>) -> bool {
        &&& forall|i: int|
            0 <= i < listing.len() ==> self.labels.contains_key((#[trigger] listing[i]).id)
                && listing[i].name == self.labels[listing[i].id]
        &&& forall|i: int, j: int|
            0 <= i < j < listing.len() ==> (#[trigger] listing[i]).id != (#[trigger] listing[j]).id
        &&& forall|id: i32| #[trigger]
            self.labels.contains_key(id) ==> exists|i: int|
                0 <= i < listing.len() && (#[trigger] listing[i]).id == id
    }

    /// Deleting a label: readers no longer see it on any item. An id that
    /// names no label leaves the store as it is and gives `NotFound` of the
    /// id.
    pub open spec fn delete_label(self, id: i32) -> (StoreView, Result<(), RepositoryErrorView>) {
        if self.labels.contains_key(id) {
            (StoreView { labels: self.labels.remove(id), ..self }, Ok(()))
        } else {
            (self, Err(RepositoryErrorView::NotFound(id)))
        }
    }
}

/// The ids that are taken do not repeat, and they are the ids that were
/// given and name a known label.
pub proof fn lemma_accepted(known: Map<i32, Seq<char>>, ids: Seq<i32>)
    ensures
        accepted(known, ids).no_duplicates(),
        forall|id: i32| #[trigger]
            accepted(known, ids).contains(id) <==> ids.contains(id) && known.contains_key(id),
        forall|j: int|
            0 <= j < accepted(known, ids).len() ==> known.contains_key(
                #[trigger] accepted(known, ids)[j],
            ),
    decreases ids.len(),
{
    if ids.len() > 0 {
        let earlier = ids.drop_last();
        let last = ids.last();
        let before = accepted(known, earlier);
        let after = accepted(known, ids);
        lemma_accepted(known, earlier);
        assert forall|id: i32| #[trigger]
            after.contains(id) <==> ids.contains(id) && known.contains_key(id) by {
            assert(before.contains(id) <==> earlier.contains(id) && known.contains_key(id));
            if ids.contains(id) && known.contains_key(id) {
                let k = choose|k: int| 0 <= k < ids.len() && ids[k] == id;
                if k < ids.len() - 1 {
                    assert(earlier[k] == id);
                }
                if before.contains(id) {
                    let w = choose|w: int| 0 <= w < before.len() && before[w] == id;
                    assert(after[w] == id);
                } else {
                    assert(id == last);
                    assert(after[after.len() - 1] == id);
                }
            }
            if after.contains(id) {
                let w = choose|w: int| 0 <= w < after.len() && after[w] == id;
                if w < before.len() {
                    assert(before[w] == id);
                    let k = choose|k: int| 0 <= k < earlier.len() && earlier[k] == id;
                    assert(ids[k] == id);
                } else {
                    assert(ids[ids.len() - 1] == id);
                }
            }
        }
    }
}

/// Each label that is resolved has one of the ids, and is the known label of
/// that id; ids that do not repeat give labels whose ids do not repeat.
pub proof fn lemma_resolve(known: Map<i32, Seq<char>>, ids: Seq<i32>)
    ensures
        forall|j: int|
            0 <= j < resolve(known, ids).len() ==> {
                let label = #[trigger] resolve(known, ids)[j];
                ids.contains(label.id) && known.contains_key(label.id) && label.name
                    == known[label.id]
            },
        ids.no_duplicates() ==> distinct_labels(resolve(known, ids)),
        resolve(known, ids).len() <= ids.len(),
    decreases ids.len(),
{
    if ids.len() > 0 {
        let earlier = ids.drop_last();
        lemma_resolve(known, earlier);
        let labels = resolve(known, ids);
        assert forall|j: int| 0 <= j < labels.len() implies {
            let label = #[trigger] labels[j];
            ids.contains(label.id) && known.contains_key(label.id) && label.name
                == known[label.id]
        } by {
            if j < resolve(known, earlier).len() {
                let label = resolve(known, earlier)[j];
                let k = choose|k: int| 0 <= k < earlier.len() && earlier[k] == label.id;
                assert(ids[k] == label.id);
            } else {
                assert(ids[ids.len() - 1] == labels[j].id);
            }
        }
        if ids.no_duplicates() {
            assert(earlier.no_duplicates());
            assert forall|i: int, j: int| 0 <= i < j < labels.len() implies (#[trigger] labels[i]).id
                != (#[trigger] labels[j]).id by {
                if j >= resolve(known, earlier).len() {
                    let label = resolve(known, earlier)[i];
                    let k = choose|k: int| 0 <= k < earlier.len() && earlier[k] == label.id;
                    assert(ids[k] == label.id);
                }
            }
        }
    }
}

/// Ids that all name known labels resolve one for one.
pub proof fn lemma_resolve_known(known: Map<i32, Seq<char>>, ids: Seq<i32>)
    requires
        forall|j: int| 0 <= j < ids.len() ==> known.contains_key(#[trigger] ids[j]),
    ensures
        resolve(known, ids).len() == ids.len(),
        forall|j: int|
            0 <= j < ids.len() ==> #[trigger] resolve(known, ids)[j] == (LabelView {
                id: ids[j],
                name: known[ids[j]],
            }),
    decreases ids.len(),
{
    if ids.len() > 0 {
        let earlier = ids.drop_last();
        assert forall|j: int| 0 <= j < earlier.len() implies known.contains_key(
            #[trigger] earlier[j],
        ) by {
            assert(earlier[j] == ids[j]);
        }
        lemma_resolve_known(known, earlier);
        assert(known.contains_key(ids[ids.len() - 1]));
    }
}

/// The labels that are shown for ids that were just taken are the known
/// labels of exactly those ids, in their order.
pub proof fn lemma_accepted_ids_show(known: Map<i32, Seq<char>>, ids: Seq<i32>)
    ensures
        resolve(known, accepted(known, ids)).len() == accepted(known, ids).len(),
        forall|j: int|
            0 <= j < accepted(known, ids).len() ==> #[trigger] resolve(
                known,
                accepted(known, ids),
            )[j] == (LabelView { id: accepted(known, ids)[j], name: known[accepted(known, ids)[j]] }),
{
    let kept = accepted(known, ids);
    lemma_accepted(known, ids);
    lemma_resolve_known(known, kept);
}

/// One change to a store.
pub enum StoreOp {
    Create(CreateTodoView),
    Update(i32, UpdateTodoView),
    Delete(i32),
    CreateLabel(Seq<char>),
    DeleteLabel(i32),
}

impl StoreView {
    /// The store after one change.
    pub open spec fn apply(self, op: StoreOp) -> StoreView {
        match op {
            StoreOp::Create(payload) => self.create(payload).0,
            StoreOp::Update(id, payload) => self.update(id, payload).0,
            StoreOp::Delete(id) => self.delete(id).0,
            StoreOp::CreateLabel(name) => self.create_label(name).0,
            StoreOp::DeleteLabel(id) => self.delete_label(id).0,
        }
    }

    /// The store after a run of changes, the first of them first.
    pub open spec fn apply_all(self, ops: Seq<StoreOp>) -> StoreView
        decreases ops.len(),
    {
        if ops.len() == 0 {
            self
        } else {
            self.apply_all(ops.drop_last()).apply(ops.last())
        }
    }

    /// The store after one item was created for each payload, in their order.
    pub open spec fn create_each(self, payloads: Seq<CreateTodoView>) -> StoreView
        decreases payloads.len(),
    {
        if payloads.len() == 0 {
            self
        } else {
            self.create_each(payloads.drop_last()).create(payloads.last()).0
        }
    }

    /// What creating the `k`-th of the payloads answers, when the payloads
    /// are created in their order.
    pub open spec fn created(self, payloads: Seq<CreateTodoView>, k: int) -> Result<
        TodoEntityView,
        RepositoryErrorView,
    > {
        self.create_each(payloads.take(k)).create(payloads[k]).1
    }
}

/// An empty store is well formed, and every change leaves a well-formed
/// store well formed.
pub proof fn law_changes_keep_well_formed(store: StoreView, op: StoreOp)
    requires
        store.wf(),
    ensures
        StoreView::empty().wf(),
        store.apply(op).wf(),
{
    match op {
        StoreOp::Create(payload) => {
            lemma_accepted(store.labels, payload.labels);
        },
        StoreOp::Update(id, payload) => {
            if payload.labels is Some {
                lemma_accepted(store.labels, payload.labels.unwrap());
            }
        },
        _ => {},
    }
}

/// Every item of a well-formed store shows each label at most once, and only
/// labels that the store knows.
pub proof fn law_items_show_known_labels_once(store: StoreView, id: i32)
    requires
        store.wf(),
        store.todos.contains_key(id),
    ensures
        distinct_labels(store.item(id).labels),
        forall|j: int|
            0 <= j < store.item(id).labels.len() ==> {
                let label = #[trigger] store.item(id).labels[j];
                store.labels.contains_key(label.id) && label.name == store.labels[label.id]
            },
{
    lemma_resolve(store.labels, store.todos[id].label_ids);
}

/// An item that is created, and an item whose labels are replaced, shows the
/// labels of the ids that were given, as far as the store knows them: each
/// once, in the order in which the ids first stand.
pub proof fn law_written_ties_show(
    store: StoreView,
    id: i32,
    create: CreateTodoView,
    update: UpdateTodoView,
)
    requires
        store.wf(),
        store.todos.contains_key(id),
        update.labels is Some,
    ensures
        match store.create(create).1 {
            Ok(item) => item.labels == resolve(store.labels, accepted(store.labels, create.labels))
                && item.labels.len() == accepted(store.labels, create.labels).len(),
            Err(_) => true,
        },
        match store.update(id, update).1 {
            Ok(item) => item.labels == resolve(
                store.labels,
                accepted(store.labels, update.labels.unwrap()),
            ) && item.labels.len() == accepted(store.labels, update.labels.unwrap()).len(),
            Err(_) => false,
        },
{
    lemma_accepted_ids_show(store.labels, create.labels);
    lemma_accepted_ids_show(store.labels, update.labels.unwrap());
}

/// A label that is created later is not shown on an item that named its id
/// before: creating a label changes no item that a reader sees.
pub proof fn law_new_label_changes_no_item(store: StoreView, name: Seq<char>, id: i32)
    requires
        store.wf(),
        store.todos.contains_key(id),
    ensures
        store.create_label(name).0.item(id) == store.item(id),
{
    let after = store.create_label(name).0;
    if store.last_label_id < i32::MAX {
        let fresh = (store.last_label_id + 1) as i32;
        lemma_resolve_apart(store.labels, name, fresh, store.todos[id].label_ids);
    }
}

/// A label under an id that none of the ids names makes no difference to
/// what the ids resolve to.
pub proof fn lemma_resolve_apart(
    known: Map<i32, Seq<char>>,
    name: Seq<char>,
    fresh: i32,
    ids: Seq<i32>,
)
    requires
        !ids.contains(fresh),
    ensures
        resolve(known.insert(fresh, name), ids) == resolve(known, ids),
    decreases ids.len(),
{
    if ids.len() > 0 {
        let earlier = ids.drop_last();
        assert(!earlier.contains(fresh)) by {
            if earlier.contains(fresh) {
                let k = choose|k: int| 0 <= k < earlier.len() && earlier[k] == fresh;
                assert(ids[k] == fresh);
            }
        }
        lemma_resolve_apart(known, name, fresh, earlier);
        assert(ids[ids.len() - 1] != fresh);
    }
}

/// Finding the id of an item that was just created answers with what the
/// creation answered: the item reads back as it was returned.
pub proof fn law_created_item_is_found(store: StoreView, payload: CreateTodoView)
    requires
        store.wf(),
    ensures
        match store.create(payload) {
            (after, Ok(item)) => after.find(item.id) == Ok::<
                TodoEntityView,
                RepositoryErrorView,
            >(item) && !store.todos.contains_key(item.id),
            (after, Err(_)) => after == store,
        },
{
}

/// Finding the id of an item that was just changed answers with what the
/// change answered.
pub proof fn law_updated_item_is_found(store: StoreView, id: i32, payload: UpdateTodoView)
    ensures
        match store.update(id, payload) {
            (after, Ok(item)) => after.find(id) == Ok::<TodoEntityView, RepositoryErrorView>(
                item,
            ),
            (after, Err(_)) => after == store,
        },
{
}

/// A change that gives the state alone leaves the text, and the labels, of
/// the item as they were.
pub proof fn law_update_of_state_keeps_text(store: StoreView, id: i32, completed: bool)
    requires
        store.todos.contains_key(id),
    ensures
        store.update(
            id,
            UpdateTodoView { text: None, completed: Some(completed), labels: None },
        ).1 == Ok::<TodoEntityView, RepositoryErrorView>(
            TodoEntityView { completed, ..store.item(id) },
        ),
{
    let payload = UpdateTodoView { text: None, completed: Some(completed), labels: None };
    let after = store.update(id, payload).0;
    assert(after.todos[id].label_ids == store.todos[id].label_ids);
}

/// A field that a change leaves out stays as it was, whatever the other
/// fields of the change are.
pub proof fn law_update_keeps_what_it_leaves_out(
    store: StoreView,
    id: i32,
    payload: UpdateTodoView,
)
    requires
        store.todos.contains_key(id),
    ensures
        store.update(id, payload).1 is Ok,
        payload.text is None ==> store.update(id, payload).1->Ok_0.text == store.item(id).text,
        payload.completed is None ==> store.update(id, payload).1->Ok_0.completed == store.item(
            id,
        ).completed,
        payload.labels is None ==> store.update(id, payload).1->Ok_0.labels == store.item(
            id,
        ).labels,
{
}

/// A change with an empty list of label ids leaves the item without labels,
/// and so does the same change made once more: the second answers as the
/// first did and leaves the store as the first left it.
pub proof fn law_clearing_labels_twice(store: StoreView, id: i32, payload: UpdateTodoView)
    requires
        store.todos.contains_key(id),
        payload.labels == Some(Seq::<i32>::empty()),
    ensures
        ({
            let (first, answer) = store.update(id, payload);
            let (second, again) = first.update(id, payload);
            &&& answer is Ok
            &&& answer->Ok_0.labels == Seq::<LabelView>::empty()
            &&& again == answer
            &&& second == first
        }),
{
    let (first, answer) = store.update(id, payload);
    let (second, again) = first.update(id, payload);
    assert(accepted(store.labels, Seq::<i32>::empty()) =~= Seq::<i32>::empty());
    assert(first.todos[id].label_ids =~= Seq::<i32>::empty());
    assert(resolve(first.labels, Seq::<i32>::empty()) =~= Seq::<LabelView>::empty());
    assert(second.todos =~= first.todos);
}

/// An id that names no item is answered with `NotFound` of that id by find,
/// by update and by delete, and the store stays as it is.
pub proof fn law_absent_id_is_not_found(store: StoreView, id: i32, payload: UpdateTodoView)
    requires
        !store.todos.contains_key(id),
    ensures
        store.find(id) == Err::<TodoEntityView, RepositoryErrorView>(
            RepositoryErrorView::NotFound(id),
        ),
        store.update(id, payload) == (
            store,
            Err::<TodoEntityView, RepositoryErrorView>(RepositoryErrorView::NotFound(id)),
        ),
        store.delete(id) == (
            store,
            Err::<(), RepositoryErrorView>(RepositoryErrorView::NotFound(id)),
        ),
{
}

/// An id that names an item is never answered with a failure by find, by
/// update or by delete.
pub proof fn law_present_id_is_served(store: StoreView, id: i32, payload: UpdateTodoView)
    requires
        store.todos.contains_key(id),
    ensures
        store.find(id) is Ok,
        store.update(id, payload).1 is Ok,
        store.delete(id).1 is Ok,
{
}

/// Creating one item after the other gives each the id after the one
/// before: the `k`-th creation in a store that has room answers with the id
/// `k + 1` past the last id given before.
pub proof fn law_creates_give_rising_ids(store: StoreView, payloads: Seq<CreateTodoView>, k: int)
    requires
        store.wf(),
        0 <= k < payloads.len(),
        store.last_todo_id + payloads.len() <= i32::MAX,
    ensures
        store.created(payloads, k) is Ok,
        store.created(payloads, k)->Ok_0.id == store.last_todo_id + k + 1,
{
    lemma_create_each(store, payloads.take(k));
}

/// However many items are created one after the other, no two of them get
/// the same id.
pub proof fn law_creates_give_distinct_ids(
    store: StoreView,
    payloads: Seq<CreateTodoView>,
    i: int,
    j: int,
)
    requires
        store.wf(),
        0 <= i < j < payloads.len(),
        store.last_todo_id + payloads.len() <= i32::MAX,
    ensures
        store.created(payloads, i) is Ok,
        store.created(payloads, j) is Ok,
        store.created(payloads, i)->Ok_0.id != store.created(payloads, j)->Ok_0.id,
{
    law_creates_give_rising_ids(store, payloads, i);
    law_creates_give_rising_ids(store, payloads, j);
}

/// After a run of creations that the store has room for, the last id given
/// has risen by their number, and the store is well formed.
pub proof fn lemma_create_each(store: StoreView, payloads: Seq<CreateTodoView>)
    requires
        store.wf(),
        store.last_todo_id + payloads.len() <= i32::MAX,
    ensures
        store.create_each(payloads).wf(),
        store.create_each(payloads).last_todo_id == store.last_todo_id + payloads.len(),
    decreases payloads.len(),
{
    if payloads.len() > 0 {
        lemma_create_each(store, payloads.drop_last());
        law_changes_keep_well_formed(
            store.create_each(payloads.drop_last()),
            StoreOp::Create(payloads.last()),
        );
    }
}

/// Once an item is deleted its id names nothing, whatever is done to the
/// store afterwards: no listing of the items holds an item of that id, so
/// none shows a label tied to it.
pub proof fn law_deleted_id_stays_gone(
    store: StoreView,
    id: i32,
    ops: Seq<StoreOp>,
    listing: Seq<TodoEntityView>,
)
    requires
        store.wf(),
        store.todos.contains_key(id),
        lists_all(store.delete(id).0.apply_all(ops).items(), listing),
    ensures
        store.delete(id).1 is Ok,
        !store.delete(id).0.apply_all(ops).items().contains_key(id),
        forall|i: int| 0 <= i < listing.len() ==> (#[trigger] listing[i]).id != id,
{
    lemma_spent_id_stays_spent(store.delete(id).0, id, ops);
}

/// An id that was given and names no item names none after any run of
/// changes.
pub proof fn lemma_spent_id_stays_spent(store: StoreView, id: i32, ops: Seq<StoreOp>)
    requires
        store.wf(),
        id <= store.last_todo_id,
        !store.todos.contains_key(id),
    ensures
        store.apply_all(ops).wf(),
        id <= store.apply_all(ops).last_todo_id,
        !store.apply_all(ops).todos.contains_key(id),
    decreases ops.len(),
{
    if ops.len() > 0 {
        lemma_spent_id_stays_spent(store, id, ops.drop_last());
        law_changes_keep_well_formed(store.apply_all(ops.drop_last()), ops.last());
    }
}

} // verus!
