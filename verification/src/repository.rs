//! The operations that every store of items offers.

use vstd::prelude::*;
use crate::entity::{CreateTodo, TodoEntity, TodoEntityView, UpdateTodo};
use crate::error::{RepositoryError, RepositoryErrorView};

verus! {

/// Whether a listing holds every one of the items once and nothing else.
pub open spec fn lists_all(items: Map<i32, TodoEntityView>, listing: Seq<TodoEntityView>) -> bool {
    &&& forall|i: int|
        0 <= i < listing.len() ==> items.contains_key((#[trigger] listing[i]).id) && listing[i]
            == items[listing[i].id]
    &&& forall|i: int, j: int|
        0 <= i < j < listing.len() ==> (#[trigger] listing[i]).id != (#[trigger] listing[j]).id
    &&& forall|id: i32| #[trigger]
        items.contains_key(id) ==> exists|i: int|
            0 <= i < listing.len() && (#[trigger] listing[i]).id == id
}

/// A store of items.
///
/// Every operation either does its work in full or fails and leaves the items
/// as they were. A failure is `NotFound` of the id that was asked for, exactly
/// when no item has that id, or `Unexpected` where the store itself failed.
pub trait TodoRepository {
    /// The items that the store holds, by id, each as a reader sees it.
    spec fn items(&self) -> Map<i32, TodoEntityView>;

    /// Stores a new item under an id that no item has, with the payload's
    /// text, not completed, with labels that the payload names, and answers
    /// with the item as it is stored.
    fn create(&mut self, payload: CreateTodo) -> (created: Result<TodoEntity, RepositoryError>)
        ensures
            match created {
                Ok(todo) => {
                    &&& !old(self).items().contains_key(todo.id)
                    &&& final(self).items() == old(self).items().insert(todo.id, todo@)
                    &&& todo@.text == payload@.text
                    &&& !todo@.completed
                    &&& forall|j: int|
                        0 <= j < todo@.labels.len() ==> payload@.labels.contains(
                            (#[trigger] todo@.labels[j]).id,
                        )
                },
                Err(error) => error@ is Unexpected && final(self).items() == old(self).items(),
            },
    ;

    /// Answers with the item of the given id.
    fn find(&self, id: i32) -> (found: Result<TodoEntity, RepositoryError>)
        ensures
            match found {
                Ok(todo) => self.items().contains_key(id) && todo@ == self.items()[id],
                Err(error) => error@ is Unexpected || (error@ == RepositoryErrorView::NotFound(id)
                    && !self.items().contains_key(id)),
            },
    ;

    /// Answers with every item, each once.
    fn all(&self) -> (listing: Result<Vec<TodoEntity>, RepositoryError>)
        ensures
            match listing {
                Ok(todos) => lists_all(self.items(), crate::entity::entities_view(todos@)),
                Err(error) => error@ is Unexpected,
            },
    ;

    /// Changes the item of the given id in the fields that the payload gives
    /// and answers with the item as it then is.
    fn update(&mut self, id: i32, payload: UpdateTodo) -> (updated: Result<
        TodoEntity,
        RepositoryError,
    >)
        ensures
            match updated {
                Ok(todo) => {
                    &&& old(self).items().contains_key(id)
                    &&& final(self).items() == old(self).items().insert(id, todo@)
                    &&& todo@.id == id
                    &&& todo@.text == match payload@.text {
                        Some(text) => text,
                        None => old(self).items()[id].text,
                    }
                    &&& todo@.completed == match payload@.completed {
                        Some(completed) => completed,
                        None => old(self).items()[id].completed,
                    }
                    &&& payload@.labels is None ==> todo@.labels == old(self).items()[id].labels
                    &&& payload@.labels is Some ==> forall|j: int|
                        0 <= j < todo@.labels.len() ==> payload@.labels.unwrap().contains(
                            (#[trigger] todo@.labels[j]).id,
                        )
                },
                Err(error) => {
                    &&& final(self).items() == old(self).items()
                    &&& error@ is Unexpected || (error@ == RepositoryErrorView::NotFound(id)
                        && !old(self).items().contains_key(id))
                },
            },
    ;

    /// Removes the item of the given id, and with it its ties to labels.
    fn delete(&mut self, id: i32) -> (deleted: Result<(), RepositoryError>)
        ensures
            match deleted {
                Ok(_) => old(self).items().contains_key(id) && final(self).items() == old(
                    self,
                ).items().remove(id),
                Err(error) => {
                    &&& final(self).items() == old(self).items()
                    &&& error@ is Unexpected || (error@ == RepositoryErrorView::NotFound(id)
                        && !old(self).items().contains_key(id))
                },
            },
    ;
}

} // verus!
