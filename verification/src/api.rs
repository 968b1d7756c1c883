//! The request and response bodies of the list service.

use vstd::prelude::*;
use crate::models::{CreateItem, CreateList, Item, List};

verus! {

/// The body of a request that adds or renames a list.
#[derive(Debug, Clone)]
pub struct AddList {
    pub title: String,
    pub subtitle: String,
}

impl AddList {
    /// The list to put on file for the user `user_id`.
    pub fn to_dto(&self, user_id: i64) -> (dto: CreateList)
        ensures
            dto.user_id == user_id,
            dto.title == self.title,
            dto.subtitle == self.subtitle,
    {
        CreateList { user_id, title: self.title.clone(), subtitle: self.subtitle.clone() }
    }
}

/// The body of a request that adds an item to a list.
#[derive(Debug, Clone)]
pub struct AddItem {
    pub list_id: i64,
    pub title: String,
    pub amount: i32,
}

impl AddItem {
    /// The item to put on file.
    pub fn to_dto(&self) -> (dto: CreateItem)
        ensures
            dto.list_id == self.list_id,
            dto.title == self.title,
            dto.amount == self.amount,
    {
        CreateItem { list_id: self.list_id, title: self.title.clone(), amount: self.amount }
    }
}

/// The body of a request that changes an item.
#[derive(Debug, Clone)]
pub struct UpdateItem {
    pub title: String,
    pub amount: i32,
}

/// A list together with the items on it.
#[derive(Debug, Clone)]
pub struct ListWithItems {
    pub id: i64,
    pub title: String,
    pub subtitle: String,
    pub items: Vec<Item>,
}

impl ListWithItems {
    /// The list `list` with `items` on it.
    pub fn new(list: List, items: Vec<Item>) -> (shown: ListWithItems)
        ensures
            shown.id == list.id,
            shown.title == list.title,
            shown.subtitle == list.subtitle,
            shown.items == items,
    {
        ListWithItems { id: list.id, title: list.title, subtitle: list.subtitle, items }
    }
}

/// The identifier of the record a request made or changed.
#[derive(Debug, Clone)]
pub struct IdResponse {
    pub id: i64,
}

impl IdResponse {
    pub fn new(id: i64) -> (response: IdResponse)
        ensures
            response.id == id,
    {
        IdResponse { id }
    }
}

} // verus!
