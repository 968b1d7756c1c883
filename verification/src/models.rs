//! The records of the service: users, lists and the items on them.

use vstd::prelude::*;

verus! {

/// A user as the identity directory knows it.
#[derive(Debug, Clone)]
pub struct User {
    pub id: i64,
    pub nick: String,
    pub email: String,
}

/// What it takes to put a user on file.
#[derive(Debug, Clone)]
pub struct CreateUser {
    pub nick: String,
    pub email: String,
}

/// A list that belongs to a user.
#[derive(Debug, Clone)]
pub struct List {
    pub id: i64,
    pub user_id: i64,
    pub title: String,
    pub subtitle: String,
}

/// What it takes to put a list on file.
#[derive(Debug, Clone)]
pub struct CreateList {
    pub user_id: i64,
    pub title: String,
    pub subtitle: String,
}

/// An item on a list.
#[derive(Debug, Clone)]
pub struct Item {
    pub id: i64,
    pub list_id: i64,
    pub title: String,
    pub amount: i32,
}

/// What it takes to put an item on a list.
#[derive(Debug, Clone)]
pub struct CreateItem {
    pub list_id: i64,
    pub title: String,
    pub amount: i32,
}

} // verus!
