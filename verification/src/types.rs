//! The tracker's data model: identities, repositories, labels, issues and
//! comments, as immutable snapshots fetched per invocation.

use vstd::prelude::*;

verus! {

/// An identity known to the tracker.
#[derive(Debug, Clone)]
pub struct User {
    pub id: i64,
    pub username: String,
    pub full_name: Option<String>,
    pub email: Option<String>,
}

/// A repository snapshot.
#[derive(Debug, Clone)]
pub struct Repository {
    pub id: i64,
    pub name: String,
    pub full_name: String,
    pub owner: User,
    pub description: Option<String>,
    pub private: bool,
    pub html_url: String,
    pub clone_url: String,
}

/// A named, colored tag scoped to one repository; `name` is the user-facing
/// key, matched case-insensitively, `id` the key of mutating calls.
#[derive(Debug, Clone)]
pub struct Label {
    pub id: i64,
    pub name: String,
    pub color: String,
}

/// An issue; `number` is unique per repository, not globally.
#[derive(Debug, Clone)]
pub struct Issue {
    pub id: i64,
    pub number: i64,
    pub title: String,
    pub body: Option<String>,
    pub user: User,
    pub labels: Vec<Label>,
    pub state: String,
    pub comments: i64,
    pub created_at: String,
    pub updated_at: String,
    pub html_url: String,
}

/// A comment on an issue.
#[derive(Debug, Clone)]
pub struct Comment {
    pub id: i64,
    pub body: String,
    pub user: User,
    pub created_at: String,
    pub updated_at: String,
}

} // verus!
