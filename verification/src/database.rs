//! Records kept in the database.
use vstd::prelude::*;

verus! {

/// A project.
#[derive(Debug, Clone)]
pub struct Project {
    pub id: String,
    pub name: String,
    pub description: Option<String>,
    pub created_at: i64,
    pub updated_at: i64,
}

/// A task of a project.
#[derive(Debug, Clone)]
pub struct Task {
    pub id: String,
    pub project_id: Option<String>,
    pub title: String,
    pub status: String,
    pub created_at: i64,
    pub updated_at: i64,
}

} // verus!
