//! Projects: the stored row and the shape shown to its owner.

use vstd::prelude::*;
use vstd::std_specs::convert::FromSpecImpl;

verus! {

/// What a contract can say of a stored project.
pub struct ProjectRow {
    pub id: i64,
    pub user_id: i64,
    pub name: Seq<char>,
    pub color: Seq<char>,
}

/// What a contract can say of a project as shown to its owner.
pub struct ProjectView {
    pub id: i64,
    pub name: Seq<char>,
    pub color: Seq<char>,
}

impl ProjectRow {
    /// The row without the owner's id.
    pub open spec fn shown(self) -> ProjectView {
        ProjectView { id: self.id, name: self.name, color: self.color }
    }
}

/// A row of the `projects` table.
#[derive(Debug)]
pub struct DbProject {
    pub id: i64,
    pub user_id: i64,
    pub name: String,
    pub color: String,
}

impl View for DbProject {
    type V = ProjectRow;

    open spec fn view(&self) -> ProjectRow {
        ProjectRow { id: self.id, user_id: self.user_id, name: self.name@, color: self.color@ }
    }
}

impl Clone for DbProject {
    fn clone(&self) -> (r: Self)
        ensures
            r@ == self@,
    {
        DbProject {
            id: self.id,
            user_id: self.user_id,
            name: self.name.clone(),
            color: self.color.clone(),
        }
    }
}

/// A project as shown to its owner.
#[derive(Debug)]
pub struct Project {
    pub id: i64,
    pub name: String,
    pub color: String,
}

impl View for Project {
    type V = ProjectView;

    open spec fn view(&self) -> ProjectView {
        ProjectView { id: self.id, name: self.name@, color: self.color@ }
    }
}

impl From<DbProject> for Project {
    fn from(p: DbProject) -> (r: Self)
        ensures
            r@ == p@.shown(),
    {
        Project { id: p.id, name: p.name, color: p.color }
    }
}

impl FromSpecImpl<DbProject> for Project {
    open spec fn obeys_from_spec() -> bool {
        true
    }

    open spec fn from_spec(p: DbProject) -> Self {
        Project { id: p.id, name: p.name, color: p.color }
    }
}

} // verus!
