//! Projects: each belongs to one identity, and only that identity sees,
//! changes or deletes it.

use crate::db::{Database, DatabaseView, project_rows};
use crate::error::ServiceError;
use crate::models::project::{DbProject, Project, ProjectRow, ProjectView};
use crate::text::opt_text;
use crate::theorems::{Operation, theorem_rules_kept};
use vstd::prelude::*;

verus! {

/// The projects in `list`, as a contract sees them.
pub open spec fn project_views(list: Seq<Project>) -> Seq<ProjectView> {
    Seq::new(list.len(), |i: int| list[i]@)
}

/// What `create_project` hands back, as a contract sees it.
pub open spec fn shown_project(r: Result<Project, ServiceError>) -> Result<
    ProjectView,
    ServiceError,
> {
    match r {
        Ok(project) => Ok(project@),
        Err(e) => Err(e),
    }
}

/// A stored project with the given parts replaced.
pub open spec fn project_changed(
    row: ProjectRow,
    name: Option<Seq<char>>,
    color: Option<Seq<char>>,
) -> ProjectRow {
    ProjectRow {
        name: if name is Some {
            name->0
        } else {
            row.name
        },
        color: if color is Some {
            color->0
        } else {
            row.color
        },
        ..row
    }
}

impl DatabaseView {
    /// The projects of `owner` among the first `n` rows, oldest first.
    pub open spec fn projects_among(self, owner: i64, n: int) -> Seq<ProjectView>
        decreases n,
    {
        if n <= 0 {
            Seq::empty()
        } else if self.projects[n - 1].user_id == owner {
            self.projects_among(owner, n - 1).push(self.projects[n - 1].shown())
        } else {
            self.projects_among(owner, n - 1)
        }
    }

    /// The projects of `owner`, oldest first.
    pub open spec fn projects_of(self, owner: i64) -> Seq<ProjectView> {
        self.projects_among(owner, self.projects.len() as int)
    }

    /// The project that `create_project` inserts.
    pub open spec fn created_project(
        self,
        owner: i64,
        name: Seq<char>,
        color: Seq<char>,
    ) -> ProjectRow {
        ProjectRow { id: (self.project_seq + 1) as i64, user_id: owner, name, color }
    }

    /// Creating a project for `owner`: the storage afterwards, and what the
    /// caller is told. Refused only when the table has no id left to give.
    pub open spec fn create_project(self, owner: i64, name: Seq<char>, color: Seq<char>) -> (
        DatabaseView,
        Result<ProjectView, ServiceError>,
    ) {
        if self.project_seq == i64::MAX {
            (self, Err(ServiceError::StorageFailure))
        } else {
            let row = self.created_project(owner, name, color);
            (
                DatabaseView { projects: self.projects.push(row), project_seq: row.id, ..self },
                Ok(row.shown()),
            )
        }
    }

    /// Changing project `id` of `owner`: the storage afterwards, and what
    /// the caller is told. With nothing to change the call succeeds without
    /// looking; otherwise it is refused unless `owner` has such a project.
    pub open spec fn update_project(
        self,
        owner: i64,
        id: i64,
        name: Option<Seq<char>>,
        color: Option<Seq<char>>,
    ) -> (DatabaseView, Result<(), ServiceError>) {
        if name is None && color is None {
            (self, Ok(()))
        } else if !self.owns_project(owner, id) {
            (self, Err(ServiceError::NotFound))
        } else {
            (
                DatabaseView {
                    projects: Seq::new(
                        self.projects.len(),
                        |i: int|
                            if self.projects[i].id == id {
                                project_changed(self.projects[i], name, color)
                            } else {
                                self.projects[i]
                            },
                    ),
                    ..self
                },
                Ok(()),
            )
        }
    }

    /// Where the project with this id stands, where one is stored.
    pub open spec fn project_index(self, id: i64) -> int {
        choose|i: int| 0 <= i < self.projects.len() && (#[trigger] self.projects[i]).id == id
    }

    /// Deleting project `id` of `owner`: the storage afterwards, and what
    /// the caller is told. Refused unless `owner` has such a project.
    pub open spec fn delete_project(self, owner: i64, id: i64) -> (
        DatabaseView,
        Result<(), ServiceError>,
    ) {
        if !self.owns_project(owner, id) {
            (self, Err(ServiceError::NotFound))
        } else {
            (
                DatabaseView { projects: self.projects.remove(self.project_index(id)), ..self },
                Ok(()),
            )
        }
    }

    /// The row at `i` is the project with its id.
    pub proof fn lemma_project_at(self, i: int)
        requires
            self.projects_wf(),
            0 <= i < self.projects.len(),
        ensures
            self.project_index(self.projects[i].id) == i,
            self.owns_project(self.projects[i].user_id, self.projects[i].id),
            forall|owner: i64|
                self.owns_project(owner, self.projects[i].id) ==> owner == self.projects[i].user_id,
    {
        let id = self.projects[i].id;
        let a = self.project_index(id);
        assert(a == i) by {
            if a < i {
                assert(self.projects[a].id != self.projects[i].id);
            } else if i < a {
                assert(self.projects[i].id != self.projects[a].id);
            }
        }
        assert forall|owner: i64| self.owns_project(owner, id) implies owner
            == self.projects[i].user_id by {
            let k = choose|k: int|
                0 <= k < self.projects.len() && (#[trigger] self.projects[k]).id == id
                    && self.projects[k].user_id == owner;
            if k < i {
                assert(self.projects[k].id != self.projects[i].id);
            } else if i < k {
                assert(self.projects[i].id != self.projects[k].id);
            }
        }
    }
}

/// Where the project with this id stands in `projects`, if `user_id` owns it.
fn find_project(db: &Database, user_id: i64, id: i64) -> (r: Option<usize>)
    requires
        db.wf(),
    ensures
        match r {
            Some(i) => i < db.projects@.len() && db@.projects[i as int].id == id
                && db@.projects[i as int].user_id == user_id && db@.owns_project(user_id, id),
            None => !db@.owns_project(user_id, id),
        },
{
    proof {
        db.lemma_view();
    }
    let n = db.projects.len();
    let mut i: usize = 0;
    while i < n
        invariant
            i <= n,
            n == db.projects@.len(),
            db@.projects == project_rows(db.projects@),
            forall|k: int|
                0 <= k < i ==> !((#[trigger] db@.projects[k]).id == id && db@.projects[k].user_id
                    == user_id),
        decreases n - i,
    {
        assert(db.projects@[i as int]@ == db@.projects[i as int]);
        if db.projects[i].id == id && db.projects[i].user_id == user_id {
            return Some(i);
        }
        i += 1;
    }
    None
}

/// The projects of `user_id`, oldest first.
pub fn get_projects(db: &Database, user_id: i64) -> (r: Result<Vec<Project>, ServiceError>)
    requires
        db.wf(),
    ensures
        r matches Ok(list) && project_views(list@) == db@.projects_of(user_id),
{
    proof {
        db.lemma_view();
    }
    let n = db.projects.len();
    let mut list: Vec<Project> = Vec::new();
    let mut i: usize = 0;
    assert(project_views(list@) =~= db@.projects_among(user_id, 0));
    while i < n
        invariant
            i <= n,
            n == db.projects@.len(),
            db@.projects == project_rows(db.projects@),
            project_views(list@) == db@.projects_among(user_id, i as int),
        decreases n - i,
    {
        assert(db.projects@[i as int]@ == db@.projects[i as int]);
        if db.projects[i].user_id == user_id {
            let ghost held = project_views(list@);
            list.push(Project::from(db.projects[i].clone()));
            assert(project_views(list@) =~= held.push(db@.projects[i as int].shown()));
        }
        i += 1;
    }
    Ok(list)
}

/// Stores a new project of `user_id` and returns it. Fails with
/// `StorageFailure`, and stores nothing, when the table has no id left.
pub fn create_project(db: &mut Database, user_id: i64, name: &str, color: &str) -> (r: Result<
    Project,
    ServiceError,
>)
    requires
        old(db).wf(),
    ensures
        final(db).wf(),
        final(db)@.keeps(old(db)@),
        final(db)@ == old(db)@.create_project(user_id, name@, color@).0,
        shown_project(r) == old(db)@.create_project(user_id, name@, color@).1,
{
    proof {
        db.lemma_view();
        theorem_rules_kept(
            db@,
            Operation::CreateProject { owner: user_id, name: name@, color: color@ },
        );
    }
    if db.project_seq == i64::MAX {
        return Err(ServiceError::StorageFailure);
    }
    let ghost before = db@;
    let ghost row = before.created_project(user_id, name@, color@);
    let id: i64 = db.project_seq + 1;
    db.project_seq = id;
    db.projects.push(DbProject { id, user_id, name: name.to_owned(), color: color.to_owned() });
    proof {
        db.lemma_view();
        assert(db@.projects =~= before.projects.push(row));
    }
    Ok(Project { id, name: name.to_owned(), color: color.to_owned() })
}

/// Changes the name, the color or both of project `project_id` of `user_id`.
///
/// With neither given the call succeeds and changes nothing. Otherwise it
/// fails with `NotFound`, and changes nothing, unless `user_id` has a
/// project with this id.
pub fn update_project(
    db: &mut Database,
    user_id: i64,
    project_id: i64,
    name: Option<String>,
    color: Option<String>,
) -> (r: Result<(), ServiceError>)
    requires
        old(db).wf(),
    ensures
        final(db).wf(),
        final(db)@.keeps(old(db)@),
        final(db)@ == old(db)@.update_project(
            user_id,
            project_id,
            opt_text(name),
            opt_text(color),
        ).0,
        r == old(db)@.update_project(user_id, project_id, opt_text(name), opt_text(color)).1,
{
    proof {
        db.lemma_view();
        theorem_rules_kept(
            db@,
            Operation::UpdateProject {
                owner: user_id,
                id: project_id,
                new_name: opt_text(name),
                new_color: opt_text(color),
            },
        );
    }
    if name.is_none() && color.is_none() {
        return Ok(());
    }
    let ghost before = db@;
    let at = match find_project(db, user_id, project_id) {
        Some(at) => at,
        None => {
            return Err(ServiceError::NotFound);
        },
    };
    let ghost after = before.update_project(user_id, project_id, opt_text(name), opt_text(color)).0;
    match name {
        Some(new_name) => {
            db.projects[at].name = new_name;
        },
        None => {},
    }
    match color {
        Some(new_color) => {
            db.projects[at].color = new_color;
        },
        None => {},
    }
    proof {
        db.lemma_view();
        assert(db@.projects =~= after.projects) by {
            assert forall|k: int| 0 <= k < before.projects.len() implies project_rows(
                db.projects@,
            )[k] == after.projects[k] by {
                if k < at {
                    assert(before.projects[k].id != before.projects[at as int].id);
                } else if k > at {
                    assert(before.projects[at as int].id != before.projects[k].id);
                }
            }
        }
    }
    Ok(())
}

/// Deletes project `project_id` of `user_id`. Fails with `NotFound`, and
/// changes nothing, unless `user_id` has a project with this id.
pub fn delete_project(db: &mut Database, user_id: i64, project_id: i64) -> (r: Result<
    (),
    ServiceError,
>)
    requires
        old(db).wf(),
    ensures
        final(db).wf(),
        final(db)@.keeps(old(db)@),
        final(db)@ == old(db)@.delete_project(user_id, project_id).0,
        r == old(db)@.delete_project(user_id, project_id).1,
{
    proof {
        db.lemma_view();
        theorem_rules_kept(db@, Operation::DeleteProject { owner: user_id, id: project_id });
    }
    let ghost before = db@;
    let at = match find_project(db, user_id, project_id) {
        Some(at) => at,
        None => {
            return Err(ServiceError::NotFound);
        },
    };
    proof {
        before.lemma_project_at(at as int);
    }
    db.projects.remove(at);
    proof {
        db.lemma_view();
        assert(db@.projects =~= before.projects.remove(at as int));
        assert forall|i: int, j: int| 0 <= i < j < db@.projects.len() implies db@.projects[i].id
            != db@.projects[j].id by {
            let a = if i < at { i } else { i + 1 };
            let b = if j < at { j } else { j + 1 };
            assert(before.projects[a].id != before.projects[b].id);
        }
        assert forall|i: int| 0 <= i < db@.projects.len() implies (#[trigger] db@.projects[i]).id
            <= db@.project_seq by {
            let a = if i < at { i } else { i + 1 };
            assert(before.projects[a].id <= before.project_seq);
        }
    }
    Ok(())
}

} // verus!
