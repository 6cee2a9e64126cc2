//! The tables, held as plain values.
//!
//! A [`Database`] is what the durable storage holds at one moment: the rows of
//! each table in the order in which they were inserted, the last id that each
//! table handed out, and the one-row record of who is signed in. Its view, a
//! [`DatabaseView`], is what the contracts of every operation speak of.

use crate::error::ServiceError;
use crate::models::project::{DbProject, ProjectRow};
use crate::models::session::{
    DbSession, DbSessionTag, SessionRow, SessionStatus, TagRow, is_status_text,
};
use crate::models::user::{DbUser, UserRow};
use crate::text::{is_normalized_email, same_text};
use vstd::prelude::*;

verus! {

/// The rows of `users` as a contract sees them.
pub open spec fn user_rows(v: Seq<DbUser>) -> Seq<UserRow> {
    Seq::new(v.len(), |i: int| v[i]@)
}

/// The rows of `projects` as a contract sees them.
pub open spec fn project_rows(v: Seq<DbProject>) -> Seq<ProjectRow> {
    Seq::new(v.len(), |i: int| v[i]@)
}

/// The rows of `sessions` as a contract sees them.
pub open spec fn session_rows(v: Seq<DbSession>) -> Seq<SessionRow> {
    Seq::new(v.len(), |i: int| v[i]@)
}

/// The rows of `session_tags` as a contract sees them.
pub open spec fn tag_rows(v: Seq<DbSessionTag>) -> Seq<TagRow> {
    Seq::new(v.len(), |i: int| v[i]@)
}

/// No row of `users` has an id above `seq`, the last id handed out; no two
/// share an id, and no two share an email.
pub open spec fn users_table_wf(users: Seq<UserRow>, seq: i64) -> bool {
    &&& forall|i: int| 0 <= i < users.len() ==> (#[trigger] users[i]).id <= seq
    &&& forall|i: int, j: int|
        #![trigger users[i], users[j]]
        0 <= i < j < users.len() ==> users[i].id != users[j].id
    &&& forall|i: int, j: int|
        #![trigger users[i], users[j]]
        0 <= i < j < users.len() ==> users[i].email != users[j].email
}

/// No row of `projects` has an id above `seq`, the last id handed out, and
/// no two share an id.
pub open spec fn projects_table_wf(projects: Seq<ProjectRow>, seq: i64) -> bool {
    &&& forall|i: int| 0 <= i < projects.len() ==> (#[trigger] projects[i]).id <= seq
    &&& forall|i: int, j: int|
        #![trigger projects[i], projects[j]]
        0 <= i < j < projects.len() ==> projects[i].id != projects[j].id
}

/// No row of `sessions` has an id above `seq`, the last id handed out; no
/// two share an id, and each status is one of the three words.
pub open spec fn sessions_table_wf(sessions: Seq<SessionRow>, seq: i64) -> bool {
    &&& forall|i: int| 0 <= i < sessions.len() ==> (#[trigger] sessions[i]).id <= seq
    &&& forall|i: int, j: int|
        #![trigger sessions[i], sessions[j]]
        0 <= i < j < sessions.len() ==> sessions[i].id != sessions[j].id
    &&& forall|i: int| 0 <= i < sessions.len() ==> is_status_text((#[trigger] sessions[i]).status)
}

/// What the storage holds, as a mathematical value.
pub struct DatabaseView {
    /// The identities, oldest first.
    pub users: Seq<UserRow>,
    /// The last id that `users` handed out.
    pub user_seq: i64,
    /// The projects, oldest first.
    pub projects: Seq<ProjectRow>,
    /// The last id that `projects` handed out.
    pub project_seq: i64,
    /// The work sessions, oldest first.
    pub sessions: Seq<SessionRow>,
    /// The last id that `sessions` handed out.
    pub session_seq: i64,
    /// The tags of all sessions, in the order in which they were stored.
    pub session_tags: Seq<TagRow>,
    /// The identity that signed in last and has not signed out, if any.
    pub app_session: Option<i64>,
}

impl DatabaseView {
    /// The storage before anything was stored.
    pub open spec fn empty() -> DatabaseView {
        DatabaseView {
            users: Seq::empty(),
            user_seq: 0,
            projects: Seq::empty(),
            project_seq: 0,
            sessions: Seq::empty(),
            session_seq: 0,
            session_tags: Seq::empty(),
            app_session: None,
        }
    }

    /// What the storage enforces of `users`.
    pub open spec fn users_wf(self) -> bool {
        users_table_wf(self.users, self.user_seq)
    }

    /// What the storage enforces of `projects`.
    pub open spec fn projects_wf(self) -> bool {
        projects_table_wf(self.projects, self.project_seq)
    }

    /// What the storage enforces of `sessions`.
    pub open spec fn sessions_wf(self) -> bool {
        sessions_table_wf(self.sessions, self.session_seq)
    }

    /// No identity has two running sessions. Nothing in the storage itself
    /// forbids it: it holds of the empty storage, and every operation of this
    /// library keeps it.
    pub open spec fn one_running_each(self) -> bool {
        forall|i: int, j: int|
            #![trigger self.sessions[i], self.sessions[j]]
            0 <= i < j < self.sessions.len() && self.sessions[i].status
                == SessionStatus::Running.text() && self.sessions[j].status
                == SessionStatus::Running.text() ==> self.sessions[i].user_id
                != self.sessions[j].user_id
    }

    /// Whoever is recorded as signed in is a stored identity. Nothing in the
    /// storage itself forbids otherwise: it holds of the empty storage, and
    /// every operation of this library keeps it.
    pub open spec fn signed_in_is_stored(self) -> bool {
        self.app_session matches Some(id) ==> self.has_user(id)
    }

    /// Every stored email is the trimmed, lower-case form of some text.
    /// Nothing in the storage itself forbids otherwise: it holds of the empty
    /// storage, and every operation of this library keeps it.
    pub open spec fn emails_are_normalized(self) -> bool {
        forall|i: int|
            0 <= i < self.users.len() ==> is_normalized_email((#[trigger] self.users[i]).email)
    }

    /// No stored tag names a session id that the table has not handed out
    /// yet. Nothing in the storage itself forbids otherwise: it holds of the
    /// empty storage, and every operation of this library keeps it.
    pub open spec fn tags_name_handed_out_ids(self) -> bool {
        forall|k: int|
            0 <= k < self.session_tags.len() ==> (#[trigger] self.session_tags[k]).session_id
                <= self.session_seq
    }

    /// Every finished session has an end time. Nothing in the storage itself
    /// forbids otherwise: it holds of the empty storage, and every operation
    /// of this library keeps it.
    pub open spec fn finished_have_ended(self) -> bool {
        forall|i: int|
            0 <= i < self.sessions.len() && (#[trigger] self.sessions[i]).status
                == SessionStatus::Finished.text() ==> self.sessions[i].end_time is Some
    }

    /// Whether each of the five rules above that held of `before` holds of
    /// this storage.
    pub open spec fn keeps(self, before: DatabaseView) -> bool {
        &&& before.one_running_each() ==> self.one_running_each()
        &&& before.signed_in_is_stored() ==> self.signed_in_is_stored()
        &&& before.emails_are_normalized() ==> self.emails_are_normalized()
        &&& before.tags_name_handed_out_ids() ==> self.tags_name_handed_out_ids()
        &&& before.finished_have_ended() ==> self.finished_have_ended()
    }

    /// What the storage itself enforces: ids are unique and were handed out
    /// by their table, emails are unique, and each status is one of the
    /// three words.
    pub open spec fn wf(self) -> bool {
        &&& self.users_wf()
        &&& self.projects_wf()
        &&& self.sessions_wf()
    }

    /// Whether an identity with this id is stored.
    pub open spec fn has_user(self, id: i64) -> bool {
        exists|i: int| 0 <= i < self.users.len() && (#[trigger] self.users[i]).id == id
    }

    /// The identity with this id, where one is stored.
    pub open spec fn user(self, id: i64) -> UserRow
        recommends
            self.has_user(id),
    {
        self.users[choose|i: int| 0 <= i < self.users.len() && (#[trigger] self.users[i]).id == id]
    }

    /// Whether an identity with this email is stored.
    pub open spec fn has_email(self, email: Seq<char>) -> bool {
        exists|i: int| 0 <= i < self.users.len() && (#[trigger] self.users[i]).email == email
    }

    /// The identity with this email, where one is stored.
    pub open spec fn user_by_email(self, email: Seq<char>) -> UserRow
        recommends
            self.has_email(email),
    {
        self.users[choose|i: int|
            0 <= i < self.users.len() && (#[trigger] self.users[i]).email == email]
    }

    /// Whether a session with this id is stored.
    pub open spec fn has_session(self, id: i64) -> bool {
        exists|i: int| 0 <= i < self.sessions.len() && (#[trigger] self.sessions[i]).id == id
    }

    /// The session with this id, where one is stored.
    pub open spec fn session(self, id: i64) -> SessionRow
        recommends
            self.has_session(id),
    {
        self.sessions[choose|i: int|
            0 <= i < self.sessions.len() && (#[trigger] self.sessions[i]).id == id]
    }

    /// Whether `owner` has a running session.
    pub open spec fn has_running(self, owner: i64) -> bool {
        exists|i: int|
            0 <= i < self.sessions.len() && (#[trigger] self.sessions[i]).running_for(owner)
    }

    /// Whether `owner` has a project with this id.
    pub open spec fn owns_project(self, owner: i64, id: i64) -> bool {
        exists|i: int|
            0 <= i < self.projects.len() && (#[trigger] self.projects[i]).id == id
                && self.projects[i].user_id == owner
    }

    /// The row at `i` is the identity with its id.
    pub proof fn lemma_user_at(self, i: int)
        requires
            self.users_wf(),
            0 <= i < self.users.len(),
        ensures
            self.has_user(self.users[i].id),
            self.user(self.users[i].id) == self.users[i],
            self.has_email(self.users[i].email),
            self.user_by_email(self.users[i].email) == self.users[i],
    {
        let id = self.users[i].id;
        let a = choose|k: int| 0 <= k < self.users.len() && (#[trigger] self.users[k]).id == id;
        assert(a == i) by {
            if a < i {
                assert(self.users[a].id != self.users[i].id);
            } else if i < a {
                assert(self.users[i].id != self.users[a].id);
            }
        }
        let email = self.users[i].email;
        let b = choose|k: int|
            0 <= k < self.users.len() && (#[trigger] self.users[k]).email == email;
        assert(b == i) by {
            if b < i {
                assert(self.users[b].email != self.users[i].email);
            } else if i < b {
                assert(self.users[i].email != self.users[b].email);
            }
        }
    }

    /// The row at `i` is the session with its id.
    pub proof fn lemma_session_at(self, i: int)
        requires
            self.sessions_wf(),
            0 <= i < self.sessions.len(),
        ensures
            self.has_session(self.sessions[i].id),
            self.session(self.sessions[i].id) == self.sessions[i],
    {
        let id = self.sessions[i].id;
        let a = choose|k: int|
            0 <= k < self.sessions.len() && (#[trigger] self.sessions[k]).id == id;
        assert(a == i) by {
            if a < i {
                assert(self.sessions[a].id != self.sessions[i].id);
            } else if i < a {
                assert(self.sessions[i].id != self.sessions[a].id);
            }
        }
    }
}

/// What a storage holds, table by table, as it is read from or written to
/// the place where it is kept.
#[derive(Debug)]
pub struct Tables {
    pub users: Vec<DbUser>,
    pub user_seq: i64,
    pub projects: Vec<DbProject>,
    pub project_seq: i64,
    pub sessions: Vec<DbSession>,
    pub session_seq: i64,
    pub session_tags: Vec<DbSessionTag>,
    pub app_session: Option<i64>,
}

impl View for Tables {
    type V = DatabaseView;

    open spec fn view(&self) -> DatabaseView {
        DatabaseView {
            users: user_rows(self.users@),
            user_seq: self.user_seq,
            projects: project_rows(self.projects@),
            project_seq: self.project_seq,
            sessions: session_rows(self.sessions@),
            session_seq: self.session_seq,
            session_tags: tag_rows(self.session_tags@),
            app_session: self.app_session,
        }
    }
}

/// The tables. Its fields are private: a `Database` is made by `new` or by
/// `from_tables`, and changed by the operations of this library alone.
pub struct Database {
    pub(crate) users: Vec<DbUser>,
    pub(crate) user_seq: i64,
    pub(crate) projects: Vec<DbProject>,
    pub(crate) project_seq: i64,
    pub(crate) sessions: Vec<DbSession>,
    pub(crate) session_seq: i64,
    pub(crate) session_tags: Vec<DbSessionTag>,
    pub(crate) app_session: Option<i64>,
}

impl View for Database {
    type V = DatabaseView;

    closed spec fn view(&self) -> DatabaseView {
        DatabaseView {
            users: user_rows(self.users@),
            user_seq: self.user_seq,
            projects: project_rows(self.projects@),
            project_seq: self.project_seq,
            sessions: session_rows(self.sessions@),
            session_seq: self.session_seq,
            session_tags: tag_rows(self.session_tags@),
            app_session: self.app_session,
        }
    }
}

impl Database {
    /// What holds of every `Database`: `new` and `from_tables` establish it,
    /// and every operation of this library keeps it.
    pub open spec fn wf(&self) -> bool {
        self@.wf()
    }

    /// The view, field by field.
    pub(crate) proof fn lemma_view(&self)
        ensures
            self@ == (DatabaseView {
                users: user_rows(self.users@),
                user_seq: self.user_seq,
                projects: project_rows(self.projects@),
                project_seq: self.project_seq,
                sessions: session_rows(self.sessions@),
                session_seq: self.session_seq,
                session_tags: tag_rows(self.session_tags@),
                app_session: self.app_session,
            }),
    {
    }

    /// Storage with nothing in it.
    pub fn new() -> (db: Database)
        ensures
            db.wf(),
            db@ == DatabaseView::empty(),
    {
        let db = Database {
            users: Vec::new(),
            user_seq: 0,
            projects: Vec::new(),
            project_seq: 0,
            sessions: Vec::new(),
            session_seq: 0,
            session_tags: Vec::new(),
            app_session: None,
        };
        assert(db@.users =~= Seq::empty());
        assert(db@.projects =~= Seq::empty());
        assert(db@.sessions =~= Seq::empty());
        assert(db@.session_tags =~= Seq::empty());
        db
    }

    /// The storage that holds `tables`.
    ///
    /// Fails with `StorageFailure` when the rows break what the storage
    /// enforces: an id above the last one handed out, an id or an email that
    /// occurs twice, a status that is none of the three words.
    pub fn from_tables(tables: Tables) -> (r: Result<Database, ServiceError>)
        ensures
            match r {
                Ok(db) => db.wf() && db@ == tables@,
                Err(e) => e == ServiceError::StorageFailure && !tables@.wf(),
            },
    {
        if !users_are_wf(&tables.users, tables.user_seq) || !projects_are_wf(
            &tables.projects,
            tables.project_seq,
        ) || !sessions_are_wf(&tables.sessions, tables.session_seq) {
            return Err(ServiceError::StorageFailure);
        }
        Ok(
            Database {
                users: tables.users,
                user_seq: tables.user_seq,
                projects: tables.projects,
                project_seq: tables.project_seq,
                sessions: tables.sessions,
                session_seq: tables.session_seq,
                session_tags: tables.session_tags,
                app_session: tables.app_session,
            },
        )
    }

    /// What the storage holds, table by table.
    pub fn into_tables(self) -> (tables: Tables)
        ensures
            tables@ == self@,
    {
        Tables {
            users: self.users,
            user_seq: self.user_seq,
            projects: self.projects,
            project_seq: self.project_seq,
            sessions: self.sessions,
            session_seq: self.session_seq,
            session_tags: self.session_tags,
            app_session: self.app_session,
        }
    }

    /// The identity that the stored record names as signed in, if any.
    pub fn app_session(&self) -> (id: Option<i64>)
        ensures
            id == self@.app_session,
    {
        self.app_session
    }

    /// Where the identity with this id stands in `users`.
    pub(crate) fn find_user(&self, id: i64) -> (r: Option<usize>)
        ensures
            match r {
                Some(i) => i < self@.users.len() && self@.users[i as int].id == id
                    && self.users@.len() == self@.users.len() && self.users@[i as int]@
                    == self@.users[i as int],
                None => !self@.has_user(id),
            },
    {
        let n = self.users.len();
        let mut i: usize = 0;
        while i < n
            invariant
                i <= n,
                n == self.users@.len(),
                forall|k: int| 0 <= k < i ==> self.users@[k].id != id,
            decreases n - i,
        {
            if self.users[i].id == id {
                return Some(i);
            }
            i += 1;
        }
        None
    }
}

/// Whether the rows of `users` keep what the storage enforces of them.
fn users_are_wf(users: &Vec<DbUser>, seq: i64) -> (ok: bool)
    ensures
        ok == users_table_wf(user_rows(users@), seq),
{
    let n = users.len();
    let mut j: usize = 0;
    while j < n
        invariant
            j <= n,
            n == users@.len(),
            users_table_wf(user_rows(users@).take(j as int), seq),
        decreases n - j,
    {
        let ghost rows = user_rows(users@);
        if users[j].id > seq {
            assert(rows[j as int].id > seq);
            return false;
        }
        let mut i: usize = 0;
        while i < j
            invariant
                i <= j,
                j < n,
                n == users@.len(),
                rows == user_rows(users@),
                forall|k: int|
                    0 <= k < i ==> (#[trigger] rows[k]).id != rows[j as int].id && rows[k].email
                        != rows[j as int].email,
            decreases j - i,
        {
            if users[i].id == users[j].id || same_text(
                users[i].email.as_str(),
                users[j].email.as_str(),
            ) {
                assert(rows[i as int].id == rows[j as int].id || rows[i as int].email
                    == rows[j as int].email);
                return false;
            }
            i += 1;
        }
        proof {
            let grown = rows.take(j as int + 1);
            assert forall|a: int, b: int| 0 <= a < b < grown.len() implies grown[a].id
                != grown[b].id && grown[a].email != grown[b].email by {
                if b < j {
                    assert(rows.take(j as int)[a].id != rows.take(j as int)[b].id);
                    assert(rows.take(j as int)[a].email != rows.take(j as int)[b].email);
                }
            }
            assert forall|a: int| 0 <= a < grown.len() implies (#[trigger] grown[a]).id <= seq by {
                if a < j {
                    assert(rows.take(j as int)[a].id <= seq);
                }
            }
        }
        j += 1;
    }
    assert(user_rows(users@).take(n as int) =~= user_rows(users@));
    true
}

/// Whether the rows of `projects` keep what the storage enforces of them.
fn projects_are_wf(projects: &Vec<DbProject>, seq: i64) -> (ok: bool)
    ensures
        ok == projects_table_wf(project_rows(projects@), seq),
{
    let n = projects.len();
    let mut j: usize = 0;
    while j < n
        invariant
            j <= n,
            n == projects@.len(),
            projects_table_wf(project_rows(projects@).take(j as int), seq),
        decreases n - j,
    {
        let ghost rows = project_rows(projects@);
        if projects[j].id > seq {
            assert(rows[j as int].id > seq);
            return false;
        }
        let mut i: usize = 0;
        while i < j
            invariant
                i <= j,
                j < n,
                n == projects@.len(),
                rows == project_rows(projects@),
                forall|k: int| 0 <= k < i ==> (#[trigger] rows[k]).id != rows[j as int].id,
            decreases j - i,
        {
            if projects[i].id == projects[j].id {
                assert(rows[i as int].id == rows[j as int].id);
                return false;
            }
            i += 1;
        }
        proof {
            let grown = rows.take(j as int + 1);
            assert forall|a: int, b: int| 0 <= a < b < grown.len() implies grown[a].id
                != grown[b].id by {
                if b < j {
                    assert(rows.take(j as int)[a].id != rows.take(j as int)[b].id);
                }
            }
            assert forall|a: int| 0 <= a < grown.len() implies (#[trigger] grown[a]).id <= seq by {
                if a < j {
                    assert(rows.take(j as int)[a].id <= seq);
                }
            }
        }
        j += 1;
    }
    assert(project_rows(projects@).take(n as int) =~= project_rows(projects@));
    true
}

/// Whether the rows of `sessions` keep what the storage enforces of them.
fn sessions_are_wf(sessions: &Vec<DbSession>, seq: i64) -> (ok: bool)
    ensures
        ok == sessions_table_wf(session_rows(sessions@), seq),
{
    let n = sessions.len();
    let mut j: usize = 0;
    while j < n
        invariant
            j <= n,
            n == sessions@.len(),
            sessions_table_wf(session_rows(sessions@).take(j as int), seq),
        decreases n - j,
    {
        let ghost rows = session_rows(sessions@);
        if sessions[j].id > seq || SessionStatus::parse(sessions[j].status.as_str()).is_none() {
            assert(rows[j as int].id > seq || !is_status_text(rows[j as int].status));
            return false;
        }
        let mut i: usize = 0;
        while i < j
            invariant
                i <= j,
                j < n,
                n == sessions@.len(),
                rows == session_rows(sessions@),
                forall|k: int| 0 <= k < i ==> (#[trigger] rows[k]).id != rows[j as int].id,
            decreases j - i,
        {
            if sessions[i].id == sessions[j].id {
                assert(rows[i as int].id == rows[j as int].id);
                return false;
            }
            i += 1;
        }
        proof {
            let grown = rows.take(j as int + 1);
            assert forall|a: int, b: int| 0 <= a < b < grown.len() implies grown[a].id
                != grown[b].id by {
                if b < j {
                    assert(rows.take(j as int)[a].id != rows.take(j as int)[b].id);
                }
            }
            assert forall|a: int| 0 <= a < grown.len() implies (#[trigger] grown[a]).id <= seq
                && is_status_text(grown[a].status) by {
                if a < j {
                    assert(rows.take(j as int)[a].id <= seq);
                    assert(is_status_text(rows.take(j as int)[a].status));
                }
            }
        }
        j += 1;
    }
    assert(session_rows(sessions@).take(n as int) =~= session_rows(sessions@));
    true
}

} // verus!
