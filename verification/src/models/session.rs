//! Work sessions: the stored row, its three states, and the two shapes
//! handed back to callers.

use crate::text::{copy_opt_text, opt_text, same_text};
use vstd::prelude::*;

verus! {

/// The state of a work session. `Finished` and `Cancelled` are final.
#[derive(Debug, Clone, Copy, PartialEq, Eq, Structural)]
pub enum SessionStatus {
    Running,
    Finished,
    Cancelled,
}

impl SessionStatus {
    /// The word under which the state is stored.
    pub open spec fn text(self) -> Seq<char> {
        match self {
            SessionStatus::Running => "running"@,
            SessionStatus::Finished => "finished"@,
            SessionStatus::Cancelled => "cancelled"@,
        }
    }

    /// The word under which the state is stored.
    pub fn as_str(&self) -> (word: &'static str)
        ensures
            word@ == self.text(),
    {
        match self {
            SessionStatus::Running => "running",
            SessionStatus::Finished => "finished",
            SessionStatus::Cancelled => "cancelled",
        }
    }

    /// The state stored under `word`, if it is one of the three words.
    pub fn parse(word: &str) -> (r: Option<SessionStatus>)
        ensures
            match r {
                Some(status) => word@ == status.text(),
                None => !is_status_text(word@),
            },
    {
        if same_text(word, "running") {
            Some(SessionStatus::Running)
        } else if same_text(word, "finished") {
            Some(SessionStatus::Finished)
        } else if same_text(word, "cancelled") {
            Some(SessionStatus::Cancelled)
        } else {
            None
        }
    }
}

/// Whether `word` is one of the three words a stored status may hold.
pub open spec fn is_status_text(word: Seq<char>) -> bool {
    word == SessionStatus::Running.text() || word == SessionStatus::Finished.text() || word
        == SessionStatus::Cancelled.text()
}

/// The three words differ from one another.
pub proof fn lemma_status_texts_differ()
    ensures
        SessionStatus::Running.text() != SessionStatus::Finished.text(),
        SessionStatus::Running.text() != SessionStatus::Cancelled.text(),
        SessionStatus::Finished.text() != SessionStatus::Cancelled.text(),
{
    reveal_strlit("running");
    reveal_strlit("finished");
    reveal_strlit("cancelled");
    assert("running"@.len() == 7);
    assert("finished"@.len() == 8);
    assert("cancelled"@.len() == 9);
}

/// What a contract can say of a stored session.
pub struct SessionRow {
    pub id: i64,
    pub user_id: i64,
    pub project_id: Option<i64>,
    pub start_time: Seq<char>,
    pub end_time: Option<Seq<char>>,
    pub description: Option<Seq<char>>,
    pub status: Seq<char>,
}

impl SessionRow {
    /// Whether this is a running session of `owner`.
    pub open spec fn running_for(self, owner: i64) -> bool {
        self.user_id == owner && self.status == SessionStatus::Running.text()
    }

    /// Whether this is a finished session of `owner`.
    pub open spec fn finished_for(self, owner: i64) -> bool {
        self.user_id == owner && self.status == SessionStatus::Finished.text()
    }

    /// The running session as shown to its owner.
    pub open spec fn active(self) -> ActiveSessionView {
        ActiveSessionView {
            id: self.id,
            project_id: self.project_id,
            start_time: self.start_time,
            end_time: self.end_time,
            description: self.description,
            status: SessionStatus::Running,
        }
    }
}

/// A row of the `sessions` table.
#[derive(Debug)]
pub struct DbSession {
    pub id: i64,
    pub user_id: i64,
    pub project_id: Option<i64>,
    pub start_time: String,
    pub end_time: Option<String>,
    pub description: Option<String>,
    pub status: String,
}

impl View for DbSession {
    type V = SessionRow;

    open spec fn view(&self) -> SessionRow {
        SessionRow {
            id: self.id,
            user_id: self.user_id,
            project_id: self.project_id,
            start_time: self.start_time@,
            end_time: opt_text(self.end_time),
            description: opt_text(self.description),
            status: self.status@,
        }
    }
}

impl Clone for DbSession {
    fn clone(&self) -> (r: Self)
        ensures
            r@ == self@,
    {
        DbSession {
            id: self.id,
            user_id: self.user_id,
            project_id: self.project_id,
            start_time: self.start_time.clone(),
            end_time: copy_opt_text(&self.end_time),
            description: copy_opt_text(&self.description),
            status: self.status.clone(),
        }
    }
}

/// What a contract can say of a stored tag: the session it belongs to, and its text.
pub struct TagRow {
    pub session_id: i64,
    pub tag: Seq<char>,
}

/// A row of the `session_tags` table.
#[derive(Debug)]
pub struct DbSessionTag {
    pub session_id: i64,
    pub tag: String,
}

impl View for DbSessionTag {
    type V = TagRow;

    open spec fn view(&self) -> TagRow {
        TagRow { session_id: self.session_id, tag: self.tag@ }
    }
}

impl Clone for DbSessionTag {
    fn clone(&self) -> (r: Self)
        ensures
            r@ == self@,
    {
        DbSessionTag { session_id: self.session_id, tag: self.tag.clone() }
    }
}

/// What a contract can say of a running session as shown to its owner.
pub struct ActiveSessionView {
    pub id: i64,
    pub project_id: Option<i64>,
    pub start_time: Seq<char>,
    pub end_time: Option<Seq<char>>,
    pub description: Option<Seq<char>>,
    pub status: SessionStatus,
}

/// The running session of an identity, as shown to it.
#[derive(Debug)]
pub struct ActiveSessionResponse {
    pub id: i64,
    pub project_id: Option<i64>,
    pub start_time: String,
    pub end_time: Option<String>,
    pub description: Option<String>,
    pub status: SessionStatus,
}

impl View for ActiveSessionResponse {
    type V = ActiveSessionView;

    open spec fn view(&self) -> ActiveSessionView {
        ActiveSessionView {
            id: self.id,
            project_id: self.project_id,
            start_time: self.start_time@,
            end_time: opt_text(self.end_time),
            description: opt_text(self.description),
            status: self.status,
        }
    }
}

/// What a contract can say of a finished session as shown to its owner.
pub struct FinishedSessionView {
    pub id: i64,
    pub project_id: Option<i64>,
    pub start_time: Seq<char>,
    pub end_time: Seq<char>,
    pub description: Option<Seq<char>>,
    pub tags: Seq<Seq<char>>,
}

/// A finished session with its tags, as shown to its owner.
#[derive(Debug)]
pub struct FinishedSessionResponse {
    pub id: i64,
    pub project_id: Option<i64>,
    pub start_time: String,
    pub end_time: String,
    pub description: Option<String>,
    pub tags: Vec<String>,
}

/// A list of texts as a contract sees it.
pub open spec fn texts(v: Seq<String>) -> Seq<Seq<char>> {
    Seq::new(v.len(), |i: int| v[i]@)
}

impl View for FinishedSessionResponse {
    type V = FinishedSessionView;

    open spec fn view(&self) -> FinishedSessionView {
        FinishedSessionView {
            id: self.id,
            project_id: self.project_id,
            start_time: self.start_time@,
            end_time: self.end_time@,
            description: opt_text(self.description),
            tags: texts(self.tags@),
        }
    }
}

} // verus!
