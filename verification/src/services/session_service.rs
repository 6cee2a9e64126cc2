//! The session timer: start, finalize, cancel, and the two ways to look at
//! what is stored.
//!
//! A session is `running` from its start until it is finalized (`finished`) or
//! cancelled (`cancelled`); it never leaves either of those. `start_session`
//! refuses a second running session for one identity, which is what keeps
//! [`DatabaseView::one_running_each`] true.

use crate::clock::now_rfc3339;
use crate::db::{Database, DatabaseView, session_rows, tag_rows};
use crate::error::ServiceError;
use crate::models::session::{
    ActiveSessionResponse, ActiveSessionView, DbSession, DbSessionTag, FinishedSessionResponse,
    FinishedSessionView, SessionRow, SessionStatus, TagRow, is_status_text,
    lemma_status_texts_differ, texts,
};
use crate::text::{
    copy_opt_text, lemma_bytes_le_reflexive, lemma_bytes_le_total, lemma_bytes_le_transitive,
    same_text, text_at_or_before, text_le,
};
use crate::theorems::{Operation, theorem_rules_kept, theorem_started_session_has_no_tags};
use vstd::prelude::*;
use vstd::utf8::encode_utf8;

verus! {

/// The tags that stay when those of session `id` are removed.
pub open spec fn tags_without(tags: Seq<TagRow>, id: i64) -> Seq<TagRow> {
    tags.filter(|t: TagRow| t.session_id != id)
}

/// The tags of session `id`, in the order in which they were stored.
pub open spec fn tags_of(tags: Seq<TagRow>, id: i64) -> Seq<Seq<char>> {
    tags.filter(|t: TagRow| t.session_id == id).map_values(|t: TagRow| t.tag)
}

/// The rows that store `tags` for session `id`.
pub open spec fn tag_rows_for(id: i64, tags: Seq<Seq<char>>) -> Seq<TagRow> {
    Seq::new(tags.len(), |k: int| TagRow { session_id: id, tag: tags[k] })
}

/// A session as it stands once finalized at `now`.
pub open spec fn finalized_row(
    row: SessionRow,
    description: Seq<char>,
    now: Seq<char>,
) -> SessionRow {
    SessionRow {
        status: SessionStatus::Finished.text(),
        end_time: Some(now),
        description: Some(description),
        ..row
    }
}

/// A session as it stands once cancelled.
pub open spec fn cancelled_row(row: SessionRow) -> SessionRow {
    SessionRow { status: SessionStatus::Cancelled.text(), ..row }
}

/// What `start_session` hands back, as a contract sees it.
pub open spec fn started_view(r: Result<ActiveSessionResponse, ServiceError>) -> Result<
    ActiveSessionView,
    ServiceError,
> {
    match r {
        Ok(session) => Ok(session@),
        Err(e) => Err(e),
    }
}

/// The finished sessions in `list`, as a contract sees them.
pub open spec fn finished_views(list: Seq<FinishedSessionResponse>) -> Seq<FinishedSessionView> {
    Seq::new(list.len(), |i: int| list[i]@)
}

/// Whether `list` runs from the latest start to the earliest.
pub open spec fn latest_first(list: Seq<FinishedSessionView>) -> bool {
    forall|i: int, j: int|
        #![trigger list[i], list[j]]
        0 <= i < j < list.len() ==> text_le(list[j].start_time, list[i].start_time)
}

impl DatabaseView {
    /// The session that `start` inserts for `owner` at `now`.
    pub open spec fn started_row(
        self,
        owner: i64,
        project: Option<i64>,
        now: Seq<char>,
    ) -> SessionRow {
        SessionRow {
            id: (self.session_seq + 1) as i64,
            user_id: owner,
            project_id: project,
            start_time: now,
            end_time: None,
            description: None,
            status: SessionStatus::Running.text(),
        }
    }

    /// Starting a session for `owner` at `now`: the storage afterwards, and
    /// what the caller is told. Refused while `owner` has a running session,
    /// and when the table has no id left to give.
    pub open spec fn start(self, owner: i64, project: Option<i64>, now: Seq<char>) -> (
        DatabaseView,
        Result<ActiveSessionView, ServiceError>,
    ) {
        if self.has_running(owner) {
            (self, Err(ServiceError::SessionAlreadyActive))
        } else if self.session_seq == i64::MAX {
            (self, Err(ServiceError::StorageFailure))
        } else {
            let row = self.started_row(owner, project, now);
            (
                DatabaseView {
                    sessions: self.sessions.push(row),
                    session_seq: row.id,
                    ..self
                },
                Ok(row.active()),
            )
        }
    }

    /// Whether the row at `i` is a running session of `owner` that started
    /// no earlier than any other running session of `owner`.
    pub open spec fn latest_running_at(self, owner: i64, i: int) -> bool {
        &&& 0 <= i < self.sessions.len()
        &&& self.sessions[i].running_for(owner)
        &&& forall|j: int|
            0 <= j < self.sessions.len() && (#[trigger] self.sessions[j]).running_for(owner)
                ==> text_le(self.sessions[j].start_time, self.sessions[i].start_time)
    }

    /// Whether `owner` may finalize session `id`: it is stored, it is theirs,
    /// and it is running.
    pub open spec fn can_finalize(self, owner: i64, id: i64) -> bool {
        &&& self.has_session(id)
        &&& self.session(id).user_id == owner
        &&& self.session(id).status == SessionStatus::Running.text()
    }

    /// Finalizing session `id` for `owner` at `now`: the storage afterwards,
    /// and what the caller is told. Either the session becomes `finished` with
    /// its end time, its description and exactly the tags given, or nothing
    /// changes.
    pub open spec fn finalize(
        self,
        owner: i64,
        id: i64,
        description: Seq<char>,
        tags: Seq<Seq<char>>,
        now: Seq<char>,
    ) -> (DatabaseView, Result<(), ServiceError>) {
        if !self.can_finalize(owner, id) {
            (self, Err(ServiceError::InvalidSessionState))
        } else {
            (
                DatabaseView {
                    sessions: Seq::new(
                        self.sessions.len(),
                        |i: int|
                            if self.sessions[i].id == id {
                                finalized_row(self.sessions[i], description, now)
                            } else {
                                self.sessions[i]
                            },
                    ),
                    session_tags: tags_without(self.session_tags, id) + tag_rows_for(id, tags),
                    ..self
                },
                Ok(()),
            )
        }
    }

    /// The storage once every running session of `owner` is cancelled.
    pub open spec fn cancel(self, owner: i64) -> DatabaseView {
        DatabaseView {
            sessions: Seq::new(
                self.sessions.len(),
                |i: int|
                    if self.sessions[i].running_for(owner) {
                        cancelled_row(self.sessions[i])
                    } else {
                        self.sessions[i]
                    },
            ),
            ..self
        }
    }

    /// A finished session with its tags, as shown to its owner. A finished
    /// session has an end time.
    pub open spec fn finished_view(self, row: SessionRow) -> FinishedSessionView
        recommends
            row.end_time is Some,
    {
        FinishedSessionView {
            id: row.id,
            project_id: row.project_id,
            start_time: row.start_time,
            end_time: row.end_time->0,
            description: row.description,
            tags: tags_of(self.session_tags, row.id),
        }
    }

    /// The finished sessions of `owner` among the first `n` rows, in the order
    /// in which they are stored.
    pub open spec fn finished_among(self, owner: i64, n: int) -> Seq<FinishedSessionView>
        decreases n,
    {
        if n <= 0 {
            Seq::empty()
        } else if self.sessions[n - 1].finished_for(owner) {
            self.finished_among(owner, n - 1).push(self.finished_view(self.sessions[n - 1]))
        } else {
            self.finished_among(owner, n - 1)
        }
    }

    /// The finished sessions of `owner`, in the order in which they are stored.
    pub open spec fn finished(self, owner: i64) -> Seq<FinishedSessionView> {
        self.finished_among(owner, self.sessions.len() as int)
    }

    /// Whether some finished session of `owner` has no end time.
    pub open spec fn has_unended_finished(self, owner: i64) -> bool {
        exists|i: int|
            0 <= i < self.sessions.len() && (#[trigger] self.sessions[i]).finished_for(owner)
                && self.sessions[i].end_time is None
    }
}

/// Where the session with this id stands in `sessions`.
fn get_session_by_id(db: &Database, id: i64) -> (r: Option<usize>)
    ensures
        match r {
            Some(i) => i < db.sessions@.len() && db.sessions@[i as int].id == id,
            None => !db@.has_session(id),
        },
{
    proof {
        db.lemma_view();
    }
    let n = db.sessions.len();
    let mut i: usize = 0;
    while i < n
        invariant
            i <= n,
            n == db.sessions@.len(),
            forall|k: int| 0 <= k < i ==> db.sessions@[k].id != id,
        decreases n - i,
    {
        if db.sessions[i].id == id {
            return Some(i);
        }
        i += 1;
    }
    assert forall|k: int| 0 <= k < db@.sessions.len() implies (#[trigger] db@.sessions[k]).id
        != id by {
        assert(db.sessions@[k].id != id);
    }
    None
}

/// The running session of `user_id`, if there is one. Should the storage
/// hold several, the one that started last is returned.
pub fn get_active_session(db: &Database, user_id: i64) -> (r: Result<
    Option<ActiveSessionResponse>,
    ServiceError,
>)
    requires
        db.wf(),
    ensures
        match r {
            Ok(Some(session)) => exists|i: int|
                db@.latest_running_at(user_id, i) && session@ == (
                #[trigger] db@.sessions[i]).active(),
            Ok(None) => !db@.has_running(user_id),
            Err(_) => false,
        },
{
    proof {
        db.lemma_view();
    }
    let n = db.sessions.len();
    let mut best: Option<usize> = None;
    let mut i: usize = 0;
    while i < n
        invariant
            i <= n,
            n == db.sessions@.len(),
            db@.sessions == session_rows(db.sessions@),
            match best {
                Some(b) => b < i && db@.sessions[b as int].running_for(user_id) && forall|k: int|
                    0 <= k < i && (#[trigger] db@.sessions[k]).running_for(user_id) ==> text_le(
                        db@.sessions[k].start_time,
                        db@.sessions[b as int].start_time,
                    ),
                None => forall|k: int|
                    0 <= k < i ==> !(#[trigger] db@.sessions[k]).running_for(user_id),
            },
        decreases n - i,
    {
        let row = &db.sessions[i];
        assert(row@ == db@.sessions[i as int]);
        if row.user_id == user_id && same_text(
            row.status.as_str(),
            SessionStatus::Running.as_str(),
        ) {
            match best {
                None => {
                    proof {
                        lemma_bytes_le_reflexive(encode_utf8(row@.start_time));
                    }
                    best = Some(i);
                },
                Some(b) => {
                    let held = &db.sessions[b];
                    assert(held@ == db@.sessions[b as int]);
                    if !text_at_or_before(row.start_time.as_str(), held.start_time.as_str()) {
                        proof {
                            let new_start = encode_utf8(row@.start_time);
                            let old_start = encode_utf8(held@.start_time);
                            lemma_bytes_le_total(new_start, old_start);
                            lemma_bytes_le_reflexive(new_start);
                            assert forall|k: int|
                                0 <= k < i + 1 && (#[trigger] db@.sessions[k]).running_for(
                                    user_id,
                                ) implies text_le(
                                db@.sessions[k].start_time,
                                db@.sessions[i as int].start_time,
                            ) by {
                                if k < i {
                                    lemma_bytes_le_transitive(
                                        encode_utf8(db@.sessions[k].start_time),
                                        old_start,
                                        new_start,
                                    );
                                }
                            }
                        }
                        best = Some(i);
                    }
                },
            }
        }
        i += 1;
    }
    match best {
        None => Ok(None),
        Some(b) => {
            let row = &db.sessions[b];
            assert(row@ == db@.sessions[b as int]);
            assert(db@.latest_running_at(user_id, b as int));
            Ok(
                Some(
                    ActiveSessionResponse {
                        id: row.id,
                        project_id: row.project_id,
                        start_time: row.start_time.clone(),
                        end_time: copy_opt_text(&row.end_time),
                        description: copy_opt_text(&row.description),
                        status: SessionStatus::Running,
                    },
                ),
            )
        },
    }
}

/// Starts a session for `user_id` at the time `now`.
///
/// Fails with `SessionAlreadyActive` while `user_id` has a running session,
/// and with `StorageFailure` when the table has no id left; the storage is
/// then unchanged. Otherwise the new running session is stored and returned.
pub fn start_session_at(
    db: &mut Database,
    user_id: i64,
    project_id: Option<i64>,
    now: String,
) -> (r: Result<ActiveSessionResponse, ServiceError>)
    requires
        old(db).wf(),
    ensures
        final(db).wf(),
        final(db)@ == old(db)@.start(user_id, project_id, now@).0,
        started_view(r) == old(db)@.start(user_id, project_id, now@).1,
        final(db)@.keeps(old(db)@),
        old(db)@.tags_name_handed_out_ids() && r is Ok ==> tags_of(
            final(db)@.session_tags,
            r->Ok_0.id,
        ) == Seq::<Seq<char>>::empty(),
{
    proof {
        db.lemma_view();
        if db@.tags_name_handed_out_ids() {
            theorem_started_session_has_no_tags(db@, user_id, project_id, now@);
        }
        theorem_rules_kept(
            db@,
            Operation::Start { owner: user_id, project: project_id, now: now@ },
        );
    }
    match get_active_session(db, user_id) {
        Ok(Some(_)) => {
            return Err(ServiceError::SessionAlreadyActive);
        },
        _ => {},
    }
    if db.session_seq == i64::MAX {
        return Err(ServiceError::StorageFailure);
    }
    let id: i64 = db.session_seq + 1;
    let ghost before = db@;
    let ghost row = before.started_row(user_id, project_id, now@);
    let stored = DbSession {
        id,
        user_id,
        project_id,
        start_time: now.clone(),
        end_time: None,
        description: None,
        status: SessionStatus::Running.as_str().to_owned(),
    };
    assert(stored@ == row);
    db.session_seq = id;
    db.sessions.push(stored);
    proof {
        db.lemma_view();
        assert(db@.sessions =~= before.sessions.push(row));
        assert(db@.users == before.users);
        assert(db@.projects == before.projects);
        assert(db@.session_tags == before.session_tags);
        assert(is_status_text(row.status));
    }
    Ok(
        ActiveSessionResponse {
            id,
            project_id,
            start_time: now,
            end_time: None,
            description: None,
            status: SessionStatus::Running,
        },
    )
}

/// Starts a session for `user_id` now.
///
/// As `start_session_at`, with the time read from the clock: the session
/// returned carries that time as its start.
pub fn start_session(db: &mut Database, user_id: i64, project_id: Option<i64>) -> (r: Result<
    ActiveSessionResponse,
    ServiceError,
>)
    requires
        old(db).wf(),
    ensures
        final(db).wf(),
        exists|now: Seq<char>|
            final(db)@ == (#[trigger] old(db)@.start(user_id, project_id, now)).0 && started_view(r)
                == old(db)@.start(user_id, project_id, now).1,
        final(db)@.keeps(old(db)@),
        old(db)@.tags_name_handed_out_ids() && r is Ok ==> tags_of(
            final(db)@.session_tags,
            r->Ok_0.id,
        ) == Seq::<Seq<char>>::empty(),
{
    let now = now_rfc3339();
    start_session_at(db, user_id, project_id, now)
}

/// Removing the tags of session `id` from `tags` with one more row at its end.
pub proof fn lemma_tags_without_push(tags: Seq<TagRow>, last: TagRow, id: i64)
    ensures
        tags_without(tags.push(last), id) == if last.session_id != id {
            tags_without(tags, id).push(last)
        } else {
            tags_without(tags, id)
        },
{
    reveal(Seq::filter);
    assert(tags.push(last).drop_last() =~= tags);
}

/// The tags of session `id` in `tags` with one more row at its end.
pub proof fn lemma_tags_of_push(tags: Seq<TagRow>, last: TagRow, id: i64)
    ensures
        tags_of(tags.push(last), id) == if last.session_id == id {
            tags_of(tags, id).push(last.tag)
        } else {
            tags_of(tags, id)
        },
{
    reveal(Seq::filter);
    assert(tags.push(last).drop_last() =~= tags);
    let kept = tags.filter(|t: TagRow| t.session_id == id);
    if last.session_id == id {
        assert(kept.push(last).map_values(|t: TagRow| t.tag) =~= kept.map_values(
            |t: TagRow| t.tag,
        ).push(last.tag));
    }
}

/// The rows of `session_tags` that do not belong to session `id`, copied.
fn tags_kept(tags: &Vec<DbSessionTag>, id: i64) -> (kept: Vec<DbSessionTag>)
    ensures
        tag_rows(kept@) == tags_without(tag_rows(tags@), id),
{
    let n = tags.len();
    let mut kept: Vec<DbSessionTag> = Vec::new();
    let mut i: usize = 0;
    assert(tag_rows(tags@).take(0) =~= Seq::empty());
    assert(tag_rows(kept@) =~= Seq::empty());
    proof {
        reveal(Seq::filter);
    }
    while i < n
        invariant
            i <= n,
            n == tags@.len(),
            tag_rows(kept@) == tags_without(tag_rows(tags@).take(i as int), id),
        decreases n - i,
    {
        let ghost before = tag_rows(kept@);
        proof {
            assert(tag_rows(tags@).take(i as int + 1) =~= tag_rows(tags@).take(i as int).push(
                tags@[i as int]@,
            ));
            lemma_tags_without_push(tag_rows(tags@).take(i as int), tags@[i as int]@, id);
        }
        if tags[i].session_id != id {
            kept.push(tags[i].clone());
            assert(tag_rows(kept@) =~= before.push(tags@[i as int]@));
        }
        i += 1;
    }
    assert(tag_rows(tags@).take(n as int) =~= tag_rows(tags@));
    kept
}

/// Finalizes session `session_id` for `user_id` at the time `now`.
///
/// Fails with `InvalidSessionState`, and changes nothing, unless the session
/// is stored, belongs to `user_id` and is running. Otherwise the session
/// becomes `finished` with `now` as its end and `description` as its
/// description, and its stored tags are replaced by `tags`.
pub fn finalize_session_at(
    db: &mut Database,
    user_id: i64,
    session_id: i64,
    description: String,
    tags: Vec<String>,
    now: String,
) -> (r: Result<(), ServiceError>)
    requires
        old(db).wf(),
    ensures
        final(db).wf(),
        final(db)@ == old(db)@.finalize(user_id, session_id, description@, texts(tags@), now@).0,
        r == old(db)@.finalize(user_id, session_id, description@, texts(tags@), now@).1,
        final(db)@.keeps(old(db)@),
{
    proof {
        db.lemma_view();
        theorem_rules_kept(
            db@,
            Operation::Finalize {
                owner: user_id,
                id: session_id,
                description: description@,
                tags: texts(tags@),
                now: now@,
            },
        );
    }
    let ghost before = db@;
    let at = match get_session_by_id(db, session_id) {
        Some(at) => at,
        None => {
            return Err(ServiceError::InvalidSessionState);
        },
    };
    proof {
        before.lemma_session_at(at as int);
    }
    if db.sessions[at].user_id != user_id || !same_text(
        db.sessions[at].status.as_str(),
        SessionStatus::Running.as_str(),
    ) {
        return Err(ServiceError::InvalidSessionState);
    }
    let ghost after = before.finalize(user_id, session_id, description@, texts(tags@), now@).0;
    db.sessions[at].status = SessionStatus::Finished.as_str().to_owned();
    db.sessions[at].end_time = Some(now);
    db.sessions[at].description = Some(description);
    proof {
        assert(session_rows(db.sessions@) =~= after.sessions) by {
            assert forall|k: int| 0 <= k < before.sessions.len() implies session_rows(
                db.sessions@,
            )[k] == after.sessions[k] by {
                if k != at {
                    if k < at {
                        assert(before.sessions[k].id != before.sessions[at as int].id);
                    } else {
                        assert(before.sessions[at as int].id != before.sessions[k].id);
                    }
                }
            }
        }
    }
    let mut kept = tags_kept(&db.session_tags, session_id);
    let n = tags.len();
    let mut i: usize = 0;
    let ghost base = tags_without(before.session_tags, session_id);
    assert(tag_rows(kept@) =~= base + tag_rows_for(session_id, texts(tags@)).take(0));
    while i < n
        invariant
            i <= n,
            n == tags@.len(),
            tag_rows(kept@) == base + tag_rows_for(session_id, texts(tags@)).take(i as int),
        decreases n - i,
    {
        let ghost held = tag_rows(kept@);
        kept.push(DbSessionTag { session_id, tag: tags[i].clone() });
        proof {
            let added = TagRow { session_id, tag: tags@[i as int]@ };
            assert(tag_rows(kept@) =~= held.push(added));
            assert(tag_rows_for(session_id, texts(tags@)).take(i as int + 1) =~= tag_rows_for(
                session_id,
                texts(tags@),
            ).take(i as int).push(added));
            assert(held.push(added) =~= base + tag_rows_for(session_id, texts(tags@)).take(
                i as int + 1,
            ));
        }
        i += 1;
    }
    assert(tag_rows_for(session_id, texts(tags@)).take(n as int) =~= tag_rows_for(
        session_id,
        texts(tags@),
    ));
    db.session_tags = kept;
    proof {
        db.lemma_view();
        lemma_status_is_word();
        assert(db@.sessions == after.sessions);
        assert(db@.session_tags == after.session_tags);
        assert(db@ == after);
    }
    Ok(())
}

/// Finalizes session `session_id` for `user_id` now.
///
/// As `finalize_session_at`, with the time read from the clock.
pub fn finalize_session(
    db: &mut Database,
    user_id: i64,
    session_id: i64,
    description: String,
    tags: Vec<String>,
) -> (r: Result<(), ServiceError>)
    requires
        old(db).wf(),
    ensures
        final(db).wf(),
        exists|now: Seq<char>|
            final(db)@ == (#[trigger] old(db)@.finalize(
                user_id,
                session_id,
                description@,
                texts(tags@),
                now,
            )).0 && r == old(db)@.finalize(user_id, session_id, description@, texts(tags@), now).1,
        final(db)@.keeps(old(db)@),
{
    let now = now_rfc3339();
    finalize_session_at(db, user_id, session_id, description, tags, now)
}

/// Each of the three states is stored under one of the three words.
proof fn lemma_status_is_word()
    ensures
        is_status_text(SessionStatus::Running.text()),
        is_status_text(SessionStatus::Finished.text()),
        is_status_text(SessionStatus::Cancelled.text()),
{
}

/// Cancels every running session of `user_id`. Where there is none, nothing
/// changes; the call succeeds either way.
pub fn cancel_session(db: &mut Database, user_id: i64) -> (r: Result<(), ServiceError>)
    requires
        old(db).wf(),
    ensures
        final(db).wf(),
        r is Ok,
        final(db)@ == old(db)@.cancel(user_id),
        !old(db)@.has_running(user_id) ==> final(db)@ == old(db)@,
        !final(db)@.has_running(user_id),
        final(db)@.keeps(old(db)@),
{
    proof {
        db.lemma_view();
        lemma_status_is_word();
        theorem_rules_kept(db@, Operation::Cancel { owner: user_id });
        lemma_status_texts_differ();
        assert forall|i: int| 0 <= i < db@.cancel(user_id).sessions.len() implies !(
        #[trigger] db@.cancel(user_id).sessions[i]).running_for(user_id) by {}
    }
    let ghost before = db@;
    let ghost after = before.cancel(user_id);
    let n = db.sessions.len();
    let mut i: usize = 0;
    while i < n
        invariant
            i <= n,
            n == db.sessions@.len(),
            n == before.sessions.len(),
            after == before.cancel(user_id),
            db.users == old(db).users,
            db.user_seq == old(db).user_seq,
            db.projects == old(db).projects,
            db.project_seq == old(db).project_seq,
            db.session_seq == old(db).session_seq,
            db.session_tags == old(db).session_tags,
            db.app_session == old(db).app_session,
            forall|k: int| 0 <= k < i ==> session_rows(db.sessions@)[k] == after.sessions[k],
            forall|k: int| i <= k < n ==> session_rows(db.sessions@)[k] == before.sessions[k],
        decreases n - i,
    {
        if db.sessions[i].user_id == user_id && same_text(
            db.sessions[i].status.as_str(),
            SessionStatus::Running.as_str(),
        ) {
            let ghost held = session_rows(db.sessions@);
            db.sessions[i].status = SessionStatus::Cancelled.as_str().to_owned();
            assert(session_rows(db.sessions@) =~= held.update(
                i as int,
                cancelled_row(held[i as int]),
            ));
        }
        i += 1;
    }
    proof {
        db.lemma_view();
        old(db).lemma_view();
        assert(db@.sessions =~= after.sessions);
        assert(db@ == after);
        if !before.has_running(user_id) {
            assert(after.sessions =~= before.sessions);
        }
    }
    Ok(())
}

/// The tags of session `id`, copied in the order in which they are stored.
fn tags_for(tags: &Vec<DbSessionTag>, id: i64) -> (found: Vec<String>)
    ensures
        texts(found@) == tags_of(tag_rows(tags@), id),
{
    let n = tags.len();
    let mut found: Vec<String> = Vec::new();
    let mut i: usize = 0;
    assert(tag_rows(tags@).take(0) =~= Seq::empty());
    proof {
        reveal(Seq::filter);
    }
    assert(texts(found@) =~= tags_of(Seq::empty(), id));
    while i < n
        invariant
            i <= n,
            n == tags@.len(),
            texts(found@) == tags_of(tag_rows(tags@).take(i as int), id),
        decreases n - i,
    {
        let ghost before = texts(found@);
        proof {
            assert(tag_rows(tags@).take(i as int + 1) =~= tag_rows(tags@).take(i as int).push(
                tags@[i as int]@,
            ));
            lemma_tags_of_push(tag_rows(tags@).take(i as int), tags@[i as int]@, id);
        }
        if tags[i].session_id == id {
            found.push(tags[i].tag.clone());
            assert(texts(found@) =~= before.push(tags@[i as int]@.tag));
        }
        i += 1;
    }
    assert(tag_rows(tags@).take(n as int) =~= tag_rows(tags@));
    found
}

/// The finished sessions of `user_id`, each with its tags, from the latest
/// start to the earliest.
///
/// Fails with `StorageFailure` when a finished session of `user_id` has no
/// end time. Otherwise the list holds each finished session of `user_id`
/// once, with the tags stored for it, ordered by start time, latest first.
pub fn get_finished_sessions(db: &Database, user_id: i64) -> (r: Result<
    Vec<FinishedSessionResponse>,
    ServiceError,
>)
    requires
        db.wf(),
    ensures
        match r {
            Ok(list) => {
                &&& !db@.has_unended_finished(user_id)
                &&& finished_views(list@).to_multiset() == db@.finished(user_id).to_multiset()
                &&& latest_first(finished_views(list@))
            },
            Err(e) => e == ServiceError::StorageFailure && db@.has_unended_finished(user_id),
        },
        db@.finished_have_ended() ==> r is Ok,
{
    proof {
        db.lemma_view();
        if db@.finished_have_ended() && db@.has_unended_finished(user_id) {
            let i = choose|i: int|
                0 <= i < db@.sessions.len() && (#[trigger] db@.sessions[i]).finished_for(user_id)
                    && db@.sessions[i].end_time is None;
            assert(db@.sessions[i].end_time is Some);
        }
    }
    let n = db.sessions.len();
    let mut list: Vec<FinishedSessionResponse> = Vec::new();
    let mut i: usize = 0;
    assert(finished_views(list@) =~= db@.finished_among(user_id, 0));
    while i < n
        invariant
            i <= n,
            n == db.sessions@.len(),
            db@.sessions == session_rows(db.sessions@),
            db@.session_tags == tag_rows(db.session_tags@),
            finished_views(list@).to_multiset() == db@.finished_among(
                user_id,
                i as int,
            ).to_multiset(),
            latest_first(finished_views(list@)),
            forall|k: int|
                0 <= k < i && (#[trigger] db@.sessions[k]).finished_for(user_id)
                    ==> db@.sessions[k].end_time is Some,
        decreases n - i,
    {
        let row = &db.sessions[i];
        assert(row@ == db@.sessions[i as int]);
        if row.user_id == user_id && same_text(
            row.status.as_str(),
            SessionStatus::Finished.as_str(),
        ) {
            let end_time = match &row.end_time {
                Some(end_time) => end_time.clone(),
                None => {
                    return Err(ServiceError::StorageFailure);
                },
            };
            let shown = FinishedSessionResponse {
                id: row.id,
                project_id: row.project_id,
                start_time: row.start_time.clone(),
                end_time,
                description: copy_opt_text(&row.description),
                tags: tags_for(&db.session_tags, row.id),
            };
            assert(shown@ == db@.finished_view(row@));
            let m = list.len();
            let mut at: usize = 0;
            while at < m && text_at_or_before(
                shown.start_time.as_str(),
                list[at].start_time.as_str(),
            )
                invariant
                    at <= m,
                    m == list@.len(),
                    forall|k: int|
                        0 <= k < at ==> text_le(
                            shown@.start_time,
                            (#[trigger] finished_views(list@)[k]).start_time,
                        ),
                decreases m - at,
            {
                at += 1;
            }
            let ghost held = finished_views(list@);
            proof {
                if at < m {
                    let new_start = encode_utf8(shown@.start_time);
                    let next_start = encode_utf8(held[at as int].start_time);
                    lemma_bytes_le_total(new_start, next_start);
                    assert forall|k: int| at <= k < m implies text_le(
                        (#[trigger] held[k]).start_time,
                        shown@.start_time,
                    ) by {
                        if k > at {
                            assert(text_le(held[k].start_time, held[at as int].start_time));
                            lemma_bytes_le_transitive(
                                encode_utf8(held[k].start_time),
                                next_start,
                                new_start,
                            );
                        }
                    }
                }
            }
            list.insert(at, shown);
            proof {
                let grown = finished_views(list@);
                assert(grown =~= held.insert(at as int, shown@));
                vstd::seq_lib::to_multiset_insert(held, at as int, shown@);
                let earlier = db@.finished_among(user_id, i as int);
                vstd::seq_lib::to_multiset_build(earlier, shown@);
                assert forall|a: int, b: int| 0 <= a < b < grown.len() implies text_le(
                    grown[b].start_time,
                    grown[a].start_time,
                ) by {
                    if b < at {
                        assert(grown[a] == held[a] && grown[b] == held[b]);
                    } else if b == at {
                        assert(grown[a] == held[a]);
                    } else if a < at {
                        assert(grown[a] == held[a] && grown[b] == held[b - 1]);
                    } else if a == at {
                        assert(grown[b] == held[b - 1]);
                    } else {
                        assert(grown[a] == held[a - 1] && grown[b] == held[b - 1]);
                    }
                }
            }
        }
        i += 1;
    }
    proof {
        if db@.has_unended_finished(user_id) {
            let k = choose|k: int|
                0 <= k < db@.sessions.len() && (#[trigger] db@.sessions[k]).finished_for(user_id)
                    && db@.sessions[k].end_time is None;
            assert(db@.sessions[k].end_time is Some);
        }
    }
    Ok(list)
}

} // verus!
