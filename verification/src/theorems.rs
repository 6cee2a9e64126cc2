//! What holds of the storage whatever is done to it.
//!
//! An [`Operation`] is one change that this library makes to the storage;
//! [`DatabaseView::after`] is the storage once it is made. The theorems here
//! are stated over these, and so over the very functions in which the
//! contracts of the executable operations are written.

use crate::credential::argon2_accepts;
use crate::db::DatabaseView;
use crate::error::ServiceError;
use crate::models::session::{ActiveSessionView, SessionStatus, TagRow, lemma_status_texts_differ};
use crate::models::user::PublicUserView;
use crate::services::session_service::{finalized_row, tag_rows_for, tags_of, tags_without};
use crate::text::{is_normalized_email, normalized_email, normalized_opt};
use vstd::prelude::*;

verus! {

/// One change to the storage.
pub enum Operation {
    /// An identity is created with this email, as typed, and this credential.
    Create { email: Seq<char>, password_hash: Seq<char> },
    /// Someone signs in with this email and password.
    Login { email: Seq<char>, password: Seq<char> },
    /// Whoever is signed in signs out.
    Logout,
    /// The profile of an identity changes in the parts given; a new email is
    /// given as typed.
    UpdateProfile {
        id: i64,
        new_display_name: Option<Seq<char>>,
        new_email: Option<Seq<char>>,
        new_password_hash: Option<Seq<char>>,
    },
    /// An identity gets an avatar.
    SetAvatar { id: i64, path: Seq<char> },
    /// A project is created.
    CreateProject { owner: i64, name: Seq<char>, color: Seq<char> },
    /// A project changes in the parts given.
    UpdateProject {
        owner: i64,
        id: i64,
        new_name: Option<Seq<char>>,
        new_color: Option<Seq<char>>,
    },
    /// A project is deleted.
    DeleteProject { owner: i64, id: i64 },
    /// A session starts.
    Start { owner: i64, project: Option<i64>, now: Seq<char> },
    /// A session is finalized.
    Finalize { owner: i64, id: i64, description: Seq<char>, tags: Seq<Seq<char>>, now: Seq<char> },
    /// The running session of an identity is cancelled.
    Cancel { owner: i64 },
}

impl DatabaseView {
    /// The storage once `op` is made; unchanged where `op` is refused. An
    /// email that is to be stored is stored trimmed and in lower case.
    pub open spec fn after(self, op: Operation) -> DatabaseView {
        match op {
            Operation::Create { email, password_hash } => self.create(
                normalized_email(email),
                password_hash,
            ).0,
            Operation::Login { email, password } => self.login(email, password).0,
            Operation::Logout => self.logout(),
            Operation::UpdateProfile {
                id,
                new_display_name,
                new_email,
                new_password_hash,
            } => self.update_profile(
                id,
                new_display_name,
                normalized_opt(new_email),
                new_password_hash,
            ).0,
            Operation::SetAvatar { id, path } => self.with_avatar(id, path),
            Operation::CreateProject { owner, name, color } => self.create_project(
                owner,
                name,
                color,
            ).0,
            Operation::UpdateProject { owner, id, new_name, new_color } => self.update_project(
                owner,
                id,
                new_name,
                new_color,
            ).0,
            Operation::DeleteProject { owner, id } => self.delete_project(owner, id).0,
            Operation::Start { owner, project, now } => self.start(owner, project, now).0,
            Operation::Finalize { owner, id, description, tags, now } => self.finalize(
                owner,
                id,
                description,
                tags,
                now,
            ).0,
            Operation::Cancel { owner } => self.cancel(owner),
        }
    }

    /// The running sessions of `owner` among the first `n` rows.
    pub open spec fn running_among(self, owner: i64, n: int) -> nat
        decreases n,
    {
        if n <= 0 {
            0
        } else if self.sessions[n - 1].running_for(owner) {
            self.running_among(owner, n - 1) + 1
        } else {
            self.running_among(owner, n - 1)
        }
    }

    /// How many running sessions `owner` has.
    pub open spec fn running_count(self, owner: i64) -> nat {
        self.running_among(owner, self.sessions.len() as int)
    }
}

/// The empty storage has no identity with two running sessions, and
/// records nobody as signed in.
pub proof fn theorem_empty_is_consistent()
    ensures
        DatabaseView::empty().wf(),
        DatabaseView::empty().one_running_each(),
        DatabaseView::empty().signed_in_is_stored(),
        DatabaseView::empty().emails_are_normalized(),
        DatabaseView::empty().tags_name_handed_out_ids(),
        DatabaseView::empty().finished_have_ended(),
{
}

/// Whatever is done to the storage, no identity comes to have two running
/// sessions.
pub proof fn theorem_one_running_each(s: DatabaseView, op: Operation)
    requires
        s.wf(),
        s.one_running_each(),
    ensures
        s.after(op).one_running_each(),
{
    let t = s.after(op);
    lemma_status_texts_differ();
    match op {
        Operation::Start { owner, project, now } => {
            if s.start(owner, project, now).1 is Ok {
                assert forall|i: int, j: int|
                    0 <= i < j < t.sessions.len() && t.sessions[i].status
                        == SessionStatus::Running.text() && t.sessions[j].status
                        == SessionStatus::Running.text() implies t.sessions[i].user_id
                    != t.sessions[j].user_id by {
                    if j == s.sessions.len() {
                        assert(t.sessions[i] == s.sessions[i]);
                        if s.sessions[i].user_id == owner {
                            assert(s.sessions[i].running_for(owner));
                        }
                    } else {
                        assert(t.sessions[i] == s.sessions[i] && t.sessions[j] == s.sessions[j]);
                    }
                }
            }
        },
        Operation::Finalize { owner, id, description, tags, now } => {
            if s.finalize(owner, id, description, tags, now).1 is Ok {
                assert forall|i: int, j: int|
                    0 <= i < j < t.sessions.len() && t.sessions[i].status
                        == SessionStatus::Running.text() && t.sessions[j].status
                        == SessionStatus::Running.text() implies t.sessions[i].user_id
                    != t.sessions[j].user_id by {
                    assert(t.sessions[i] == s.sessions[i] && t.sessions[j] == s.sessions[j]);
                }
            }
        },
        Operation::Cancel { owner } => {
            assert forall|i: int, j: int|
                0 <= i < j < t.sessions.len() && t.sessions[i].status
                    == SessionStatus::Running.text() && t.sessions[j].status
                    == SessionStatus::Running.text() implies t.sessions[i].user_id
                != t.sessions[j].user_id by {
                assert(t.sessions[i] == s.sessions[i] && t.sessions[j] == s.sessions[j]);
            }
        },
        _ => {
            assert(t.sessions == s.sessions);
        },
    }
}

/// Where no identity has two running sessions, each identity has at most
/// one: counted row by row, the running sessions of `owner` are none or one.
pub proof fn theorem_at_most_one_running(s: DatabaseView, owner: i64)
    requires
        s.one_running_each(),
    ensures
        s.running_count(owner) <= 1,
        s.running_count(owner) == 1 <==> s.has_running(owner),
{
    lemma_running_among(s, owner, s.sessions.len() as int);
    if s.has_running(owner) {
        let i = choose|i: int|
            0 <= i < s.sessions.len() && (#[trigger] s.sessions[i]).running_for(owner);
        assert(s.sessions[i].running_for(owner));
    }
}

/// Among the first `n` rows `owner` has one running session if some row
/// there is one, and none otherwise.
proof fn lemma_running_among(s: DatabaseView, owner: i64, n: int)
    requires
        s.one_running_each(),
        0 <= n <= s.sessions.len(),
    ensures
        s.running_among(owner, n) <= 1,
        s.running_among(owner, n) == 1 <==> exists|i: int|
            0 <= i < n && (#[trigger] s.sessions[i]).running_for(owner),
        s.running_among(owner, n) == 0 <==> forall|i: int|
            0 <= i < n ==> !(#[trigger] s.sessions[i]).running_for(owner),
    decreases n,
{
    if n > 0 {
        lemma_running_among(s, owner, n - 1);
        if s.sessions[n - 1].running_for(owner) {
            assert forall|i: int| 0 <= i < n - 1 implies !(#[trigger] s.sessions[i]).running_for(
                owner,
            ) by {
                assert(s.sessions[i].user_id != s.sessions[n - 1].user_id || s.sessions[i].status
                    != SessionStatus::Running.text());
            }
        }
    }
}

/// Whatever is done to the storage, it keeps what it enforces itself.
pub proof fn theorem_wf_kept(s: DatabaseView, op: Operation)
    requires
        s.wf(),
    ensures
        s.after(op).wf(),
{
    let t = s.after(op);
    lemma_status_texts_differ();
    match op {
        Operation::Create { email, password_hash } => {
            if s.create(normalized_email(email), password_hash).1 is Ok {
                assert forall|i: int, j: int| 0 <= i < j < t.users.len() implies t.users[i].email
                    != t.users[j].email && t.users[i].id != t.users[j].id by {
                    if j == s.users.len() {
                        assert(t.users[i] == s.users[i]);
                    } else {
                        assert(t.users[i] == s.users[i] && t.users[j] == s.users[j]);
                    }
                }
            }
        },
        Operation::UpdateProfile { id, new_display_name, new_email, new_password_hash } => {
            if s.update_profile(
                id,
                new_display_name,
                normalized_opt(new_email),
                new_password_hash,
            ).1 is Ok {
                assert forall|i: int, j: int| 0 <= i < j < t.users.len() implies t.users[i].email
                    != t.users[j].email && t.users[i].id != t.users[j].id by {
                    assert(s.users[i].id != s.users[j].id);
                    assert(s.users[i].email != s.users[j].email);
                }
            }
        },
        Operation::SetAvatar { id, path } => {
            assert forall|i: int, j: int| 0 <= i < j < t.users.len() implies t.users[i].email
                != t.users[j].email && t.users[i].id != t.users[j].id by {
                assert(s.users[i].id != s.users[j].id);
                assert(s.users[i].email != s.users[j].email);
            }
        },
        Operation::CreateProject { owner, name, color } => {
            if s.create_project(owner, name, color).1 is Ok {
                assert forall|i: int, j: int| 0 <= i < j < t.projects.len() implies t.projects[i].id
                    != t.projects[j].id by {
                    if j == s.projects.len() {
                        assert(t.projects[i] == s.projects[i]);
                    } else {
                        assert(t.projects[i] == s.projects[i] && t.projects[j] == s.projects[j]);
                    }
                }
            }
        },
        Operation::UpdateProject { owner, id, new_name, new_color } => {
            if new_name is Some || new_color is Some {
                if s.owns_project(owner, id) {
                    assert forall|i: int, j: int|
                        0 <= i < j < t.projects.len() implies t.projects[i].id
                        != t.projects[j].id by {
                        assert(s.projects[i].id != s.projects[j].id);
                    }
                }
            }
        },
        Operation::DeleteProject { owner, id } => {
            if s.owns_project(owner, id) {
                let at = s.project_index(id);
                assert forall|i: int, j: int| 0 <= i < j < t.projects.len() implies t.projects[i].id
                    != t.projects[j].id by {
                    let a = if i < at { i } else { i + 1 };
                    let b = if j < at { j } else { j + 1 };
                    assert(s.projects[a].id != s.projects[b].id);
                }
                assert forall|i: int| 0 <= i < t.projects.len() implies (
                #[trigger] t.projects[i]).id <= t.project_seq by {
                    let a = if i < at { i } else { i + 1 };
                    assert(s.projects[a].id <= s.project_seq);
                }
            }
        },
        Operation::Start { owner, project, now } => {
            if s.start(owner, project, now).1 is Ok {
                assert forall|i: int, j: int| 0 <= i < j < t.sessions.len() implies t.sessions[i].id
                    != t.sessions[j].id by {
                    if j == s.sessions.len() {
                        assert(t.sessions[i] == s.sessions[i]);
                    } else {
                        assert(t.sessions[i] == s.sessions[i] && t.sessions[j] == s.sessions[j]);
                    }
                }
            }
        },
        Operation::Finalize { owner, id, description, tags, now } => {
            if s.finalize(owner, id, description, tags, now).1 is Ok {
                assert forall|i: int, j: int| 0 <= i < j < t.sessions.len() implies t.sessions[i].id
                    != t.sessions[j].id by {
                    assert(s.sessions[i].id != s.sessions[j].id);
                }
            }
        },
        Operation::Cancel { owner } => {
            assert forall|i: int, j: int| 0 <= i < j < t.sessions.len() implies t.sessions[i].id
                != t.sessions[j].id by {
                assert(s.sessions[i].id != s.sessions[j].id);
            }
        },
        _ => {},
    }
}

/// Whatever is done to the storage, whoever it records as signed in stays
/// a stored identity.
pub proof fn theorem_signed_in_is_stored(s: DatabaseView, op: Operation)
    requires
        s.wf(),
        s.signed_in_is_stored(),
    ensures
        s.after(op).signed_in_is_stored(),
{
    let t = s.after(op);
    match op {
        Operation::Login { email, password } => {
            if s.admits(email, password) {
                let i = choose|i: int|
                    0 <= i < s.users.len() && (#[trigger] s.users[i]).email == email;
                assert(t.users[i].id == s.user_by_email(email).id);
            }
        },
        Operation::Logout => {},
        _ => {
            if s.app_session is Some {
                let id = s.app_session->0;
                let i = choose|i: int| 0 <= i < s.users.len() && (#[trigger] s.users[i]).id == id;
                assert(t.users.len() >= s.users.len());
                assert(t.users[i].id == id);
            }
        },
    }
}

/// Whatever is done to the storage, every stored email stays the trimmed,
/// lower-case form of some text.
pub proof fn theorem_emails_stay_normalized(s: DatabaseView, op: Operation)
    requires
        s.emails_are_normalized(),
    ensures
        s.after(op).emails_are_normalized(),
{
    let t = s.after(op);
    match op {
        Operation::Create { email, password_hash } => {
            assert(is_normalized_email(normalized_email(email)));
            assert forall|i: int| 0 <= i < t.users.len() implies is_normalized_email(
                (#[trigger] t.users[i]).email,
            ) by {
                if i < s.users.len() {
                    assert(is_normalized_email(s.users[i].email));
                }
            }
        },
        Operation::UpdateProfile { id, new_display_name, new_email, new_password_hash } => {
            if new_email is Some {
                assert(is_normalized_email(normalized_email(new_email->0)));
            }
            assert forall|i: int| 0 <= i < t.users.len() implies is_normalized_email(
                (#[trigger] t.users[i]).email,
            ) by {
                assert(is_normalized_email(s.users[i].email));
            }
        },
        Operation::SetAvatar { id, path } => {
            assert forall|i: int| 0 <= i < t.users.len() implies is_normalized_email(
                (#[trigger] t.users[i]).email,
            ) by {
                assert(is_normalized_email(s.users[i].email));
            }
        },
        _ => {
            assert(t.users == s.users);
        },
    }
}

/// Whatever is done to the storage, no stored tag comes to name a session
/// id that the table has not handed out.
pub proof fn theorem_tags_name_handed_out_ids(s: DatabaseView, op: Operation)
    requires
        s.wf(),
        s.tags_name_handed_out_ids(),
    ensures
        s.after(op).tags_name_handed_out_ids(),
{
    let t = s.after(op);
    match op {
        Operation::Start { owner, project, now } => {
            assert forall|k: int| 0 <= k < t.session_tags.len() implies (
            #[trigger] t.session_tags[k]).session_id <= t.session_seq by {
                assert(s.session_tags[k].session_id <= s.session_seq);
            }
        },
        Operation::Finalize { owner, id, description, tags, now } => {
            if s.can_finalize(owner, id) {
                let at = choose|k: int|
                    0 <= k < s.sessions.len() && (#[trigger] s.sessions[k]).id == id;
                assert(s.sessions[at].id <= s.session_seq);
                let kept = tags_without(s.session_tags, id);
                assert forall|k: int| 0 <= k < kept.len() implies (#[trigger] kept[k]).session_id
                    <= s.session_seq by {
                    s.session_tags.lemma_filter_contains_rev(
                        |t: TagRow| t.session_id != id,
                        kept[k],
                    );
                    let j = choose|j: int|
                        0 <= j < s.session_tags.len() && s.session_tags[j] == kept[k];
                    assert(s.session_tags[j].session_id <= s.session_seq);
                }
                assert forall|k: int| 0 <= k < t.session_tags.len() implies (
                #[trigger] t.session_tags[k]).session_id <= t.session_seq by {
                    if k < kept.len() {
                        assert(t.session_tags[k] == kept[k]);
                    }
                }
            }
        },
        _ => {
            assert(t.session_tags == s.session_tags);
            assert(t.session_seq == s.session_seq);
        },
    }
}

/// Whatever is done to the storage, every finished session keeps an end time.
pub proof fn theorem_finished_have_ended(s: DatabaseView, op: Operation)
    requires
        s.finished_have_ended(),
    ensures
        s.after(op).finished_have_ended(),
{
    let t = s.after(op);
    lemma_status_texts_differ();
    match op {
        Operation::Start { owner, project, now } => {
            assert forall|i: int|
                0 <= i < t.sessions.len() && (#[trigger] t.sessions[i]).status
                    == SessionStatus::Finished.text() implies t.sessions[i].end_time is Some by {
                if i < s.sessions.len() {
                    assert(t.sessions[i] == s.sessions[i]);
                }
            }
        },
        Operation::Finalize { owner, id, description, tags, now } => {
            assert forall|i: int|
                0 <= i < t.sessions.len() && (#[trigger] t.sessions[i]).status
                    == SessionStatus::Finished.text() implies t.sessions[i].end_time is Some by {
                if s.can_finalize(owner, id) && s.sessions[i].id == id {
                } else {
                    assert(t.sessions[i] == s.sessions[i]);
                }
            }
        },
        Operation::Cancel { owner } => {
            assert forall|i: int|
                0 <= i < t.sessions.len() && (#[trigger] t.sessions[i]).status
                    == SessionStatus::Finished.text() implies t.sessions[i].end_time is Some by {
                assert(s.sessions[i].status == SessionStatus::Finished.text());
            }
        },
        _ => {
            assert(t.sessions == s.sessions);
        },
    }
}

/// Whatever is done to the storage, each rule that held of it before holds
/// of it after: one running session for each identity at most, a stored
/// identity behind the record of who is signed in, emails in their stored
/// form, tags of sessions that exist, and an end time on every finished
/// session.
pub proof fn theorem_rules_kept(s: DatabaseView, op: Operation)
    requires
        s.wf(),
    ensures
        s.after(op).keeps(s),
{
    if s.one_running_each() {
        theorem_one_running_each(s, op);
    }
    if s.signed_in_is_stored() {
        theorem_signed_in_is_stored(s, op);
    }
    if s.emails_are_normalized() {
        theorem_emails_stay_normalized(s, op);
    }
    if s.tags_name_handed_out_ids() {
        theorem_tags_name_handed_out_ids(s, op);
    }
    if s.finished_have_ended() {
        theorem_finished_have_ended(s, op);
    }
}

/// A session that has just started has no tags, where no stored tag named
/// an id that the table had not handed out.
pub proof fn theorem_started_session_has_no_tags(
    s: DatabaseView,
    owner: i64,
    project: Option<i64>,
    now: Seq<char>,
)
    requires
        s.tags_name_handed_out_ids(),
    ensures
        ({
            let (t, r) = s.start(owner, project, now);
            r matches Ok(started) ==> tags_of(t.session_tags, started.id) == Seq::<
                Seq<char>,
            >::empty()
        }),
{
    let (t, r) = s.start(owner, project, now);
    if r is Ok {
        let id = s.started_row(owner, project, now).id;
        assert forall|k: int| 0 <= k < s.session_tags.len() implies (|t: TagRow|
            t.session_id == id)(#[trigger] s.session_tags[k]) == false by {
            assert(s.session_tags[k].session_id <= s.session_seq);
        }
        lemma_filter_all(s.session_tags, |t: TagRow| t.session_id == id, false);
        assert(Seq::<TagRow>::empty().map_values(|t: TagRow| t.tag) =~= Seq::<Seq<char>>::empty());
    }
}

/// A session that is finished or cancelled stays as it is, whatever is done
/// to the storage.
pub proof fn theorem_ended_sessions_stay(s: DatabaseView, op: Operation, i: int)
    requires
        s.wf(),
        0 <= i < s.sessions.len(),
        s.sessions[i].status != SessionStatus::Running.text(),
    ensures
        i < s.after(op).sessions.len(),
        s.after(op).sessions[i] == s.sessions[i],
{
    match op {
        Operation::Finalize { owner, id, description, tags, now } => {
            if s.can_finalize(owner, id) {
                s.lemma_session_at(i);
            }
        },
        _ => {},
    }
}

/// Finalizing is all or nothing. Where it is refused, the storage is as
/// before. Where it succeeds, the session is finished with the end time and
/// description given, its tags are exactly the tags given, and every other
/// session and its tags are as before.
pub proof fn theorem_finalize_all_or_nothing(
    s: DatabaseView,
    owner: i64,
    id: i64,
    description: Seq<char>,
    tags: Seq<Seq<char>>,
    now: Seq<char>,
)
    requires
        s.wf(),
    ensures
        ({
            let (t, r) = s.finalize(owner, id, description, tags, now);
            &&& r is Ok <==> s.can_finalize(owner, id)
            &&& r is Err ==> t == s && r == Err::<(), ServiceError>(
                ServiceError::InvalidSessionState,
            )
            &&& r is Ok ==> {
                &&& t.has_session(id)
                &&& t.session(id) == finalized_row(s.session(id), description, now)
                &&& tags_of(t.session_tags, id) == tags
                &&& forall|other: i64|
                    other != id ==> #[trigger] tags_of(t.session_tags, other) == tags_of(
                        s.session_tags,
                        other,
                    )
                &&& forall|k: int|
                    0 <= k < s.sessions.len() && s.sessions[k].id != id ==> (
                    #[trigger] t.sessions[k]) == s.sessions[k]
            }
        }),
{
    let (t, r) = s.finalize(owner, id, description, tags, now);
    if s.can_finalize(owner, id) {
        let at = choose|k: int| 0 <= k < s.sessions.len() && (#[trigger] s.sessions[k]).id == id;
        s.lemma_session_at(at);
        assert(t.sessions[at].id == id);
        theorem_wf_kept(s, Operation::Finalize { owner, id, description, tags, now });
        t.lemma_session_at(at);
        lemma_tags_replaced(s.session_tags, id, tags, id);
        assert forall|other: i64| other != id implies #[trigger] tags_of(t.session_tags, other)
            == tags_of(s.session_tags, other) by {
            lemma_tags_replaced(s.session_tags, id, tags, other);
        }
    }
}

/// The tags of session `of` once those of session `id` are replaced by `tags`.
proof fn lemma_tags_replaced(stored: Seq<TagRow>, id: i64, tags: Seq<Seq<char>>, of: i64)
    ensures
        tags_of(tags_without(stored, id) + tag_rows_for(id, tags), of) == if of == id {
            tags
        } else {
            tags_of(stored, of)
        },
{
    let is_of = |t: TagRow| t.session_id == of;
    let not_id = |t: TagRow| t.session_id != id;
    let text = |t: TagRow| t.tag;
    let kept = tags_without(stored, id);
    let added = tag_rows_for(id, tags);
    Seq::filter_distributes_over_add(kept, added, is_of);
    lemma_filter_all(added, is_of, of == id);
    lemma_filter_kept(stored, id, of);
    if of == id {
        assert(kept.filter(is_of) + added =~= added);
        assert(added.map_values(text) =~= tags);
    } else {
        assert(kept.filter(is_of) + Seq::<TagRow>::empty() =~= kept.filter(is_of));
    }
}

/// A filter keeps all of a list whose every row passes, and none of a list
/// whose every row fails.
proof fn lemma_filter_all(rows: Seq<TagRow>, pred: spec_fn(TagRow) -> bool, all: bool)
    requires
        forall|k: int| 0 <= k < rows.len() ==> pred(#[trigger] rows[k]) == all,
    ensures
        rows.filter(pred) == if all {
            rows
        } else {
            Seq::empty()
        },
    decreases rows.len(),
{
    reveal(Seq::filter);
    if rows.len() > 0 {
        lemma_filter_all(rows.drop_last(), pred, all);
        if all {
            assert(rows.drop_last().push(rows.last()) =~= rows);
        }
    } else {
        assert(rows =~= Seq::empty());
    }
}

/// Among the rows that are not of session `id`, those of session `of` are
/// none where `of` is `id`, and those of all the rows otherwise.
proof fn lemma_filter_kept(stored: Seq<TagRow>, id: i64, of: i64)
    ensures
        tags_without(stored, id).filter(|t: TagRow| t.session_id == of) == if of == id {
            Seq::<TagRow>::empty()
        } else {
            stored.filter(|t: TagRow| t.session_id == of)
        },
    decreases stored.len(),
{
    reveal(Seq::filter);
    let is_of = |t: TagRow| t.session_id == of;
    if stored.len() > 0 {
        lemma_filter_kept(stored.drop_last(), id, of);
        let last = stored.last();
        if last.session_id != id {
            let head = tags_without(stored.drop_last(), id);
            assert(head.push(last).drop_last() =~= head);
        }
    }
}

/// Cancelling for an identity without a running session changes nothing.
pub proof fn theorem_cancel_without_running(s: DatabaseView, owner: i64)
    requires
        !s.has_running(owner),
    ensures
        s.cancel(owner) == s,
{
    assert(s.cancel(owner).sessions =~= s.sessions);
}

/// Changing only the display name leaves the email and the credential as
/// they were: whatever password was accepted before is accepted after, and
/// signs in as before.
pub proof fn theorem_display_name_keeps_credential(
    s: DatabaseView,
    id: i64,
    display_name: Seq<char>,
    password: Seq<char>,
)
    requires
        s.wf(),
        s.has_user(id),
    ensures
        ({
            let (t, r) = s.update_profile(id, Some(display_name), None, None);
            &&& r is Ok
            &&& t.has_user(id)
            &&& t.user(id).email == s.user(id).email
            &&& t.user(id).password_hash == s.user(id).password_hash
            &&& t.user(id).display_name == Some(display_name)
            &&& argon2_accepts(t.user(id).password_hash, password) == argon2_accepts(
                s.user(id).password_hash,
                password,
            )
            &&& t.admits(s.user(id).email, password) == s.admits(s.user(id).email, password)
        }),
{
    let (t, r) = s.update_profile(id, Some(display_name), None, None);
    let at = choose|i: int| 0 <= i < s.users.len() && (#[trigger] s.users[i]).id == id;
    s.lemma_user_at(at);
    theorem_wf_kept(
        s,
        Operation::UpdateProfile {
            id,
            new_display_name: Some(display_name),
            new_email: None,
            new_password_hash: None,
        },
    );
    assert(t.users[at].id == id);
    t.lemma_user_at(at);
}

/// Whoever signs in is the one that the stored record names afterwards, so
/// that a process that starts later and reads the record finds them.
pub proof fn theorem_login_is_recorded(s: DatabaseView, email: Seq<char>, password: Seq<char>)
    ensures
        ({
            let (t, r) = s.login(email, password);
            &&& r matches Ok(user) ==> t.app_session == Some(user.id)
            &&& r is Err ==> t == s
            &&& r is Ok <==> s.admits(email, password)
        }),
{
}

/// An email that is taken is refused however it is typed: once an identity
/// is created under the stored form of `first`, creating one under the
/// stored form of `second` fails with `DuplicateEmail` if the two forms are
/// the same.
pub proof fn theorem_email_taken_however_typed(
    s: DatabaseView,
    first: Seq<char>,
    first_hash: Seq<char>,
    second: Seq<char>,
    second_hash: Seq<char>,
)
    requires
        normalized_email(first) == normalized_email(second),
        s.create(normalized_email(first), first_hash).1 is Ok,
    ensures
        ({
            let t = s.create(normalized_email(first), first_hash).0;
            &&& t.create(normalized_email(second), second_hash).1 == Err::<
                PublicUserView,
                ServiceError,
            >(ServiceError::DuplicateEmail)
            &&& t.create(normalized_email(second), second_hash).0 == t
        }),
{
    let t = s.create(normalized_email(first), first_hash).0;
    assert(t.users[s.users.len() as int].email == normalized_email(first));
}

/// While an identity has a running session, starting another for it is
/// refused and leaves the running one as it is.
pub proof fn theorem_second_start_refused(
    s: DatabaseView,
    owner: i64,
    first: Option<i64>,
    first_now: Seq<char>,
    second: Option<i64>,
    second_now: Seq<char>,
)
    requires
        s.start(owner, first, first_now).1 is Ok,
    ensures
        ({
            let t = s.start(owner, first, first_now).0;
            &&& t.start(owner, second, second_now).1 == Err::<ActiveSessionView, ServiceError>(
                ServiceError::SessionAlreadyActive,
            )
            &&& t.start(owner, second, second_now).0 == t
            &&& t.has_running(owner)
        }),
{
    let t = s.start(owner, first, first_now).0;
    assert(t.sessions[s.sessions.len() as int].running_for(owner));
}

} // verus!
