//! The projects of whoever is signed in.

use crate::db::Database;
use crate::error::{ServiceError, fails_with};
use crate::models::project::Project;
use crate::services::project_service;
use crate::services::project_service::{project_views, shown_project};
use crate::state::AppState;
use crate::text::opt_text;
use vstd::prelude::*;

verus! {

/// What is needed to create a project.
#[derive(Debug)]
pub struct CreateProjectInput {
    pub name: String,
    pub color: String,
}

/// What to change of a project: the parts that are given.
#[derive(Debug)]
pub struct UpdateProjectInput {
    pub id: i64,
    pub name: Option<String>,
    pub color: Option<String>,
}

/// The projects of whoever is signed in, oldest first.
pub fn get_projects(state: &AppState, db: &Database) -> (r: Result<Vec<Project>, ServiceError>)
    requires
        db.wf(),
    ensures
        match state.current_user_id {
            None => fails_with(r, ServiceError::NotAuthenticated),
            Some(user_id) => r matches Ok(list) && project_views(list@) == db@.projects_of(user_id),
        },
{
    let user_id = match state.require() {
        Ok(user_id) => user_id,
        Err(e) => {
            return Err(e);
        },
    };
    project_service::get_projects(db, user_id)
}

/// Creates a project for whoever is signed in.
pub fn create_project(state: &AppState, db: &mut Database, input: CreateProjectInput) -> (r: Result<
    Project,
    ServiceError,
>)
    requires
        old(db).wf(),
    ensures
        final(db).wf(),
        final(db)@.keeps(old(db)@),
        match state.current_user_id {
            None => final(db)@ == old(db)@ && fails_with(r, ServiceError::NotAuthenticated),
            Some(user_id) => final(db)@ == old(db)@.create_project(
                user_id,
                input.name@,
                input.color@,
            ).0 && shown_project(r) == old(db)@.create_project(
                user_id,
                input.name@,
                input.color@,
            ).1,
        },
{
    let user_id = match state.require() {
        Ok(user_id) => user_id,
        Err(e) => {
            return Err(e);
        },
    };
    project_service::create_project(db, user_id, input.name.as_str(), input.color.as_str())
}

/// Changes a project of whoever is signed in.
pub fn update_project(state: &AppState, db: &mut Database, input: UpdateProjectInput) -> (r: Result<
    (),
    ServiceError,
>)
    requires
        old(db).wf(),
    ensures
        final(db).wf(),
        final(db)@.keeps(old(db)@),
        match state.current_user_id {
            None => final(db)@ == old(db)@ && fails_with(r, ServiceError::NotAuthenticated),
            Some(user_id) => final(db)@ == old(db)@.update_project(
                user_id,
                input.id,
                opt_text(input.name),
                opt_text(input.color),
            ).0 && r == old(db)@.update_project(
                user_id,
                input.id,
                opt_text(input.name),
                opt_text(input.color),
            ).1,
        },
{
    let user_id = match state.require() {
        Ok(user_id) => user_id,
        Err(e) => {
            return Err(e);
        },
    };
    project_service::update_project(db, user_id, input.id, input.name, input.color)
}

/// Deletes project `id` of whoever is signed in.
pub fn delete_project(state: &AppState, db: &mut Database, id: i64) -> (r: Result<(), ServiceError>)
    requires
        old(db).wf(),
    ensures
        final(db).wf(),
        final(db)@.keeps(old(db)@),
        match state.current_user_id {
            None => final(db)@ == old(db)@ && fails_with(r, ServiceError::NotAuthenticated),
            Some(user_id) => final(db)@ == old(db)@.delete_project(user_id, id).0 && r == old(
                db,
            )@.delete_project(user_id, id).1,
        },
{
    let user_id = match state.require() {
        Ok(user_id) => user_id,
        Err(e) => {
            return Err(e);
        },
    };
    project_service::delete_project(db, user_id, id)
}

} // verus!
