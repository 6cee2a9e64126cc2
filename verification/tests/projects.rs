use trackly::commands::projects as commands;
use trackly::commands::projects::{CreateProjectInput, UpdateProjectInput};
use trackly::db::Database;
use trackly::error::ServiceError;
use trackly::models::project::{DbProject, Project};
use trackly::services::project_service::{
    create_project, delete_project, get_projects, update_project,
};
use trackly::state::AppState;

fn text(s: &str) -> String {
    s.to_string()
}

fn names(list: &[Project]) -> Vec<(i64, &str, &str)> {
    list.iter().map(|p| (p.id, p.name.as_str(), p.color.as_str())).collect()
}

#[test]
fn projects_are_listed_oldest_first_for_their_owner_only() {
    let mut db = Database::new();
    let first = create_project(&mut db, 1, "thesis", "#2e86ab").unwrap();
    assert_eq!((first.id, first.name.as_str(), first.color.as_str()), (1, "thesis", "#2e86ab"));
    create_project(&mut db, 2, "garden", "#00ff00").unwrap();
    create_project(&mut db, 1, "band", "#ff0000").unwrap();
    let mine = get_projects(&db, 1).unwrap();
    assert_eq!(names(&mine), vec![(1, "thesis", "#2e86ab"), (3, "band", "#ff0000")]);
    let theirs = get_projects(&db, 2).unwrap();
    assert_eq!(names(&theirs), vec![(2, "garden", "#00ff00")]);
    assert!(get_projects(&db, 3).unwrap().is_empty());
}

#[test]
fn a_project_changes_in_the_parts_given() {
    let mut db = Database::new();
    create_project(&mut db, 1, "thesis", "#2e86ab").unwrap();
    assert_eq!(update_project(&mut db, 1, 1, Some(text("book")), None), Ok(()));
    assert_eq!(names(&get_projects(&db, 1).unwrap()), vec![(1, "book", "#2e86ab")]);
    assert_eq!(update_project(&mut db, 1, 1, None, Some(text("#000000"))), Ok(()));
    assert_eq!(names(&get_projects(&db, 1).unwrap()), vec![(1, "book", "#000000")]);
    assert_eq!(update_project(&mut db, 1, 1, Some(text("a")), Some(text("b"))), Ok(()));
    assert_eq!(names(&get_projects(&db, 1).unwrap()), vec![(1, "a", "b")]);
}

#[test]
fn only_the_owner_changes_a_project() {
    let mut db = Database::new();
    create_project(&mut db, 1, "thesis", "#2e86ab").unwrap();
    assert_eq!(
        update_project(&mut db, 2, 1, Some(text("stolen")), None),
        Err(ServiceError::NotFound),
    );
    assert_eq!(
        update_project(&mut db, 1, 9, Some(text("lost")), None),
        Err(ServiceError::NotFound),
    );
    assert_eq!(names(&get_projects(&db, 1).unwrap()), vec![(1, "thesis", "#2e86ab")]);
}

#[test]
fn a_change_of_nothing_succeeds_without_looking() {
    let mut db = Database::new();
    assert_eq!(update_project(&mut db, 1, 9, None, None), Ok(()));
    create_project(&mut db, 1, "thesis", "#2e86ab").unwrap();
    assert_eq!(update_project(&mut db, 2, 1, None, None), Ok(()));
    assert_eq!(names(&get_projects(&db, 1).unwrap()), vec![(1, "thesis", "#2e86ab")]);
}

#[test]
fn only_the_owner_deletes_a_project() {
    let mut db = Database::new();
    create_project(&mut db, 1, "thesis", "#2e86ab").unwrap();
    create_project(&mut db, 1, "band", "#ff0000").unwrap();
    assert_eq!(delete_project(&mut db, 2, 1), Err(ServiceError::NotFound));
    assert_eq!(delete_project(&mut db, 1, 7), Err(ServiceError::NotFound));
    assert_eq!(get_projects(&db, 1).unwrap().len(), 2);
    assert_eq!(delete_project(&mut db, 1, 1), Ok(()));
    assert_eq!(names(&get_projects(&db, 1).unwrap()), vec![(2, "band", "#ff0000")]);
    assert_eq!(delete_project(&mut db, 1, 1), Err(ServiceError::NotFound));
}

#[test]
fn the_id_of_a_deleted_project_is_not_given_again() {
    let mut db = Database::new();
    create_project(&mut db, 1, "a", "c").unwrap();
    create_project(&mut db, 1, "b", "c").unwrap();
    delete_project(&mut db, 1, 2).unwrap();
    let next = create_project(&mut db, 1, "c", "c").unwrap();
    assert_eq!(next.id, 3);
    let tables = db.into_tables();
    assert_eq!(tables.project_seq, 3);
    assert_eq!(tables.projects.len(), 2);
    assert_eq!(tables.projects[1].user_id, 1);
}

#[test]
fn the_shown_project_has_no_owner() {
    let row = DbProject { id: 4, user_id: 9, name: text("n"), color: text("c") };
    let shown = Project::from(row);
    assert_eq!((shown.id, shown.name.as_str(), shown.color.as_str()), (4, "n", "c"));
}

#[test]
fn project_commands_need_someone_signed_in() {
    let state = AppState::new();
    let mut db = Database::new();
    assert!(matches!(commands::get_projects(&state, &db), Err(ServiceError::NotAuthenticated)));
    let input = CreateProjectInput { name: text("n"), color: text("c") };
    assert!(matches!(
        commands::create_project(&state, &mut db, input),
        Err(ServiceError::NotAuthenticated),
    ));
    let input = UpdateProjectInput { id: 1, name: Some(text("n")), color: None };
    assert_eq!(
        commands::update_project(&state, &mut db, input),
        Err(ServiceError::NotAuthenticated),
    );
    assert_eq!(commands::delete_project(&state, &mut db, 1), Err(ServiceError::NotAuthenticated));
    assert!(db.into_tables().projects.is_empty());
}

#[test]
fn project_commands_act_for_whoever_is_signed_in() {
    let mut state = AppState::new();
    state.set(5);
    let mut db = Database::new();
    let made = commands::create_project(
        &state,
        &mut db,
        CreateProjectInput { name: text("n"), color: text("c") },
    ).unwrap();
    assert_eq!(made.id, 1);
    let input = UpdateProjectInput { id: 1, name: None, color: Some(text("d")) };
    assert_eq!(commands::update_project(&state, &mut db, input), Ok(()));
    assert_eq!(names(&commands::get_projects(&state, &db).unwrap()), vec![(1, "n", "d")]);
    state.set(6);
    assert!(commands::get_projects(&state, &db).unwrap().is_empty());
    assert_eq!(commands::delete_project(&state, &mut db, 1), Err(ServiceError::NotFound));
    state.set(5);
    assert_eq!(commands::delete_project(&state, &mut db, 1), Ok(()));
    assert!(commands::get_projects(&state, &db).unwrap().is_empty());
}
