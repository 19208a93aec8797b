//! Scenario checks for the dual-store behaviour: identifier freshness,
//! create-then-read, the not-found paths, empty lists, the auth singleton,
//! variable injection, and the end-to-end save with a failing mirror.

use flowlet::api_client::{status_is_success, ListOutcome, ReadOutcome};
use flowlet::auth::{Auth, AuthError, CreateAuthInput};
use flowlet::command::{
    Command, CreateCommandInput, ListCommandInput, ReadCommandInput, RemoveCommandInput,
    UpdateCommandInput,
};
use flowlet::flowlet_db::FlowletDb;
use flowlet::project::{CreateProjectInput, Project};
use flowlet::query::{Query, QueryField, QueryValue};
use flowlet::task::{CreateTaskInput, Task};
use flowlet::util::inject_variables;
use flowlet::variable::{CreateVariableInput, Variable};

fn name_q(name: &str) -> Query {
    Query::Eq(QueryField::Name, QueryValue::Text(String::from(name)))
}

#[test]
fn identifiers_are_unique_across_collections() {
    let mut db = FlowletDb::new();
    let (c, _) = Command::create(
        &mut db,
        CreateCommandInput { name: String::from("c"), cmd: String::from("1"), project: None },
    )
    .unwrap();
    let (p, _) = Project::create(
        &mut db,
        CreateProjectInput { name: String::from("p"), description: None },
    )
    .unwrap();
    let (t, _) = Task::create(
        &mut db,
        CreateTaskInput {
            title: String::from("t"),
            description: None,
            project: None,
            due_date: None,
            tags: vec![],
            milestones: vec![],
        },
    )
    .unwrap();
    let (v, _) = Variable::create(
        &mut db,
        CreateVariableInput { name: String::from("v"), value: String::from("1") },
    )
    .unwrap();
    let a = Auth::store_token(&mut db, String::from("tok")).unwrap();
    let mut ids = vec![c._id, p._id, t._id, v._id, a._id];
    ids.sort();
    ids.dedup();
    assert_eq!(ids.len(), 5);
}

#[test]
fn create_then_read_returns_the_created_record() {
    let mut db = FlowletDb::new();
    let (created, _post) = Command::create(
        &mut db,
        CreateCommandInput {
            name: String::from("deploy"),
            cmd: String::from("./deploy.sh"),
            project: None,
        },
    )
    .unwrap();
    // The mirror call is only data: nothing performed it, as if the remote
    // were down — the local read is unaffected.
    match Command::read(&db, ReadCommandInput { query: name_q("deploy"), remote: false }) {
        ReadOutcome::Local(Some(rec)) => {
            assert_eq!(rec._id, created._id);
            assert_eq!(rec.name, created.name);
            assert_eq!(rec.cmd, created.cmd);
            assert_eq!(rec.project, created.project);
        }
        _ => panic!("expected the created record"),
    }
}

#[test]
fn update_missing_key_is_not_found_without_a_remote_call() {
    let mut db = FlowletDb::new();
    let r = Command::update(
        &mut db,
        UpdateCommandInput { name: String::from("ghost"), cmd: String::from("x") },
    );
    // The error carries no mirror call: nothing to POST.
    assert!(r.is_err());
    assert_eq!(db.commands.len(), 0);
    assert_eq!(db.next_id, 0);
}

#[test]
fn remove_missing_key_is_not_found_and_keeps_the_collection() {
    let mut db = FlowletDb::new();
    Command::create(
        &mut db,
        CreateCommandInput { name: String::from("keep"), cmd: String::from("1"), project: None },
    )
    .unwrap();
    let r = Command::remove(&mut db, RemoveCommandInput { name: String::from("ghost") });
    assert!(r.is_err());
    assert_eq!(db.commands.len(), 1);
    assert_eq!(db.commands[0].name, "keep");
}

#[test]
fn list_match_all_on_empty_store_is_an_empty_success() {
    let db = FlowletDb::new();
    match Command::list(&db, ListCommandInput { query: Query::All, remote: false }) {
        ListOutcome::Local(items) => assert_eq!(items.len(), 0),
        _ => panic!("expected a local empty list"),
    }
    let vars = Variable::list(
        &db,
        flowlet::variable::ListVariableInput { query: Query::All },
    );
    assert_eq!(vars.len(), 0);
}

#[test]
fn login_replaces_any_prior_auth_record() {
    let mut db = FlowletDb::new();
    Auth::store_token(&mut db, String::from("old-token")).unwrap();
    assert_eq!(db.auths.len(), 1);
    let rec = Auth::store_token(&mut db, String::from("new-token")).unwrap();
    assert_eq!(db.auths.len(), 1);
    assert_eq!(db.auths[0].flowlet_token, "new-token");
    assert_eq!(rec.flowlet_token, "new-token");
}

#[test]
fn auth_requests_and_lifecycle() {
    let mut db = FlowletDb::new();
    let req = Auth::login_request(&CreateAuthInput {
        email: String::from("a@b.c"),
        password: String::from("hunter2"),
    });
    assert_eq!(req.path, "/auth/login");
    assert_eq!(req.body, "{\"email\":\"a@b.c\",\"password\":\"hunter2\"}");
    let reg = Auth::register_request(&CreateAuthInput {
        email: String::from("a@b.c"),
        password: String::from("hunter2"),
    });
    assert_eq!(reg.path, "/auth/register");
    assert!(matches!(Auth::read(&db), Err(AuthError::AuthNotFound)));
    assert!(matches!(Auth::logout(&mut db), Err(AuthError::AuthNotFound)));
    assert!(matches!(
        Auth::update(flowlet::api_client::EmptyData),
        Err(AuthError::UpdateNotSupported)
    ));
    Auth::store_token(&mut db, String::from("tok")).unwrap();
    assert_eq!(Auth::read(&db).unwrap().flowlet_token, "tok");
    assert!(Auth::logout(&mut db).unwrap());
    assert_eq!(db.auths.len(), 0);
}

#[test]
fn injection_substitutes_a_stored_variable() {
    let mut db = FlowletDb::new();
    Variable::create(
        &mut db,
        CreateVariableInput { name: String::from("HOST"), value: String::from("example.com") },
    )
    .unwrap();
    let (text, missing) = inject_variables(&db, "echo ${HOST}");
    assert_eq!(text, "echo example.com");
    assert!(missing.is_empty());
}

#[test]
fn injection_leaves_unknown_tokens_and_warns() {
    let db = FlowletDb::new();
    let (text, missing) = inject_variables(&db, "echo ${HOST}");
    assert_eq!(text, "echo ${HOST}");
    assert_eq!(missing, vec![String::from("HOST")]);
}

#[test]
fn injection_handles_multiple_and_malformed_tokens() {
    let mut db = FlowletDb::new();
    Variable::create(
        &mut db,
        CreateVariableInput { name: String::from("A"), value: String::from("1") },
    )
    .unwrap();
    Variable::create(
        &mut db,
        CreateVariableInput { name: String::from("B"), value: String::from("2") },
    )
    .unwrap();
    let (text, missing) = inject_variables(&db, "${A}/${B}/${C} ${} $A ${x-y}");
    assert_eq!(text, "1/2/${C} ${} $A ${x-y}");
    assert_eq!(missing, vec![String::from("C")]);
}

#[test]
fn end_to_end_save_survives_a_failing_mirror() {
    let mut db = FlowletDb::new();
    let (saved, post) =
        Command::save(&mut db, String::from("deploy"), String::from("./deploy.sh")).unwrap();
    // The application would now POST the mirror call and get a 500 back;
    // that outcome is classified as a failure and reported as a warning,
    // while the save has already succeeded locally.
    assert!(!status_is_success(500));
    assert_eq!(post.path, "/insert-one/command");
    assert_eq!(saved.name, "deploy");
    match Command::read(&db, ReadCommandInput { query: name_q("deploy"), remote: false }) {
        ReadOutcome::Local(Some(rec)) => {
            assert_eq!(rec.name, "deploy");
            assert_eq!(rec.cmd, "./deploy.sh");
        }
        _ => panic!("expected the saved command locally"),
    }
}
