//! The repository operations against the local store: create, read, update,
//! list and remove per entity, and the store snapshot round trip.

use flowlet::api_client::{ListOutcome, ReadOutcome};
use flowlet::auth::Auth;
use flowlet::command::{
    Command, CreateCommandInput, ListCommandInput, ReadCommandInput, RemoveCommandInput,
    UpdateCommandInput,
};
use flowlet::date::Date;
use flowlet::flowlet_db::FlowletDb;
use flowlet::project::{CreateProjectInput, Project, RemoveProjectInput, UpdateProjectInput};
use flowlet::query::{Query, QueryField, QueryValue};
use flowlet::task::{
    CreateTaskInput, ListTaskInput, Milestone, ReadTaskInput, RemoveTaskInput, Task, TaskStatus,
    UpdateTaskInput,
};
use flowlet::variable::{
    CreateVariableInput, ListVariableInput, ReadVariableInput, RemoveVariableInput,
    UpdateVariableInput, Variable,
};

fn name_q(name: &str) -> Query {
    Query::Eq(QueryField::Name, QueryValue::Text(String::from(name)))
}

fn title_q(title: &str) -> Query {
    Query::Eq(QueryField::Title, QueryValue::Text(String::from(title)))
}

#[test]
fn command_create_returns_record_and_mirror_call() {
    let mut db = FlowletDb::new();
    let (rec, post) = Command::create(
        &mut db,
        CreateCommandInput {
            name: String::from("deploy"),
            cmd: String::from("./deploy.sh"),
            project: None,
        },
    )
    .unwrap();
    assert_eq!(rec._id, 0);
    assert_eq!(rec.name, "deploy");
    assert_eq!(rec.cmd, "./deploy.sh");
    assert_eq!(post.path, "/insert-one/command");
    assert_eq!(
        post.body,
        "{\"_id\":0,\"name\":\"deploy\",\"cmd\":\"./deploy.sh\",\"project\":null}"
    );
    assert_eq!(db.commands.len(), 1);
}

#[test]
fn command_read_local_finds_first_match() {
    let mut db = FlowletDb::new();
    Command::create(
        &mut db,
        CreateCommandInput { name: String::from("a"), cmd: String::from("1"), project: None },
    )
    .unwrap();
    Command::create(
        &mut db,
        CreateCommandInput { name: String::from("a"), cmd: String::from("2"), project: None },
    )
    .unwrap();
    match Command::read(&db, ReadCommandInput { query: name_q("a"), remote: false }) {
        ReadOutcome::Local(Some(rec)) => assert_eq!(rec.cmd, "1"),
        _ => panic!("expected a local hit"),
    }
    match Command::read(&db, ReadCommandInput { query: name_q("b"), remote: false }) {
        ReadOutcome::Local(None) => {}
        _ => panic!("expected a local miss"),
    }
}

#[test]
fn command_read_remote_is_exclusive() {
    let db = FlowletDb::new();
    match Command::read(&db, ReadCommandInput { query: name_q("a"), remote: true }) {
        ReadOutcome::Remote(post) => {
            assert_eq!(post.path, "/find-one/command");
            assert_eq!(post.body, "{\"query\":{\"eq\":[\"name\",\"a\"]}}");
        }
        _ => panic!("expected a remote plan"),
    }
}

#[test]
fn command_update_patches_in_place() {
    let mut db = FlowletDb::new();
    Command::create(
        &mut db,
        CreateCommandInput {
            name: String::from("build"),
            cmd: String::from("make"),
            project: Some(String::from("api")),
        },
    )
    .unwrap();
    let (rec, post) = Command::update(
        &mut db,
        UpdateCommandInput { name: String::from("build"), cmd: String::from("make -j4") },
    )
    .unwrap();
    assert_eq!(rec._id, 0);
    assert_eq!(rec.cmd, "make -j4");
    assert_eq!(rec.project, Some(String::from("api")));
    assert_eq!(post.path, "/update-one/command");
    assert_eq!(db.commands.len(), 1);
    assert_eq!(db.commands[0].cmd, "make -j4");
}

#[test]
fn command_remove_deletes_first_match() {
    let mut db = FlowletDb::new();
    Command::create(
        &mut db,
        CreateCommandInput { name: String::from("x"), cmd: String::from("1"), project: None },
    )
    .unwrap();
    let req = Command::remove_request(&RemoveCommandInput { name: String::from("x") });
    assert_eq!(req.path, "/delete-one/command");
    assert_eq!(req.body, "{\"query\":{\"eq\":[\"name\",\"x\"]}}");
    assert!(Command::remove(&mut db, RemoveCommandInput { name: String::from("x") }).unwrap());
    assert_eq!(db.commands.len(), 0);
}

#[test]
fn command_save_upserts_by_name() {
    let mut db = FlowletDb::new();
    let (_, post1) =
        Command::save(&mut db, String::from("deploy"), String::from("v1")).unwrap();
    assert_eq!(post1.path, "/insert-one/command");
    let (rec2, post2) =
        Command::save(&mut db, String::from("deploy"), String::from("v2")).unwrap();
    assert_eq!(post2.path, "/update-one/command");
    assert_eq!(rec2.cmd, "v2");
    assert_eq!(db.commands.len(), 1);
    assert_eq!(db.commands[0].cmd, "v2");
}

#[test]
fn command_push_without_remote_duplicates_locally() {
    let mut db = FlowletDb::new();
    Command::save(&mut db, String::from("ship"), String::from("v1")).unwrap();
    let (_, post) =
        Command::push_apply(&mut db, String::from("ship"), String::from("v1"), false).unwrap();
    assert_eq!(post.path, "/insert-one/command");
    assert_eq!(db.commands.len(), 2);
    let (_, post2) =
        Command::push_apply(&mut db, String::from("ship"), String::from("v2"), true).unwrap();
    assert_eq!(post2.path, "/update-one/command");
}

#[test]
fn command_list_local_and_remote() {
    let mut db = FlowletDb::new();
    Command::create(
        &mut db,
        CreateCommandInput { name: String::from("a"), cmd: String::from("1"), project: None },
    )
    .unwrap();
    Command::create(
        &mut db,
        CreateCommandInput { name: String::from("b"), cmd: String::from("2"), project: None },
    )
    .unwrap();
    match Command::list(&db, ListCommandInput { query: Query::All, remote: false }) {
        ListOutcome::Local(items) => {
            assert_eq!(items.len(), 2);
            assert_eq!(items[0].name, "a");
            assert_eq!(items[1].name, "b");
        }
        _ => panic!("expected local items"),
    }
    match Command::list(&db, ListCommandInput { query: Query::All, remote: true }) {
        ListOutcome::Remote(post) => {
            assert_eq!(post.path, "/find-many/command");
            assert_eq!(post.body, "{\"query\":\"all\"}");
        }
        _ => panic!("expected a remote plan"),
    }
}

#[test]
fn variable_ops_round_trip() {
    let mut db = FlowletDb::new();
    let (rec, post) = Variable::create(
        &mut db,
        CreateVariableInput { name: String::from("HOST"), value: String::from("example.com") },
    )
    .unwrap();
    assert_eq!(post.path, "/insert-one/variable");
    assert_eq!(rec.value, "example.com");
    let found = Variable::read(&db, ReadVariableInput { query: name_q("HOST") }).unwrap();
    assert_eq!(found.value, "example.com");
    let (updated, upost) = Variable::update(
        &mut db,
        UpdateVariableInput { name: String::from("HOST"), value: String::from("example.org") },
    )
    .unwrap();
    assert_eq!(updated.value, "example.org");
    assert_eq!(upost.path, "/update-one/variable");
    let all = Variable::list(&db, ListVariableInput { query: Query::All });
    assert_eq!(all.len(), 1);
    assert!(Variable::remove(&mut db, RemoveVariableInput { name: String::from("HOST") }).unwrap());
    assert_eq!(db.variables.len(), 0);
}

#[test]
fn variable_upsert_updates_or_creates() {
    let mut db = FlowletDb::new();
    Variable::upsert(&mut db, String::from("K"), String::from("1")).unwrap();
    Variable::upsert(&mut db, String::from("K"), String::from("2")).unwrap();
    assert_eq!(db.variables.len(), 1);
    assert_eq!(db.variables[0].value, "2");
}

#[test]
fn project_ops_round_trip() {
    let mut db = FlowletDb::new();
    let (rec, post) = Project::create(
        &mut db,
        CreateProjectInput { name: String::from("api"), description: None },
    )
    .unwrap();
    assert_eq!(post.path, "/insert-one/project");
    assert_eq!(post.body, "{\"_id\":0,\"name\":\"api\",\"description\":null}");
    assert_eq!(rec.name, "api");
    let (updated, _) = Project::update(
        &mut db,
        UpdateProjectInput {
            name: String::from("api"),
            description: Some(String::from("backend")),
        },
    )
    .unwrap();
    assert_eq!(updated.description, Some(String::from("backend")));
    let (kept, _) = Project::update(
        &mut db,
        UpdateProjectInput { name: String::from("api"), description: None },
    )
    .unwrap();
    assert_eq!(kept.description, Some(String::from("backend")));
    assert!(Project::remove(&mut db, RemoveProjectInput { name: String::from("api") }).unwrap());
    assert_eq!(db.projects.len(), 0);
}

#[test]
fn task_create_starts_in_todo() {
    let mut db = FlowletDb::new();
    let (rec, post) = Task::create(
        &mut db,
        CreateTaskInput {
            title: String::from("write docs"),
            description: Some(String::from("user guide")),
            project: Some(String::from("api")),
            due_date: Some(Date { year: 2025, month: 6, day: 1 }),
            tags: vec![String::from("docs")],
            milestones: vec![Milestone {
                name: String::from("outline"),
                description: String::from("sections"),
                due_date: None,
            }],
        },
    )
    .unwrap();
    assert!(matches!(rec.status, TaskStatus::Todo));
    assert_eq!(post.path, "/insert-one/task");
    assert_eq!(
        post.body,
        "{\"_id\":0,\"title\":\"write docs\",\"description\":\"user guide\",\
         \"status\":\"todo\",\"project\":\"api\",\"due_date\":\"2025-06-01\",\
         \"tags\":[\"docs\"],\"milestones\":[{\"name\":\"outline\",\
         \"description\":\"sections\",\"due_date\":null}]}"
    );
}

#[test]
fn task_update_patches_only_given_fields() {
    let mut db = FlowletDb::new();
    Task::create(
        &mut db,
        CreateTaskInput {
            title: String::from("t"),
            description: Some(String::from("keep me")),
            project: None,
            due_date: None,
            tags: vec![String::from("a")],
            milestones: vec![],
        },
    )
    .unwrap();
    let (rec, _) = Task::update(
        &mut db,
        UpdateTaskInput {
            title: String::from("t"),
            status: Some(TaskStatus::Done),
            description: None,
            due_date: None,
            tags: None,
            milestones: None,
        },
    )
    .unwrap();
    assert!(matches!(rec.status, TaskStatus::Done));
    assert_eq!(rec.description, Some(String::from("keep me")));
    assert_eq!(rec.tags, vec![String::from("a")]);
}

#[test]
fn task_read_and_remove_by_key() {
    let mut db = FlowletDb::new();
    Task::create(
        &mut db,
        CreateTaskInput {
            title: String::from("t"),
            description: None,
            project: None,
            due_date: None,
            tags: vec![],
            milestones: vec![],
        },
    )
    .unwrap();
    match Task::read(&db, ReadTaskInput { query: title_q("t"), remote: false }) {
        ReadOutcome::Local(Some(rec)) => assert_eq!(rec.title, "t"),
        _ => panic!("expected a local hit"),
    }
    match Task::read(&db, ReadTaskInput { query: title_q("t"), remote: true }) {
        ReadOutcome::Remote(post) => assert_eq!(post.path, "/find-one/task"),
        _ => panic!("expected a remote plan"),
    }
    match Task::list(&db, ListTaskInput { query: Query::All, remote: false }) {
        ListOutcome::Local(items) => assert_eq!(items.len(), 1),
        _ => panic!("expected local items"),
    }
    assert!(Task::remove(&mut db, RemoveTaskInput { title: String::from("t") }).unwrap());
    assert_eq!(db.tasks.len(), 0);
}

#[test]
fn task_queries_by_project() {
    let mut db = FlowletDb::new();
    for (title, proj) in [("a", Some("api")), ("b", None), ("c", Some("api"))] {
        Task::create(
            &mut db,
            CreateTaskInput {
                title: String::from(title),
                description: None,
                project: proj.map(String::from),
                due_date: None,
                tags: vec![],
                milestones: vec![],
            },
        )
        .unwrap();
    }
    let q = Query::Eq(QueryField::Project, QueryValue::Text(String::from("api")));
    match Task::list(&db, ListTaskInput { query: q, remote: false }) {
        ListOutcome::Local(items) => {
            assert_eq!(items.len(), 2);
            assert_eq!(items[0].title, "a");
            assert_eq!(items[1].title, "c");
        }
        _ => panic!("expected local items"),
    }
}

#[test]
fn task_display_helpers() {
    let task = Task {
        _id: 9,
        title: String::from("t"),
        description: None,
        status: TaskStatus::InProgress,
        project: None,
        due_date: None,
        tags: vec![String::from("a"), String::from("b")],
        milestones: vec![
            Milestone {
                name: String::from("one"),
                description: String::from("first"),
                due_date: Some(Date { year: 2025, month: 2, day: 3 }),
            },
            Milestone {
                name: String::from("two"),
                description: String::from("second"),
                due_date: None,
            },
        ],
    };
    assert_eq!(task.tags_joined(), "a, b");
    let lines = task.milestone_lines();
    assert_eq!(
        lines,
        vec![
            String::from("1. one (Due: 2025-02-03)"),
            String::from("    first"),
            String::from("2. two (Due: -)"),
            String::from("    second"),
        ]
    );
    assert_eq!(TaskStatus::InProgress.label(), "In Progress");
    assert_eq!(TaskStatus::Todo.label(), "Todo");
    assert_eq!(TaskStatus::Done.label(), "Done");
}

#[test]
fn store_snapshot_renders_and_reassembles() {
    let mut db = FlowletDb::new();
    Command::create(
        &mut db,
        CreateCommandInput { name: String::from("a"), cmd: String::from("1"), project: None },
    )
    .unwrap();
    Variable::create(
        &mut db,
        CreateVariableInput { name: String::from("K"), value: String::from("v") },
    )
    .unwrap();
    let text = db.to_json();
    assert_eq!(
        text,
        "{\"next_id\":2,\"auth\":[],\"command\":[{\"_id\":0,\"name\":\"a\",\
         \"cmd\":\"1\",\"project\":null}],\"project\":[],\"task\":[],\
         \"variable\":[{\"_id\":1,\"name\":\"K\",\"value\":\"v\"}]}"
    );
    let rebuilt = FlowletDb::assemble(
        db.next_id,
        db.commands,
        db.tasks,
        db.projects,
        db.variables,
        db.auths,
    )
    .unwrap();
    assert_eq!(rebuilt.commands.len(), 1);
    assert_eq!(rebuilt.variables.len(), 1);
}

#[test]
fn assemble_rejects_duplicate_identifiers() {
    let commands = vec![
        Command { _id: 1, name: String::from("a"), cmd: String::from("1"), project: None },
        Command { _id: 1, name: String::from("b"), cmd: String::from("2"), project: None },
    ];
    assert!(FlowletDb::assemble(5, commands, vec![], vec![], vec![], vec![]).is_err());
}

#[test]
fn assemble_rejects_identifiers_at_or_above_the_counter() {
    let auths = vec![Auth { _id: 7, flowlet_token: String::from("tok") }];
    assert!(FlowletDb::assemble(7, vec![], vec![], vec![], vec![], auths).is_err());
    let auths2 = vec![Auth { _id: 7, flowlet_token: String::from("tok") }];
    assert!(FlowletDb::assemble(8, vec![], vec![], vec![], vec![], auths2).is_ok());
}

#[test]
fn empty_store_snapshot() {
    let db = FlowletDb::new();
    assert_eq!(
        db.to_json(),
        "{\"next_id\":0,\"auth\":[],\"command\":[],\"project\":[],\"task\":[],\"variable\":[]}"
    );
}
