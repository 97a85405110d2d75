use docker_db_container_login::interactive::{Reply, Request, Resolver, Stage, Turn};
use docker_db_container_login::{
    get_connection_interactively, get_connection_with_auto_detect, AppError, CommandOutcome,
    DatabaseConnection, DatabaseConnector, DatabaseType, DetectedContainer, StringMap,
};

fn text(value: &str) -> Reply {
    Reply::Text(value.to_string())
}

fn advance(state: Resolver, reply: Reply) -> (Resolver, Turn) {
    state.step(reply).unwrap()
}

fn found(listing: &str) -> Vec<DetectedContainer> {
    DatabaseConnector::detect_database_containers(&CommandOutcome::Finished {
        success: true,
        status: String::new(),
        stdout: listing.to_string(),
    })
    .unwrap()
}

fn proposals(db_type: DatabaseType, environment: &str) -> StringMap<String> {
    DatabaseConnector::get_container_default_connection(
        "box",
        &db_type,
        &CommandOutcome::Finished {
            success: true,
            status: String::new(),
            stdout: environment.to_string(),
        },
    )
    .unwrap()
}

fn expect_input(turn: &Turn, prompt: &str, default: Option<&str>, allow_empty: bool) {
    match &turn.request {
        Request::Input {
            prompt: asked,
            default: proposed,
            allow_empty: empty,
        } => {
            assert_eq!(asked, prompt);
            assert_eq!(proposed.as_deref(), default);
            assert_eq!(*empty, allow_empty);
        }
        other => panic!("{:?}", other),
    }
}

fn expect_password(turn: &Turn, prompt: &str) {
    match &turn.request {
        Request::Password { prompt: asked } => assert_eq!(asked, prompt),
        other => panic!("{:?}", other),
    }
}

fn expect_select(turn: &Turn, prompt: &str, items: &[&str]) {
    match &turn.request {
        Request::Select {
            prompt: asked,
            items: offered,
        } => {
            assert_eq!(asked, prompt);
            assert_eq!(offered, items);
        }
        other => panic!("{:?}", other),
    }
}

fn expect_done(turn: Turn) -> (String, DatabaseConnection) {
    match turn.request {
        Request::Done { alias, connection } => (alias, connection),
        other => panic!("{:?}", other),
    }
}

fn other_text(result: Result<(Resolver, Turn), AppError>) -> String {
    match result {
        Err(AppError::Other(message)) => message,
        other => panic!("{:?}", other),
    }
}

const LISTING: &str = "pg\tpostgres:16\t5432/tcp\tUp\nshop\tmysql:8\t3306/tcp\tUp\n";

#[test]
fn asking_for_everything_with_no_container_running() {
    let (state, turn) = get_connection_interactively();
    assert_eq!(state.stage, Stage::Alias);
    assert!(turn.notice.is_none());
    expect_input(&turn, "alias name", None, false);

    let (state, turn) = advance(state, text("pg1"));
    assert!(matches!(turn.request, Request::Detect));
    assert!(turn.notice.is_none());

    let (state, turn) = advance(state, Reply::Containers(Vec::new()));
    assert_eq!(
        turn.notice.as_deref(),
        Some("No database containers detected. Please enter manually.")
    );
    expect_input(&turn, "Docker container name", None, false);

    let (state, turn) = advance(state, text("mydb"));
    expect_select(&turn, "Database type", &["PostgreSQL", "MySQL", "MongoDB"]);

    let (state, turn) = advance(state, Reply::Choice(0));
    expect_input(&turn, "DB username", Some("postgres"), false);

    let (state, turn) = advance(state, text("postgres"));
    expect_password(&turn, "Password (Optional)");
    assert!(turn.notice.is_none());

    let (state, turn) = advance(state, text(""));
    expect_input(&turn, "Database name(Optional)", None, true);

    let (state, turn) = advance(state, text(""));
    expect_input(&turn, "Port number (Optional)", None, true);

    let (state, turn) = advance(state, text(""));
    assert_eq!(state.stage, Stage::Finished);
    assert!(turn.notice.is_none());
    let (alias, connection) = expect_done(turn);
    assert_eq!(alias, "pg1");
    assert_eq!(connection.db_type, DatabaseType::PostgreSQL);
    assert_eq!(connection.container, "mydb");
    assert_eq!(connection.user, "postgres");
    assert_eq!(connection.password, None);
    assert_eq!(connection.database, None);
    assert_eq!(connection.port, None);
    assert!(connection.options.is_none());
}

#[test]
fn asking_for_everything_with_a_container_chosen() {
    let (state, _) = get_connection_interactively();
    let (state, _) = advance(state, text("orders"));
    let (state, turn) = advance(state, Reply::Containers(found(LISTING)));
    assert!(turn.notice.is_none());
    expect_select(
        &turn,
        "Please select a detected database container",
        &[
            "pg (PostgreSQL - postgres:16)",
            "shop (MySQL - mysql:8)",
            "Enter manually...",
        ],
    );
    let (state, turn) = advance(state, Reply::Choice(1));
    expect_select(&turn, "Database type", &["PostgreSQL", "MySQL", "MongoDB"]);
    let (state, turn) = advance(state, Reply::Choice(1));
    expect_input(&turn, "DB username", Some("root"), false);
    let (state, _) = advance(state, text("app"));
    let (state, _) = advance(state, text("s3cret"));
    let (state, _) = advance(state, text("orders_db"));
    let (_, turn) = advance(state, text("3306"));
    assert!(turn.notice.is_none());
    let (alias, connection) = expect_done(turn);
    assert_eq!(alias, "orders");
    assert_eq!(connection.db_type, DatabaseType::MySQL);
    assert_eq!(connection.container, "shop");
    assert_eq!(connection.user, "app");
    assert_eq!(connection.password, Some("s3cret".to_string()));
    assert_eq!(connection.database, Some("orders_db".to_string()));
    assert_eq!(connection.port, Some(3306));
}

#[test]
fn entering_by_hand_though_containers_run() {
    let (state, _) = get_connection_interactively();
    let (state, _) = advance(state, text("a"));
    let (state, _) = advance(state, Reply::Containers(found(LISTING)));
    let (state, turn) = advance(state, Reply::Choice(2));
    assert!(turn.notice.is_none());
    expect_input(&turn, "Docker container name", None, false);
    let (state, _) = advance(state, text("elsewhere"));
    let (state, turn) = advance(state, Reply::Choice(2));
    expect_input(&turn, "DB username", Some("mongo"), false);
    let (state, _) = advance(state, text("mongo"));
    let (state, _) = advance(state, text(""));
    let (state, _) = advance(state, text(""));
    let (_, turn) = advance(state, text("27017"));
    let (_, connection) = expect_done(turn);
    assert_eq!(connection.container, "elsewhere");
    assert_eq!(connection.db_type, DatabaseType::MongoDB);
    assert_eq!(connection.port, Some(27017));
}

#[test]
fn a_port_that_is_no_number_is_warned_of_and_left_out() {
    for port in ["abc", "65536", "-1", "80 ", "5432/tcp"] {
        let (state, _) = get_connection_interactively();
        let (state, _) = advance(state, text("a"));
        let (state, _) = advance(state, Reply::Containers(Vec::new()));
        let (state, _) = advance(state, text("box"));
        let (state, _) = advance(state, Reply::Choice(0));
        let (state, _) = advance(state, text("postgres"));
        let (state, _) = advance(state, text("pw"));
        let (state, _) = advance(state, text("db"));
        let (state, turn) = advance(state, text(port));
        assert_eq!(state.stage, Stage::Finished);
        assert_eq!(
            turn.notice.as_deref(),
            Some("Warning: Invalid port number provided, using default port.")
        );
        let (_, connection) = expect_done(turn);
        assert_eq!(connection.port, None);
        assert_eq!(connection.password, Some("pw".to_string()));
        assert_eq!(connection.database, Some("db".to_string()));
    }
}

#[test]
fn beginning_with_the_containers_that_run() {
    let (state, turn) = get_connection_with_auto_detect();
    assert_eq!(state.stage, Stage::FirstDetection);
    assert!(matches!(turn.request, Request::Detect));

    let (state, turn) = advance(state, Reply::Containers(found(LISTING)));
    expect_select(
        &turn,
        "Please select a detected database container",
        &[
            "pg (PostgreSQL - postgres:16)",
            "shop (MySQL - mysql:8)",
            "Enter manually...",
        ],
    );

    let (state, turn) = advance(state, Reply::Choice(0));
    expect_input(&turn, "alias name", Some("pg"), false);

    let (state, turn) = advance(state, text("main"));
    match &turn.request {
        Request::Inspect { container, db_type } => {
            assert_eq!(container, "pg");
            assert_eq!(*db_type, DatabaseType::PostgreSQL);
        }
        other => panic!("{:?}", other),
    }

    let defaults = proposals(
        DatabaseType::PostgreSQL,
        "POSTGRES_USER=admin\nPOSTGRES_PASSWORD=found\nPOSTGRES_DB=shop\n",
    );
    let (state, turn) = advance(state, Reply::Defaults(defaults));
    expect_input(&turn, "DB username", Some("admin"), false);

    let (state, turn) = advance(state, text("admin"));
    assert_eq!(
        turn.notice.as_deref(),
        Some("Password detected from environment variable")
    );
    expect_select(
        &turn,
        "Use password from environment variable?",
        &["Yes", "No (enter new password)"],
    );

    let (state, turn) = advance(state, Reply::Choice(0));
    expect_input(&turn, "Database name (Optional)", Some("shop"), true);

    let (state, turn) = advance(state, text("shop"));
    expect_input(&turn, "Port number (Optional)", None, true);

    let (_, turn) = advance(state, text("5432"));
    let (alias, connection) = expect_done(turn);
    assert_eq!(alias, "main");
    assert_eq!(connection.db_type, DatabaseType::PostgreSQL);
    assert_eq!(connection.container, "pg");
    assert_eq!(connection.user, "admin");
    assert_eq!(connection.password, Some("found".to_string()));
    assert_eq!(connection.database, Some("shop".to_string()));
    assert_eq!(connection.port, Some(5432));
    assert!(connection.options.is_none());
}

#[test]
fn turning_the_found_password_down() {
    let (state, _) = get_connection_with_auto_detect();
    let (state, _) = advance(state, Reply::Containers(found(LISTING)));
    let (state, _) = advance(state, Reply::Choice(1));
    let (state, _) = advance(state, text("shop"));
    let defaults = proposals(DatabaseType::MySQL, "MYSQL_ROOT_PASSWORD=rootpw\n");
    let (state, turn) = advance(state, Reply::Defaults(defaults));
    expect_input(&turn, "DB username", Some("root"), false);
    let (state, _) = advance(state, text("root"));
    let (state, turn) = advance(state, Reply::Choice(1));
    assert_eq!(state.stage, Stage::NewPassword);
    expect_password(&turn, "Password");
    let (state, turn) = advance(state, text(""));
    expect_input(&turn, "Database name (Optional)", Some(""), true);
    let (state, _) = advance(state, text(""));
    let (_, turn) = advance(state, text(""));
    let (alias, connection) = expect_done(turn);
    assert_eq!(alias, "shop");
    assert_eq!(connection.db_type, DatabaseType::MySQL);
    assert_eq!(connection.container, "shop");
    assert_eq!(connection.password, None);
    assert_eq!(connection.database, None);
}

#[test]
fn no_password_found_asks_for_one() {
    let (state, _) = get_connection_with_auto_detect();
    let (state, _) = advance(state, Reply::Containers(found(LISTING)));
    let (state, _) = advance(state, Reply::Choice(0));
    let (state, _) = advance(state, text("pg"));
    let (state, turn) = advance(state, Reply::Defaults(StringMap::new()));
    expect_input(&turn, "DB username", Some("postgres"), false);
    let (state, turn) = advance(state, text("me"));
    assert!(turn.notice.is_none());
    expect_password(&turn, "Password (Optional)");
    let (state, turn) = advance(state, text("typed"));
    expect_input(&turn, "Database name (Optional)", Some(""), true);
    let (state, _) = advance(state, text("mine"));
    let (_, turn) = advance(state, text(""));
    let (_, connection) = expect_done(turn);
    assert_eq!(connection.user, "me");
    assert_eq!(connection.password, Some("typed".to_string()));
    assert_eq!(connection.database, Some("mine".to_string()));
    assert_eq!(connection.container, "pg");
}

#[test]
fn usual_user_for_a_mongodb_container_without_proposals() {
    let listing = "docs\tmongo:7\t27017/tcp\tUp\n";
    let (state, _) = get_connection_with_auto_detect();
    let (state, _) = advance(state, Reply::Containers(found(listing)));
    let (state, _) = advance(state, Reply::Choice(0));
    let (state, _) = advance(state, text("docs"));
    let (_, turn) = advance(state, Reply::Defaults(StringMap::new()));
    expect_input(&turn, "DB username", Some("mongo"), false);

    let (state, _) = get_connection_with_auto_detect();
    let (state, _) = advance(state, Reply::Containers(found(listing)));
    let (state, _) = advance(state, Reply::Choice(0));
    let (state, _) = advance(state, text("docs"));
    let (_, turn) = advance(
        state,
        Reply::Defaults(proposals(DatabaseType::MongoDB, "")),
    );
    expect_input(&turn, "DB username", Some("root"), false);
}

#[test]
fn nothing_running_falls_back_to_asking() {
    let (state, _) = get_connection_with_auto_detect();
    let (state, turn) = advance(state, Reply::Containers(Vec::new()));
    assert_eq!(state.stage, Stage::Alias);
    assert!(!state.auto_detect);
    assert_eq!(
        turn.notice.as_deref(),
        Some("No database containers detected.")
    );
    expect_input(&turn, "alias name", None, false);
    let (_, turn) = advance(state, text("x"));
    assert!(matches!(turn.request, Request::Detect));
}

#[test]
fn entering_by_hand_falls_back_to_asking() {
    let (state, _) = get_connection_with_auto_detect();
    let (state, _) = advance(state, Reply::Containers(found(LISTING)));
    let (state, turn) = advance(state, Reply::Choice(2));
    assert_eq!(state.stage, Stage::Alias);
    assert!(turn.notice.is_none());
    expect_input(&turn, "alias name", None, false);
    let (state, _) = advance(state, text("x"));
    let (state, _) = advance(state, Reply::Containers(Vec::new()));
    let (state, _) = advance(state, text("byhand"));
    let (state, _) = advance(state, Reply::Choice(0));
    let (state, _) = advance(state, text("postgres"));
    let (state, turn) = advance(state, text(""));
    expect_input(&turn, "Database name(Optional)", None, true);
    let (state, _) = advance(state, text(""));
    let (_, turn) = advance(state, text(""));
    let (alias, connection) = expect_done(turn);
    assert_eq!(alias, "x");
    assert_eq!(connection.container, "byhand");
}

#[test]
fn a_choice_that_no_menu_offers_is_a_failure() {
    let (state, _) = get_connection_interactively();
    let (state, _) = advance(state, text("a"));
    let (state, _) = advance(state, Reply::Containers(found(LISTING)));
    assert_eq!(other_text(state.step(Reply::Choice(3))), "Invalid selection");

    let (state, _) = get_connection_with_auto_detect();
    let (state, _) = advance(state, Reply::Containers(found(LISTING)));
    assert_eq!(other_text(state.step(Reply::Choice(7))), "Invalid selection");

    let (state, _) = get_connection_interactively();
    let (state, _) = advance(state, text("a"));
    let (state, _) = advance(state, Reply::Containers(Vec::new()));
    let (state, _) = advance(state, text("box"));
    assert_eq!(other_text(state.step(Reply::Choice(3))), "Invalid selection");
}

#[test]
fn a_reply_of_the_wrong_kind_is_a_failure() {
    let (state, _) = get_connection_interactively();
    assert_eq!(other_text(state.step(Reply::Choice(0))), "Unexpected reply");

    let (state, _) = get_connection_interactively();
    let (state, _) = advance(state, text("a"));
    assert_eq!(other_text(state.step(text("b"))), "Unexpected reply");

    let (state, _) = get_connection_with_auto_detect();
    assert_eq!(other_text(state.step(text("a"))), "Unexpected reply");

    let (state, _) = get_connection_with_auto_detect();
    let (state, _) = advance(state, Reply::Containers(found(LISTING)));
    let (state, _) = advance(state, Reply::Choice(0));
    let (state, _) = advance(state, text("a"));
    assert_eq!(
        other_text(state.step(Reply::Containers(Vec::new()))),
        "Unexpected reply"
    );
}

#[test]
fn a_finished_resolver_takes_no_reply() {
    let (state, _) = get_connection_interactively();
    let (state, _) = advance(state, text("a"));
    let (state, _) = advance(state, Reply::Containers(Vec::new()));
    let (state, _) = advance(state, text("box"));
    let (state, _) = advance(state, Reply::Choice(1));
    let (state, _) = advance(state, text("root"));
    let (state, _) = advance(state, text(""));
    let (state, _) = advance(state, text(""));
    let (state, _) = advance(state, text(""));
    assert_eq!(state.stage, Stage::Finished);
    assert_eq!(
        other_text(state.step(text("again"))),
        "The connection is already resolved"
    );
}
