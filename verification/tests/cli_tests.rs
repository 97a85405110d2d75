use docker_db_container_login::cli::{format_connection, AddArgs, AddPlan, ConnectArgs};
use docker_db_container_login::{AppError, Config, DatabaseConnection, DatabaseType};

fn add_args() -> AddArgs {
    AddArgs {
        alias: Some("test-alias".to_string()),
        container: Some("test-container".to_string()),
        db_type: Some("postgresql".to_string()),
        user: Some("testuser".to_string()),
        password: None,
        database: None,
        port: None,
        interactive: false,
        auto_detect: false,
    }
}

fn connect_args() -> ConnectArgs {
    ConnectArgs {
        alias: None,
        container: Some("test-container".to_string()),
        db_type: Some("mysql".to_string()),
        user: Some("root".to_string()),
        password: None,
        database: None,
        port: None,
    }
}

#[test]
fn test_connect_args_to_connection() {
    let args = ConnectArgs {
        alias: None,
        container: Some("test-container".to_string()),
        db_type: Some("postgresql".to_string()),
        user: Some("testuser".to_string()),
        password: Some("pass123".to_string()),
        database: Some("testdb".to_string()),
        port: Some(5432),
    };

    let conn = args.to_connection().unwrap();
    assert_eq!(conn.db_type, DatabaseType::PostgreSQL);
    assert_eq!(conn.container, "test-container");
    assert_eq!(conn.user, "testuser");
    assert_eq!(conn.password, Some("pass123".to_string()));
    assert_eq!(conn.database, Some("testdb".to_string()));
    assert_eq!(conn.port, Some(5432));
}

#[test]
fn test_connect_args_invalid() {
    let args = ConnectArgs {
        alias: None,
        container: None,
        db_type: Some("postgresql".to_string()),
        user: Some("testuser".to_string()),
        password: None,
        database: None,
        port: None,
    };

    assert!(args.to_connection().is_none());

    let args = ConnectArgs {
        alias: None,
        container: Some("test-container".to_string()),
        db_type: Some("invalid".to_string()),
        user: Some("testuser".to_string()),
        password: None,
        database: None,
        port: None,
    };

    assert!(args.to_connection().is_none());
}

#[test]
fn test_add_args_to_connection() {
    let args = AddArgs {
        alias: Some("test-alias".to_string()),
        container: Some("test-container".to_string()),
        db_type: Some("postgresql".to_string()),
        user: Some("testuser".to_string()),
        password: Some("pass123".to_string()),
        database: Some("testdb".to_string()),
        port: Some(5432),
        interactive: false,
        auto_detect: false,
    };

    let conn = args.to_connection().unwrap();
    assert_eq!(conn.db_type, DatabaseType::PostgreSQL);
    assert_eq!(conn.container, "test-container");
    assert_eq!(conn.user, "testuser");
    assert_eq!(conn.password, Some("pass123".to_string()));
    assert_eq!(conn.database, Some("testdb".to_string()));
    assert_eq!(conn.port, Some(5432));
}

#[test]
fn test_add_args_invalid_db_type() {
    let args = AddArgs {
        alias: Some("test-alias".to_string()),
        container: Some("test-container".to_string()),
        db_type: Some("invalid".to_string()),
        user: Some("testuser".to_string()),
        password: None,
        database: None,
        port: None,
        interactive: false,
        auto_detect: false,
    };

    assert!(args.to_connection().is_err());
}

#[test]
fn connect_args_need_user_and_database_type() {
    let mut args = connect_args();
    args.user = None;
    assert!(args.to_connection().is_none());

    let mut args = connect_args();
    args.db_type = None;
    assert!(args.to_connection().is_none());

    let made = connect_args().to_connection().unwrap();
    assert_eq!(made.db_type, DatabaseType::MySQL);
    assert!(made.options.is_none());
    assert!(made.password.is_none());
    assert!(made.database.is_none());
    assert!(made.port.is_none());
}

#[test]
fn add_args_say_what_is_missing() {
    let mut args = add_args();
    args.db_type = None;
    assert_eq!(
        args.to_connection().unwrap_err(),
        "Database type not specified"
    );

    let mut args = add_args();
    args.container = None;
    assert_eq!(
        args.to_connection().unwrap_err(),
        "Container name not specified"
    );

    let mut args = add_args();
    args.user = None;
    assert_eq!(args.to_connection().unwrap_err(), "Username not specified");

    let mut args = add_args();
    args.db_type = Some("invalid".to_string());
    assert_eq!(
        args.to_connection().unwrap_err(),
        "Database type parse error: Unknown database type: invalid"
    );
}

#[test]
fn add_args_judge_in_order() {
    let mut args = add_args();
    args.db_type = None;
    args.container = None;
    args.user = None;
    assert_eq!(
        args.to_connection().unwrap_err(),
        "Database type not specified"
    );

    let mut args = add_args();
    args.db_type = Some("nothing".to_string());
    args.container = None;
    assert_eq!(
        args.to_connection().unwrap_err(),
        "Database type parse error: Unknown database type: nothing"
    );

    let mut args = add_args();
    args.container = None;
    args.user = None;
    assert_eq!(
        args.to_connection().unwrap_err(),
        "Container name not specified"
    );
}

#[test]
fn add_args_in_interactive_mode() {
    let mut args = add_args();
    args.interactive = true;
    args.user = None;
    assert_eq!(
        args.to_connection().unwrap_err(),
        "Missing required information in interactive mode"
    );

    let mut args = add_args();
    args.interactive = true;
    args.db_type = None;
    assert_eq!(
        args.to_connection().unwrap_err(),
        "Missing required information in interactive mode"
    );

    let mut args = add_args();
    args.interactive = true;
    let made = args.to_connection().unwrap();
    assert_eq!(made.container, "test-container");
    assert_eq!(made.db_type, DatabaseType::PostgreSQL);
}

#[test]
fn resolve_prefers_the_alias() {
    let mut config = Config::new();
    config
        .add_connection(
            "stored".to_string(),
            DatabaseConnection {
                db_type: DatabaseType::MongoDB,
                container: "mongo-box".to_string(),
                user: "admin".to_string(),
                password: Some("pw".to_string()),
                database: None,
                port: Some(27017),
                options: None,
            },
        )
        .unwrap();

    let mut args = connect_args();
    args.alias = Some("stored".to_string());
    let found = args.resolve(&config).unwrap().unwrap();
    assert_eq!(found.container, "mongo-box");
    assert_eq!(found.db_type, DatabaseType::MongoDB);
    assert_eq!(found.password, Some("pw".to_string()));
    assert_eq!(found.port, Some(27017));

    let mut args = connect_args();
    args.alias = Some("absent".to_string());
    match args.resolve(&config) {
        Err(AppError::AliasNotFound(alias)) => assert_eq!(alias, "absent"),
        other => panic!("{:?}", other),
    }
}

#[test]
fn resolve_without_alias_uses_the_arguments() {
    let config = Config::new();
    let found = connect_args().resolve(&config).unwrap().unwrap();
    assert_eq!(found.container, "test-container");
    assert_eq!(found.db_type, DatabaseType::MySQL);

    let mut args = connect_args();
    args.container = None;
    assert!(args.resolve(&config).unwrap().is_none());
}

#[test]
fn stored_connection_is_shown_on_one_line() {
    let mut config = Config::new();
    let args = AddArgs {
        alias: Some("pg1".to_string()),
        container: Some("mydb".to_string()),
        db_type: Some("postgres".to_string()),
        user: Some("postgres".to_string()),
        password: None,
        database: None,
        port: None,
        interactive: false,
        auto_detect: false,
    };
    config
        .add_connection("pg1".to_string(), args.to_connection().unwrap())
        .unwrap();

    let listed = config.list_connections();
    assert_eq!(listed.len(), 1);
    let (alias, stored) = listed[0];
    assert_eq!(
        format_connection(alias, stored, false),
        "pg1: PostgreSQL (postgres@mydb, DB: -) [Stopped]"
    );
    assert_eq!(
        format_connection(alias, stored, true),
        "pg1: PostgreSQL (postgres@mydb, DB: -) [Running]"
    );

    assert!(config.remove_connection("pg1").is_ok());
    assert!(matches!(
        config.remove_connection("pg1"),
        Err(AppError::AliasNotFound(_))
    ));
}

#[test]
fn shown_line_names_the_database() {
    let stored = DatabaseConnection {
        db_type: DatabaseType::MySQL,
        container: "shop".to_string(),
        user: "root".to_string(),
        password: Some("hidden".to_string()),
        database: Some("orders".to_string()),
        port: Some(3306),
        options: None,
    };
    assert_eq!(
        format_connection("m", &stored, true),
        "m: MySQL (root@shop, DB: orders) [Running]"
    );
}

#[test]
fn add_plan_follows_the_flags_first() {
    let mut args = add_args();
    args.auto_detect = true;
    args.interactive = true;
    args.alias = None;
    args.db_type = None;
    assert!(matches!(args.plan(), Ok(AddPlan::AutoDetect)));

    let mut args = add_args();
    args.interactive = true;
    args.alias = None;
    args.container = None;
    assert!(matches!(args.plan(), Ok(AddPlan::Interactive)));
}

#[test]
fn add_plan_from_the_arguments() {
    match add_args().plan() {
        Ok(AddPlan::Store { alias, connection }) => {
            assert_eq!(alias, "test-alias");
            assert_eq!(connection.container, "test-container");
            assert_eq!(connection.db_type, DatabaseType::PostgreSQL);
            assert_eq!(connection.user, "testuser");
        }
        other => panic!("{:?}", other),
    }

    let mut args = add_args();
    args.alias = None;
    assert_eq!(args.plan().unwrap_err(), "Alias name not specified");

    let mut args = add_args();
    args.alias = None;
    args.user = None;
    assert_eq!(args.plan().unwrap_err(), "Alias name not specified");

    let mut args = add_args();
    args.user = None;
    assert_eq!(
        args.plan().unwrap_err(),
        "Failed to convert connection info: Username not specified"
    );

    let mut args = add_args();
    args.db_type = Some("db2".to_string());
    assert_eq!(
        args.plan().unwrap_err(),
        "Failed to convert connection info: Database type parse error: Unknown database type: db2"
    );
}
