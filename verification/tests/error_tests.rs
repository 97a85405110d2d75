use docker_db_container_login::AppError;

#[test]
fn test_error_display() {
    let err = AppError::Config("Test error".to_string());
    assert_eq!(err.to_string(), "Config error: Test error");

    let err = AppError::DatabaseConnection("Connection failed".to_string());
    assert_eq!(
        err.to_string(),
        "Database connection error: Connection failed"
    );

    let err = AppError::AliasNotFound("test-alias".to_string());
    assert_eq!(err.to_string(), "Alias 'test-alias' not found");
}

#[test]
fn every_failure_has_its_line() {
    assert_eq!(
        AppError::Docker("no daemon".to_string()).to_string(),
        "Docker error: no daemon"
    );
    assert_eq!(
        AppError::UnknownDatabaseType("db2".to_string()).to_string(),
        "Unknown database type: db2"
    );
    assert_eq!(
        AppError::ValidationError("bad name".to_string()).to_string(),
        "Validation error: bad name"
    );
    assert_eq!(
        AppError::Io("broken pipe".to_string()).to_string(),
        "I/O error: broken pipe"
    );
    assert_eq!(
        AppError::Yaml("bad indent".to_string()).to_string(),
        "YAML error: bad indent"
    );
    assert_eq!(
        AppError::Other("something".to_string()).to_string(),
        "Error: something"
    );
    assert_eq!(AppError::Config(String::new()).to_string(), "Config error: ");
    assert_eq!(
        AppError::AliasNotFound(String::new()).to_string(),
        "Alias '' not found"
    );
}
