use docker_db_container_login::validation::{
    sanitize_for_shell, validate_container_name, validate_database_name, validate_option_key,
    validate_username, Grammar,
};
use docker_db_container_login::AppError;

fn complaint(result: Result<(), AppError>) -> String {
    match result {
        Err(AppError::ValidationError(text)) => text,
        other => panic!("{:?}", other),
    }
}

#[test]
fn test_valid_container_names() {
    assert!(validate_container_name("mysql").is_ok());
    assert!(validate_container_name("postgres-db").is_ok());
    assert!(validate_container_name("mongo_test.1").is_ok());
    assert!(validate_container_name("db123").is_ok());
}

#[test]
fn test_invalid_container_names() {
    assert!(validate_container_name("-invalid").is_err());
    assert!(validate_container_name("test space").is_err());
    assert!(validate_container_name("test;echo").is_err());
    assert!(validate_container_name("test$(whoami)").is_err());
    assert!(validate_container_name("").is_err());
}

#[test]
fn test_valid_usernames() {
    assert!(validate_username("root").is_ok());
    assert!(validate_username("user123").is_ok());
    assert!(validate_username("test_user").is_ok());
    assert!(validate_username("app.user").is_ok());
}

#[test]
fn test_invalid_usernames() {
    assert!(validate_username("123user").is_err());
    assert!(validate_username("user space").is_err());
    assert!(validate_username("user;drop").is_err());
    assert!(validate_username("").is_err());
}

#[test]
fn test_sanitize_shell() {
    assert_eq!(sanitize_for_shell("normal"), "normal");
    assert_eq!(sanitize_for_shell("test;echo"), "'test;echo'");
    assert_eq!(sanitize_for_shell("$(whoami)"), "'$(whoami)'");
}

#[test]
fn database_names_take_no_dot_or_hyphen() {
    assert!(validate_database_name("testdb").is_ok());
    assert!(validate_database_name("my_db2").is_ok());
    assert!(validate_database_name("D").is_ok());
    assert!(validate_database_name("my-db").is_err());
    assert!(validate_database_name("my.db").is_err());
    assert!(validate_database_name("1db").is_err());
    assert!(validate_database_name("_db").is_err());
    assert!(validate_database_name("").is_err());
    assert!(validate_database_name("db name").is_err());
    assert!(validate_database_name("db;drop").is_err());
}

#[test]
fn container_names_may_start_with_a_digit() {
    assert!(validate_container_name("7up").is_ok());
    assert!(validate_container_name("0").is_ok());
    assert!(validate_username("7up").is_err());
    assert!(validate_database_name("7up").is_err());
    assert!(validate_container_name(".hidden").is_err());
    assert!(validate_container_name("_x").is_err());
}

#[test]
fn names_end_at_their_limits() {
    let exact = "a".repeat(255);
    let over = "a".repeat(256);
    assert!(validate_container_name(&exact).is_ok());
    assert!(validate_container_name(&over).is_err());

    let exact = "u".repeat(64);
    let over = "u".repeat(65);
    assert!(validate_username(&exact).is_ok());
    assert!(validate_username(&over).is_err());
    assert!(validate_database_name(&exact).is_ok());
    assert!(validate_database_name(&over).is_err());
    assert!(validate_option_key(&exact).is_ok());
    assert!(validate_option_key(&over).is_err());
}

#[test]
fn complaints_tell_shape_from_length() {
    assert_eq!(
        complaint(validate_container_name("bad name")),
        "Invalid container name. Only alphanumeric characters, dots, hyphens, and underscores are allowed"
    );
    assert_eq!(
        complaint(validate_container_name(&"c".repeat(256))),
        "Container name is too long (max 255 characters)"
    );
    assert_eq!(
        complaint(validate_username("9lives")),
        "Invalid username. Must start with a letter and contain only alphanumeric characters, dots, hyphens, and underscores"
    );
    assert_eq!(
        complaint(validate_username(&"u".repeat(65))),
        "Username is too long (max 64 characters)"
    );
    assert_eq!(
        complaint(validate_database_name("a-b")),
        "Invalid database name. Must start with a letter and contain only alphanumeric characters and underscores"
    );
    assert_eq!(
        complaint(validate_database_name(&"d".repeat(65))),
        "Database name is too long (max 64 characters)"
    );
    assert_eq!(
        complaint(validate_option_key("--x")),
        "Invalid option name. Must start with a letter and contain only alphanumeric characters, dots, hyphens, and underscores"
    );
    assert_eq!(
        complaint(validate_option_key(&"o".repeat(65))),
        "Option name is too long (max 64 characters)"
    );
    // The shape is judged first.
    let long_and_bad = format!("{} x", "a".repeat(300));
    assert_eq!(
        complaint(validate_container_name(&long_and_bad)),
        "Invalid container name. Only alphanumeric characters, dots, hyphens, and underscores are allowed"
    );
}

#[test]
fn shell_text_is_rejected_by_every_grammar() {
    let hazards = [
        "a;b",
        "x$(id)",
        "$(id)",
        "two words",
        "tab\there",
        "line\nbreak",
        "-leading",
        ".leading",
        "_leading",
        ";",
        " ",
        "a\u{a0}b",
        "a`id`",
        "a|b",
        "a&b",
        "a'b",
        "a\"b",
        "a\\b",
        "a>b",
        "caf\u{e9}",
    ];
    for text in hazards {
        assert!(validate_container_name(text).is_err(), "{:?}", text);
        assert!(validate_username(text).is_err(), "{:?}", text);
        assert!(validate_database_name(text).is_err(), "{:?}", text);
        assert!(validate_option_key(text).is_err(), "{:?}", text);
    }
}

#[test]
fn grammar_check_agrees_with_the_validators() {
    for text in ["abc", "a.b-c_d", "9a", "", "a b", "A1_"] {
        assert_eq!(
            Grammar::ContainerName.check(text).is_ok(),
            validate_container_name(text).is_ok()
        );
        assert_eq!(
            Grammar::Username.check(text).is_ok(),
            validate_username(text).is_ok()
        );
        assert_eq!(
            Grammar::DatabaseName.check(text).is_ok(),
            validate_database_name(text).is_ok()
        );
        assert_eq!(
            Grammar::OptionKey.check(text).is_ok(),
            validate_option_key(text).is_ok()
        );
    }
}

#[test]
fn option_keys_are_identifiers() {
    assert!(validate_option_key("foo").is_ok());
    assert!(validate_option_key("no-password").is_ok());
    assert!(validate_option_key("ssl.mode").is_ok());
    assert!(validate_option_key("authenticationDatabase").is_ok());
    assert!(validate_option_key("").is_err());
    assert!(validate_option_key("-x").is_err());
    assert!(validate_option_key("a=b").is_err());
    assert!(validate_option_key("a b").is_err());
    assert!(validate_option_key("1a").is_err());
}

#[test]
fn plain_words_pass_through_quoting() {
    assert_eq!(sanitize_for_shell("abc"), "abc");
    assert_eq!(
        sanitize_for_shell("abcdefghijklmnopqrstuvwxyzABCDEFGHIJKLMNOPQRSTUVWXYZ0123456789-_=/,.+"),
        "abcdefghijklmnopqrstuvwxyzABCDEFGHIJKLMNOPQRSTUVWXYZ0123456789-_=/,.+"
    );
    assert_eq!(sanitize_for_shell("--aaa=bbb-ccc"), "--aaa=bbb-ccc");
    let once = sanitize_for_shell("abc");
    assert_eq!(sanitize_for_shell(&once), once);
}

#[test]
fn other_text_is_put_between_quotes() {
    assert_eq!(sanitize_for_shell(""), "''");
    assert_eq!(
        sanitize_for_shell("linker=gcc -L/foo -Wl,bar"),
        "'linker=gcc -L/foo -Wl,bar'"
    );
    assert_eq!(
        sanitize_for_shell("--features=\"default\""),
        "'--features=\"default\"'"
    );
    assert_eq!(sanitize_for_shell("it's"), "'it'\\''s'");
    assert_eq!(sanitize_for_shell("hi!"), "'hi'\\!''");
    assert_eq!(sanitize_for_shell("'"), "''\\'''");
    assert_eq!(sanitize_for_shell("a b"), "'a b'");
    assert_eq!(sanitize_for_shell("caf\u{e9}"), "'caf\u{e9}'");
    assert_eq!(
        sanitize_for_shell("'!\\$`\\\\\\n "),
        "''\\'''\\!'\\$`\\\\\\n '"
    );
}

fn samples() -> Vec<String> {
    let alphabet = [
        "a", "Z", "0", "9", "_", ".", "-", " ", ";", "$", "(", "\n", "\u{e9}", "+", "/", "", "ab",
    ];
    let mut texts = Vec::new();
    for first in alphabet {
        for second in alphabet {
            for third in alphabet {
                texts.push(format!("{}{}{}", first, second, third));
            }
        }
    }
    for length in [63usize, 64, 65, 254, 255, 256, 300] {
        texts.push("a".repeat(length));
        texts.push(format!("{}\n", "a".repeat(length)));
        texts.push(format!("1{}", "b".repeat(length - 1)));
    }
    texts
}

#[test]
fn grammars_agree_with_their_patterns() {
    let container = regex::Regex::new(r"^[a-zA-Z0-9][a-zA-Z0-9_.-]*$").unwrap();
    let username = regex::Regex::new(r"^[a-zA-Z][a-zA-Z0-9_.-]*$").unwrap();
    let database = regex::Regex::new(r"^[a-zA-Z][a-zA-Z0-9_]*$").unwrap();
    for text in samples() {
        assert_eq!(
            validate_container_name(&text).is_ok(),
            container.is_match(&text) && text.len() <= 255,
            "{:?}",
            text
        );
        assert_eq!(
            validate_username(&text).is_ok(),
            username.is_match(&text) && text.len() <= 64,
            "{:?}",
            text
        );
        assert_eq!(
            validate_database_name(&text).is_ok(),
            database.is_match(&text) && text.len() <= 64,
            "{:?}",
            text
        );
        assert_eq!(
            validate_option_key(&text).is_ok(),
            username.is_match(&text) && text.len() <= 64,
            "{:?}",
            text
        );
    }
}
