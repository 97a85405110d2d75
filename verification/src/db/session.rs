//! Sessions: the command line that opens the client of a database system in
//! its container, and what the end of the session means.

use crate::config::{text_entries, ConnectionView, DatabaseConnection, DatabaseType};
use crate::db::{
    no_args, push_arg, runtime_program, CommandOutcome, DatabaseConnector, Invocation,
    InvocationView, OutcomeView,
};
use crate::error::{AppError, AppErrorView};
use crate::string_map::StringMap;
use crate::validation::{
    is_container_name, is_database_name, is_option_key, is_username, validate_container_name,
    validate_database_name, validate_option_key, validate_username, Grammar,
};
use vstd::prelude::*;

verus! {

/// The client program of a database system, as found in its containers.
pub open spec fn client_program(db_type: DatabaseType) -> Seq<char> {
    match db_type {
        DatabaseType::PostgreSQL => "psql"@,
        DatabaseType::MySQL => "mysql"@,
        DatabaseType::MongoDB => "mongosh"@,
    }
}

/// Whether the user of a descriptor is held to the grammar of usernames.
/// MongoDB admits sessions without a user, so there an empty user passes.
pub open spec fn user_is_checked(connection: ConnectionView) -> bool {
    connection.db_type != DatabaseType::MongoDB || connection.user.len() > 0
}

/// The failure of the first option whose name is no option name, if any.
pub open spec fn option_complaint(options: Seq<(Seq<char>, Seq<char>)>) -> Option<AppErrorView>
    decreases options.len(),
{
    if options.len() == 0 {
        None
    } else if option_complaint(options.drop_last()) is Some {
        option_complaint(options.drop_last())
    } else {
        Grammar::OptionKey.verdict(options.last().0)
    }
}

/// The failure of the first identifier of a descriptor that does not fit its
/// grammar, if any: the container, then the user, then the database, then
/// the names of the options in their order.
pub open spec fn identifier_complaint(connection: ConnectionView) -> Option<AppErrorView> {
    if Grammar::ContainerName.verdict(connection.container) is Some {
        Grammar::ContainerName.verdict(connection.container)
    } else if user_is_checked(connection) && Grammar::Username.verdict(connection.user) is Some {
        Grammar::Username.verdict(connection.user)
    } else if connection.database is Some && Grammar::DatabaseName.verdict(
        connection.database->0,
    ) is Some {
        Grammar::DatabaseName.verdict(connection.database->0)
    } else if connection.options is Some {
        option_complaint(connection.options->0)
    } else {
        None
    }
}

/// The arguments that name the database, the user and the password, as the
/// client of the database system wants them.
pub open spec fn credential_args(connection: ConnectionView) -> Seq<Seq<char>> {
    match connection.db_type {
        DatabaseType::PostgreSQL => {
            (match connection.database {
                Some(database) => seq!["-d"@, database],
                None => seq![],
            }) + seq!["-U"@, connection.user]
        },
        DatabaseType::MySQL => {
            (match connection.database {
                Some(database) => seq![database],
                None => seq![],
            }) + seq!["-u"@, connection.user] + (match connection.password {
                Some(password) => seq!["-p"@ + password],
                None => seq![],
            })
        },
        DatabaseType::MongoDB => {
            (if connection.user.len() > 0 {
                seq!["-u"@, connection.user] + (match connection.password {
                    Some(password) => seq!["-p"@, password],
                    None => seq![],
                })
            } else {
                seq![]
            }) + (match connection.database {
                Some(database) => seq![database],
                None => seq![],
            })
        },
    }
}

/// The arguments for the options: for each, in order, its name behind two
/// hyphens and then its value.
pub open spec fn option_args(options: Seq<(Seq<char>, Seq<char>)>) -> Seq<Seq<char>>
    decreases options.len(),
{
    if options.len() == 0 {
        seq![]
    } else {
        option_args(options.drop_last()) + seq!["--"@ + options.last().0, options.last().1]
    }
}

/// The arguments of the runtime for a session: `exec -it`, the container,
/// the client, the credentials, the options.
pub open spec fn session_args(connection: ConnectionView) -> Seq<Seq<char>> {
    seq!["exec"@, "-it"@, connection.container, client_program(connection.db_type)]
        + credential_args(connection) + (match connection.options {
        Some(options) => option_args(options),
        None => seq![],
    })
}

/// The command line that opens a session for a descriptor.
pub open spec fn session_invocation(connection: ConnectionView) -> InvocationView {
    InvocationView {
        program: runtime_program(),
        args: session_args(connection),
        interactive: true,
    }
}

/// What is said when a session ends in failure.
pub open spec fn session_complaint(db_type: DatabaseType, status: Seq<char>) -> Seq<char> {
    "Failed to connect to "@ + db_type.name() + " container: "@ + status
}

/// The failure, if any, in which a session ended.
pub open spec fn session_failure(db_type: DatabaseType, outcome: OutcomeView) -> Option<
    AppErrorView,
> {
    match outcome {
        OutcomeView::NotStarted(reason) => Some(AppErrorView::Io(reason)),
        OutcomeView::Finished { success, status, stdout } => if success {
            None
        } else {
            Some(AppErrorView::Docker(session_complaint(db_type, status)))
        },
    }
}

/// Appends the arguments for the options.
fn push_option_args(args: &mut Vec<String>, options: &StringMap<String>)
    ensures
        final(args).deep_view() == old(args).deep_view() + option_args(text_entries(options@)),
{
    let n = options.len();
    let ghost all = text_entries(options@);
    let mut i: usize = 0;
    assert(all.take(0) =~= Seq::<(Seq<char>, Seq<char>)>::empty());
    assert(args.deep_view() + Seq::<Seq<char>>::empty() =~= args.deep_view());
    while i < n
        invariant
            i <= n,
            n == options@.len(),
            all == text_entries(options@),
            args.deep_view() == old(args).deep_view() + option_args(all.take(i as int)),
        decreases n - i,
    {
        let ghost before = args.deep_view();
        let flag = String::from_str("--").concat(options.key_at(i).as_str());
        let value = options.value_at(i).clone();
        push_arg(args, flag);
        push_arg(args, value);
        proof {
            let next = all.take(i + 1);
            assert(next.drop_last() =~= all.take(i as int));
            assert(next.last() == all[i as int]);
            assert(before + seq![flag@] + seq![value@] =~= old(args).deep_view() + (option_args(
                all.take(i as int),
            ) + seq![flag@, value@]));
        }
        i += 1;
    }
    assert(all.take(n as int) =~= all);
}

/// Holds the names of the options to their grammar, in order.
fn validate_options(options: &StringMap<String>) -> (r: Result<(), AppError>)
    ensures
        match r {
            Ok(_) => option_complaint(text_entries(options@)) is None,
            Err(e) => option_complaint(text_entries(options@)) == Some(e@),
        },
{
    let n = options.len();
    let ghost all = text_entries(options@);
    let mut i: usize = 0;
    assert(all.take(0) =~= Seq::<(Seq<char>, Seq<char>)>::empty());
    while i < n
        invariant
            i <= n,
            n == options@.len(),
            all == text_entries(options@),
            option_complaint(all.take(i as int)) is None,
        decreases n - i,
    {
        let checked = validate_option_key(options.key_at(i).as_str());
        proof {
            let next = all.take(i + 1);
            assert(next.drop_last() =~= all.take(i as int));
            assert(next.last() == all[i as int]);
        }
        if let Err(e) = checked {
            proof {
                lemma_option_complaint_stays(all, i + 1);
            }
            return Err(e);
        }
        i += 1;
    }
    assert(all.take(n as int) =~= all);
    Ok(())
}

/// A failure among the first `k` options is the failure of them all.
proof fn lemma_option_complaint_stays(options: Seq<(Seq<char>, Seq<char>)>, k: int)
    requires
        0 <= k <= options.len(),
        option_complaint(options.take(k)) is Some,
    ensures
        option_complaint(options) == option_complaint(options.take(k)),
    decreases options.len() - k,
{
    if k < options.len() {
        let next = options.take(k + 1);
        assert(next.drop_last() =~= options.take(k));
        lemma_option_complaint_stays(options, k + 1);
    } else {
        assert(options.take(k) =~= options);
    }
}

impl DatabaseConnector {
    /// The arguments that every session begins with: `exec -it`, the
    /// container, the client.
    fn session_prefix(connection: &DatabaseConnection, client: &str) -> (args: Vec<String>)
        ensures
            args.deep_view() == seq!["exec"@, "-it"@, connection.container@, client@],
    {
        let mut args = no_args();
        push_arg(&mut args, String::from_str("exec"));
        push_arg(&mut args, String::from_str("-it"));
        push_arg(&mut args, connection.container.clone());
        push_arg(&mut args, String::from_str(client));
        assert(args.deep_view() =~= seq!["exec"@, "-it"@, connection.container@, client@]);
        args
    }

    /// The arguments that open a PostgreSQL session, after the identifiers
    /// have passed.
    fn connect_postgresql(connection: &DatabaseConnection) -> (r: Result<Vec<String>, AppError>)
        requires
            connection.db_type == DatabaseType::PostgreSQL,
        ensures
            match r {
                Ok(args) => identifier_complaint(connection@) is None && args.deep_view()
                    == session_args(connection@),
                Err(e) => identifier_complaint(connection@) == Some(e@),
            },
    {
        validate_container_name(connection.container.as_str())?;
        validate_username(connection.user.as_str())?;
        if let Some(database) = &connection.database {
            validate_database_name(database.as_str())?;
        }
        if let Some(options) = &connection.options {
            validate_options(options)?;
        }
        let mut args = Self::session_prefix(connection, "psql");
        if let Some(database) = &connection.database {
            push_arg(&mut args, String::from_str("-d"));
            push_arg(&mut args, database.clone());
        }
        push_arg(&mut args, String::from_str("-U"));
        push_arg(&mut args, connection.user.clone());
        if let Some(options) = &connection.options {
            push_option_args(&mut args, options);
        }
        assert(args.deep_view() =~= session_args(connection@));
        Ok(args)
    }

    /// The arguments that open a MySQL session, after the identifiers have
    /// passed.
    fn connect_mysql(connection: &DatabaseConnection) -> (r: Result<Vec<String>, AppError>)
        requires
            connection.db_type == DatabaseType::MySQL,
        ensures
            match r {
                Ok(args) => identifier_complaint(connection@) is None && args.deep_view()
                    == session_args(connection@),
                Err(e) => identifier_complaint(connection@) == Some(e@),
            },
    {
        validate_container_name(connection.container.as_str())?;
        validate_username(connection.user.as_str())?;
        if let Some(database) = &connection.database {
            validate_database_name(database.as_str())?;
        }
        if let Some(options) = &connection.options {
            validate_options(options)?;
        }
        let mut args = Self::session_prefix(connection, "mysql");
        if let Some(database) = &connection.database {
            push_arg(&mut args, database.clone());
        }
        push_arg(&mut args, String::from_str("-u"));
        push_arg(&mut args, connection.user.clone());
        if let Some(password) = &connection.password {
            push_arg(&mut args, String::from_str("-p").concat(password.as_str()));
        }
        if let Some(options) = &connection.options {
            push_option_args(&mut args, options);
        }
        assert(args.deep_view() =~= session_args(connection@));
        Ok(args)
    }

    /// The arguments that open a MongoDB session, after the identifiers have
    /// passed.
    fn connect_mongodb(connection: &DatabaseConnection) -> (r: Result<Vec<String>, AppError>)
        requires
            connection.db_type == DatabaseType::MongoDB,
        ensures
            match r {
                Ok(args) => identifier_complaint(connection@) is None && args.deep_view()
                    == session_args(connection@),
                Err(e) => identifier_complaint(connection@) == Some(e@),
            },
    {
        validate_container_name(connection.container.as_str())?;
        let with_user = !connection.user.as_str().is_empty();
        if with_user {
            validate_username(connection.user.as_str())?;
        }
        if let Some(database) = &connection.database {
            validate_database_name(database.as_str())?;
        }
        if let Some(options) = &connection.options {
            validate_options(options)?;
        }
        let mut args = Self::session_prefix(connection, "mongosh");
        if with_user {
            push_arg(&mut args, String::from_str("-u"));
            push_arg(&mut args, connection.user.clone());
            if let Some(password) = &connection.password {
                push_arg(&mut args, String::from_str("-p"));
                push_arg(&mut args, password.clone());
            }
        }
        if let Some(database) = &connection.database {
            push_arg(&mut args, database.clone());
        }
        if let Some(options) = &connection.options {
            push_option_args(&mut args, options);
        }
        assert(args.deep_view() =~= session_args(connection@));
        Ok(args)
    }

    /// The command line that opens a session for `connection`: the client of
    /// its database system, run in its container on the caller's terminal.
    /// Every identifier of the descriptor is held to its grammar first, and
    /// the first that does not fit is the failure.
    pub fn connect(connection: &DatabaseConnection) -> (r: Result<Invocation, AppError>)
        ensures
            match r {
                Ok(invocation) => identifier_complaint(connection@) is None && invocation@
                    == session_invocation(connection@),
                Err(e) => identifier_complaint(connection@) == Some(e@),
            },
    {
        let args = match connection.db_type {
            DatabaseType::PostgreSQL => Self::connect_postgresql(connection)?,
            DatabaseType::MySQL => Self::connect_mysql(connection)?,
            DatabaseType::MongoDB => Self::connect_mongodb(connection)?,
        };
        Ok(Invocation { program: String::from_str("docker"), args, interactive: true })
    }

    /// What the end of a session means: nothing where the client reported
    /// success; a failure that names the database system and the exit status
    /// where it did not; a failure with the reason where it never started.
    pub fn session_outcome(db_type: DatabaseType, outcome: &CommandOutcome) -> (r: Result<
        (),
        AppError,
    >)
        ensures
            match r {
                Ok(_) => session_failure(db_type, outcome@) is None,
                Err(e) => session_failure(db_type, outcome@) == Some(e@),
            },
    {
        match outcome {
            CommandOutcome::NotStarted(reason) => Err(AppError::Io(reason.clone())),
            CommandOutcome::Finished { success, status, stdout: _ } => {
                if *success {
                    Ok(())
                } else {
                    let text = String::from_str("Failed to connect to ").concat(
                        db_type.to_string().as_str(),
                    ).concat(" container: ").concat(status.as_str());
                    Err(AppError::Docker(text))
                }
            },
        }
    }
}

/// Where no identifier of a descriptor is complained of, each fits its
/// grammar: the container, the user (unless it is the empty user of a
/// MongoDB session), the database where one is named, and the name of every
/// option.
pub proof fn lemma_checked_identifiers(connection: ConnectionView)
    requires
        identifier_complaint(connection) is None,
    ensures
        is_container_name(connection.container),
        user_is_checked(connection) ==> is_username(connection.user),
        connection.database matches Some(database) ==> is_database_name(database),
        connection.options matches Some(options) ==> forall|i: int|
            0 <= i < options.len() ==> is_option_key((#[trigger] options[i]).0),
{
    if connection.options is Some {
        lemma_checked_options(connection.options->0);
    }
}

/// Where no option is complained of, the name of each is an option name.
pub proof fn lemma_checked_options(options: Seq<(Seq<char>, Seq<char>)>)
    requires
        option_complaint(options) is None,
    ensures
        forall|i: int| 0 <= i < options.len() ==> is_option_key((#[trigger] options[i]).0),
    decreases options.len(),
{
    if options.len() > 0 {
        let front = options.drop_last();
        lemma_checked_options(front);
        assert forall|i: int| 0 <= i < options.len() implies is_option_key(
            (#[trigger] options[i]).0,
        ) by {
            if i < front.len() {
                assert(front[i] == options[i]);
            }
        }
    }
}

/// Every session begins alike: `exec -it`, the container, the client of the
/// database system.
pub proof fn lemma_session_begins_alike(connection: ConnectionView)
    ensures
        session_args(connection).len() >= 4,
        session_args(connection).subrange(0, 4) == seq![
            "exec"@,
            "-it"@,
            connection.container,
            client_program(connection.db_type),
        ],
{
    let head = seq!["exec"@, "-it"@, connection.container, client_program(connection.db_type)];
    assert(session_args(connection).subrange(0, 4) =~= head);
}

/// A PostgreSQL session with a database and one option: the database behind
/// `-d`, then the user behind `-U`, then the option behind two hyphens with
/// its value, in that order.
pub proof fn lemma_postgresql_session(
    container: Seq<char>,
    user: Seq<char>,
    password: Option<Seq<char>>,
    database: Seq<char>,
    port: Option<u16>,
    key: Seq<char>,
    value: Seq<char>,
)
    ensures
        session_args(
            ConnectionView {
                db_type: DatabaseType::PostgreSQL,
                container,
                user,
                password,
                database: Some(database),
                port,
                options: Some(seq![(key, value)]),
            },
        ) == seq![
            "exec"@,
            "-it"@,
            container,
            "psql"@,
            "-d"@,
            database,
            "-U"@,
            user,
            "--"@ + key,
            value,
        ],
{
    let options = seq![(key, value)];
    assert(options.drop_last() =~= Seq::<(Seq<char>, Seq<char>)>::empty());
    assert(option_args(options.drop_last()) =~= Seq::<Seq<char>>::empty());
    assert(options.last() == (key, value));
    assert(option_args(options) =~= seq!["--"@ + key, value]);
    let connection = ConnectionView {
        db_type: DatabaseType::PostgreSQL,
        container,
        user,
        password,
        database: Some(database),
        port,
        options: Some(options),
    };
    assert(session_args(connection) =~= seq![
        "exec"@,
        "-it"@,
        container,
        "psql"@,
        "-d"@,
        database,
        "-U"@,
        user,
        "--"@ + key,
        value,
    ]);
}

/// A MySQL session gives the password in one argument with `-p`, with
/// nothing between the two, directly after the user.
pub proof fn lemma_mysql_password_is_one_argument(connection: ConnectionView)
    requires
        connection.db_type == DatabaseType::MySQL,
        connection.password is Some,
    ensures
        credential_args(connection).last() == "-p"@ + connection.password->0,
        credential_args(connection)[credential_args(connection).len() - 2] == connection.user,
{
}

/// A MongoDB session without a user gives no credentials, whatever the
/// password is: the database is all that is named.
pub proof fn lemma_mongodb_without_user(connection: ConnectionView)
    requires
        connection.db_type == DatabaseType::MongoDB,
        connection.user.len() == 0,
    ensures
        credential_args(connection) == match connection.database {
            Some(database) => seq![database],
            None => Seq::<Seq<char>>::empty(),
        },
{
    assert(credential_args(connection) =~= match connection.database {
        Some(database) => seq![database],
        None => Seq::<Seq<char>>::empty(),
    });
}

} // verus!
