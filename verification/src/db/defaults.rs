//! What to propose for a container: the user, the database and the password
//! that its environment tells of.

use crate::config::{text_entries, text_of, DatabaseType};
use crate::db::{
    no_args, push_arg, query, query_of, CommandOutcome, DatabaseConnector, Invocation,
    OutcomeView,
};
use crate::error::{AppError, AppErrorView};
use crate::string_map::{distinct_keys, has_key, lemma_upsert, lookup, StringMap};
use crate::text::{chars_of, find_char, first_index, lines, split_lines, str_eq};
use crate::validation::{validate_container_name, Grammar};
use vstd::prelude::*;

verus! {

/// The arguments that print the environment of a container's processes.
pub open spec fn inspection_args(container: Seq<char>) -> Seq<Seq<char>> {
    seq!["exec"@, container, "env"@]
}

/// Whether a variable of the environment may be read.
pub open spec fn is_allowed_variable(name: Seq<char>) -> bool {
    ||| name == "POSTGRES_USER"@
    ||| name == "POSTGRESQL_USER"@
    ||| name == "POSTGRES_DB"@
    ||| name == "POSTGRESQL_DATABASE"@
    ||| name == "POSTGRES_PASSWORD"@
    ||| name == "POSTGRESQL_PASSWORD"@
    ||| name == "MYSQL_DATABASE"@
    ||| name == "MYSQL_ROOT_PASSWORD"@
    ||| name == "MYSQL_USER"@
    ||| name == "MYSQL_PASSWORD"@
    ||| name == "MONGO_INITDB_ROOT_USERNAME"@
    ||| name == "MONGO_INITDB_DATABASE"@
    ||| name == "MONGO_INITDB_ROOT_PASSWORD"@
}

/// The variable and the value that a line of the form `NAME=VALUE` sets: what
/// stands before the first equals sign, and what stands after it.
pub open spec fn assignment(line: Seq<char>) -> Option<(Seq<char>, Seq<char>)> {
    let i = first_index(line, '=');
    if 0 <= i < line.len() {
        Some((line.take(i), line.skip(i + 1)))
    } else {
        None
    }
}

/// The value that the lines set a variable to: that of the last line that
/// sets it.
pub open spec fn variable(listing: Seq<Seq<char>>, name: Seq<char>) -> Option<Seq<char>>
    decreases listing.len(),
{
    if listing.len() == 0 {
        None
    } else {
        match assignment(listing.last()) {
            Some((key, value)) => if key == name {
                Some(value)
            } else {
                variable(listing.drop_last(), name)
            },
            None => variable(listing.drop_last(), name),
        }
    }
}

/// The value that the lines set a variable to, where the variable may be
/// read.
pub open spec fn allowed_variable(listing: Seq<Seq<char>>, name: Seq<char>) -> Option<Seq<char>> {
    if is_allowed_variable(name) {
        variable(listing, name)
    } else {
        None
    }
}

/// The text stored under `name` in a map of texts.
pub open spec fn setting(entries: Seq<(Seq<char>, String)>, name: Seq<char>) -> Option<Seq<char>> {
    text_of(lookup(entries, name))
}

/// The first of two values that is there.
pub open spec fn or_else(first: Option<Seq<char>>, second: Option<Seq<char>>) -> Option<
    Seq<char>,
> {
    if first is Some {
        first
    } else {
        second
    }
}

/// The user to propose for a container, given its environment.
pub open spec fn default_user(
    db_type: DatabaseType,
    environment: spec_fn(Seq<char>) -> Option<Seq<char>>,
) -> Seq<char> {
    match db_type {
        DatabaseType::PostgreSQL => match or_else(
            environment("POSTGRES_USER"@),
            environment("POSTGRESQL_USER"@),
        ) {
            Some(user) => user,
            None => "postgres"@,
        },
        DatabaseType::MySQL => "root"@,
        DatabaseType::MongoDB => match environment("MONGO_INITDB_ROOT_USERNAME"@) {
            Some(user) => user,
            None => "root"@,
        },
    }
}

/// The database to propose for a container, given its environment.
pub open spec fn default_database(
    db_type: DatabaseType,
    environment: spec_fn(Seq<char>) -> Option<Seq<char>>,
) -> Option<Seq<char>> {
    match db_type {
        DatabaseType::PostgreSQL => or_else(
            or_else(environment("POSTGRES_DB"@), environment("POSTGRESQL_DATABASE"@)),
            Some("postgres"@),
        ),
        DatabaseType::MySQL => environment("MYSQL_DATABASE"@),
        DatabaseType::MongoDB => or_else(environment("MONGO_INITDB_DATABASE"@), Some("admin"@)),
    }
}

/// The password to propose for a container, given its environment.
pub open spec fn default_password(
    db_type: DatabaseType,
    environment: spec_fn(Seq<char>) -> Option<Seq<char>>,
) -> Option<Seq<char>> {
    match db_type {
        DatabaseType::PostgreSQL => or_else(
            environment("POSTGRES_PASSWORD"@),
            environment("POSTGRESQL_PASSWORD"@),
        ),
        DatabaseType::MySQL => environment("MYSQL_ROOT_PASSWORD"@),
        DatabaseType::MongoDB => environment("MONGO_INITDB_ROOT_PASSWORD"@),
    }
}

/// One entry under `key`, or none.
pub open spec fn entry_if(key: Seq<char>, value: Option<Seq<char>>) -> Seq<(Seq<char>, Seq<char>)> {
    match value {
        Some(text) => seq![(key, text)],
        None => seq![],
    }
}

/// What to propose for a container, given its environment: the user under
/// `user`, then the database under `database` and the password under
/// `password`, each where there is one.
pub open spec fn defaults_from(
    db_type: DatabaseType,
    environment: spec_fn(Seq<char>) -> Option<Seq<char>>,
) -> Seq<(Seq<char>, Seq<char>)> {
    seq![("user"@, default_user(db_type, environment))] + entry_if(
        "database"@,
        default_database(db_type, environment),
    ) + entry_if("password"@, default_password(db_type, environment))
}

/// What an inspection of a container's environment gives: the failure where
/// the name is no container name; nothing where the inspection was not had;
/// else what to propose, from the variables that may be read.
pub open spec fn default_settings(
    name: Seq<char>,
    db_type: DatabaseType,
    outcome: OutcomeView,
) -> Result<Seq<(Seq<char>, Seq<char>)>, AppErrorView> {
    if Grammar::ContainerName.verdict(name) is Some {
        Err(Grammar::ContainerName.verdict(name)->0)
    } else {
        match outcome {
            OutcomeView::NotStarted(_) => Ok(seq![]),
            OutcomeView::Finished { success, status, stdout } => if success {
                Ok(
                    defaults_from(
                        db_type,
                        |variable: Seq<char>| allowed_variable(lines(stdout), variable),
                    ),
                )
            } else {
                Ok(seq![])
            },
        }
    }
}

impl DatabaseConnector {
    /// The command that prints the environment of the processes of the
    /// container `container_name`. The name is held to its grammar first.
    pub fn inspect_command(container_name: &str) -> (r: Result<Invocation, AppError>)
        ensures
            match r {
                Ok(invocation) => Grammar::ContainerName.verdict(container_name@) is None
                    && invocation@ == query(inspection_args(container_name@)),
                Err(e) => Grammar::ContainerName.verdict(container_name@) == Some(e@),
            },
    {
        validate_container_name(container_name)?;
        let mut args = no_args();
        push_arg(&mut args, String::from_str("exec"));
        push_arg(&mut args, String::from_str(container_name));
        push_arg(&mut args, String::from_str("env"));
        assert(args.deep_view() =~= inspection_args(container_name@));
        Ok(query_of(args))
    }

    /// Whether a variable of the environment may be read.
    fn variable_is_allowed(name: &str) -> (r: bool)
        ensures
            r == is_allowed_variable(name@),
    {
        str_eq(name, "POSTGRES_USER") || str_eq(name, "POSTGRESQL_USER") || str_eq(
            name,
            "POSTGRES_DB",
        ) || str_eq(name, "POSTGRESQL_DATABASE") || str_eq(name, "POSTGRES_PASSWORD") || str_eq(
            name,
            "POSTGRESQL_PASSWORD",
        ) || str_eq(name, "MYSQL_DATABASE") || str_eq(name, "MYSQL_ROOT_PASSWORD") || str_eq(
            name,
            "MYSQL_USER",
        ) || str_eq(name, "MYSQL_PASSWORD") || str_eq(name, "MONGO_INITDB_ROOT_USERNAME")
            || str_eq(name, "MONGO_INITDB_DATABASE") || str_eq(name, "MONGO_INITDB_ROOT_PASSWORD")
    }

    /// The variable and the value that a line of the form `NAME=VALUE` sets.
    fn split_assignment(line: &str) -> (r: Option<(String, String)>)
        ensures
            match r {
                Some((key, value)) => assignment(line@) == Some((key@, value@)),
                None => assignment(line@) is None,
            },
    {
        let chars = chars_of(line);
        let n = chars.len();
        let at = find_char(&chars, 0, '=');
        assert(chars@.skip(0) =~= chars@);
        if at < n {
            let key = String::from_str(line.substring_char(0, at));
            let value = String::from_str(line.substring_char(at + 1, n));
            assert(key@ =~= line@.take(at as int));
            assert(value@ =~= line@.skip(at + 1));
            Some((key, value))
        } else {
            None
        }
    }

    /// The variables that may be read, out of the text of an environment
    /// with one `NAME=VALUE` to a line. What the text sets of other variables
    /// is left out. Where several lines set one variable, the last counts.
    pub fn allowed_environment(text: &str) -> (environment: StringMap<String>)
        ensures
            distinct_keys(environment@),
            forall|name: Seq<char>| #[trigger]
                setting(environment@, name) == allowed_variable(lines(text@), name),
    {
        let listing = split_lines(text);
        let n = listing.len();
        let ghost all = lines(text@);
        let mut environment: StringMap<String> = StringMap::new();
        let mut i: usize = 0;
        assert(all.take(0) =~= Seq::<Seq<char>>::empty());
        while i < n
            invariant
                i <= n,
                n == listing@.len(),
                all == lines(text@),
                listing.deep_view() == all,
                distinct_keys(environment@),
                forall|name: Seq<char>| #[trigger]
                    setting(environment@, name) == allowed_variable(all.take(i as int), name),
            decreases n - i,
        {
            assert(listing.deep_view()[i as int] == listing@[i as int]@);
            let ghost before = environment@;
            proof {
                let next = all.take(i + 1);
                assert(next.drop_last() =~= all.take(i as int));
                assert(next.last() == all[i as int]);
            }
            match Self::split_assignment(listing[i].as_str()) {
                Some((key, value)) => {
                    if Self::variable_is_allowed(key.as_str()) {
                        proof {
                            lemma_upsert(before, key@, value);
                        }
                        environment.insert(key, value);
                        assert forall|name: Seq<char>| #[trigger]
                            setting(environment@, name) == allowed_variable(
                                all.take(i + 1),
                                name,
                            ) by {
                            if name != key@ {
                                assert(setting(before, name) == allowed_variable(
                                    all.take(i as int),
                                    name,
                                ));
                            }
                        }
                    } else {
                        assert forall|name: Seq<char>| #[trigger]
                            setting(environment@, name) == allowed_variable(
                                all.take(i + 1),
                                name,
                            ) by {
                            assert(setting(before, name) == allowed_variable(
                                all.take(i as int),
                                name,
                            ));
                        }
                    }
                },
                None => {
                    assert forall|name: Seq<char>| #[trigger]
                        setting(environment@, name) == allowed_variable(all.take(i + 1), name) by {
                        assert(setting(before, name) == allowed_variable(all.take(i as int), name));
                    }
                },
            }
            i += 1;
        }
        assert(all.take(n as int) =~= all);
        environment
    }

    /// The text stored under `name`, if any.
    fn setting_of(environment: &StringMap<String>, name: &str) -> (r: Option<String>)
        ensures
            text_of(r) == setting(environment@, name@),
    {
        match environment.get(name) {
            Some(value) => Some(value.clone()),
            None => None,
        }
    }

    /// The first of two values that is there.
    fn first_of(first: Option<String>, second: Option<String>) -> (r: Option<String>)
        ensures
            text_of(r) == or_else(text_of(first), text_of(second)),
    {
        match first {
            Some(value) => Some(value),
            None => second,
        }
    }

    /// The user to propose.
    fn user_for(db_type: DatabaseType, environment: &StringMap<String>) -> (user: String)
        ensures
            user@ == default_user(db_type, |name: Seq<char>| setting(environment@, name)),
    {
        let found = match db_type {
            DatabaseType::PostgreSQL => Self::first_of(
                Self::setting_of(environment, "POSTGRES_USER"),
                Self::setting_of(environment, "POSTGRESQL_USER"),
            ),
            DatabaseType::MySQL => None,
            DatabaseType::MongoDB => Self::setting_of(environment, "MONGO_INITDB_ROOT_USERNAME"),
        };
        match found {
            Some(user) => user,
            None => match db_type {
                DatabaseType::PostgreSQL => String::from_str("postgres"),
                DatabaseType::MySQL => String::from_str("root"),
                DatabaseType::MongoDB => String::from_str("root"),
            },
        }
    }

    /// The database to propose, if any.
    fn database_for(db_type: DatabaseType, environment: &StringMap<String>) -> (database: Option<
        String,
    >)
        ensures
            text_of(database) == default_database(
                db_type,
                |name: Seq<char>| setting(environment@, name),
            ),
    {
        match db_type {
            DatabaseType::PostgreSQL => Self::first_of(
                Self::first_of(
                    Self::setting_of(environment, "POSTGRES_DB"),
                    Self::setting_of(environment, "POSTGRESQL_DATABASE"),
                ),
                Some(String::from_str("postgres")),
            ),
            DatabaseType::MySQL => Self::setting_of(environment, "MYSQL_DATABASE"),
            DatabaseType::MongoDB => Self::first_of(
                Self::setting_of(environment, "MONGO_INITDB_DATABASE"),
                Some(String::from_str("admin")),
            ),
        }
    }

    /// The password to propose, if any.
    fn password_for(db_type: DatabaseType, environment: &StringMap<String>) -> (password: Option<
        String,
    >)
        ensures
            text_of(password) == default_password(
                db_type,
                |name: Seq<char>| setting(environment@, name),
            ),
    {
        match db_type {
            DatabaseType::PostgreSQL => Self::first_of(
                Self::setting_of(environment, "POSTGRES_PASSWORD"),
                Self::setting_of(environment, "POSTGRESQL_PASSWORD"),
            ),
            DatabaseType::MySQL => Self::setting_of(environment, "MYSQL_ROOT_PASSWORD"),
            DatabaseType::MongoDB => Self::setting_of(environment, "MONGO_INITDB_ROOT_PASSWORD"),
        }
    }

    /// What to propose for a container of the database system `db_type`,
    /// given the variables of its environment: the user, and the database
    /// and the password where there is one, under the names `user`,
    /// `database` and `password`. Where the environment names no user, the
    /// usual one of the database system is proposed.
    pub fn default_connection(db_type: DatabaseType, environment: &StringMap<String>) -> (defaults:
        StringMap<String>)
        ensures
            text_entries(defaults@) == defaults_from(
                db_type,
                |name: Seq<char>| setting(environment@, name),
            ),
    {
        let user = Self::user_for(db_type, environment);
        let database = Self::database_for(db_type, environment);
        let password = Self::password_for(db_type, environment);
        proof {
            reveal_strlit("user");
            reveal_strlit("database");
            reveal_strlit("password");
            assert("user"@.len() == 4 && "database"@.len() == 8 && "password"@.len() == 8);
            assert("database"@[0] == 'd' && "password"@[0] == 'p');
        }
        let ghost first = seq![("user"@, user@)];
        let ghost second = entry_if("database"@, text_of(database));
        let ghost third = entry_if("password"@, text_of(password));
        let mut defaults: StringMap<String> = StringMap::new();
        defaults.insert(String::from_str("user"), user);
        assert(text_entries(defaults@) =~= first);
        if let Some(value) = database {
            assert(!has_key(defaults@, "database"@));
            defaults.insert(String::from_str("database"), value);
        }
        assert(text_entries(defaults@) =~= first + second);
        if let Some(value) = password {
            assert(!has_key(defaults@, "password"@));
            defaults.insert(String::from_str("password"), value);
        }
        assert(text_entries(defaults@) =~= first + second + third);
        defaults
    }

    /// What to propose for the container `container_name` of the database
    /// system `db_type`, going by the environment that `outcome` holds. Only
    /// the variables that may be read count. Where the environment was not
    /// had, nothing is proposed, and that is no failure. A name that is no
    /// container name is one.
    pub fn get_container_default_connection(
        container_name: &str,
        db_type: &DatabaseType,
        outcome: &CommandOutcome,
    ) -> (r: Result<StringMap<String>, AppError>)
        ensures
            match r {
                Ok(defaults) => default_settings(container_name@, *db_type, outcome@) == Ok::<
                    Seq<(Seq<char>, Seq<char>)>,
                    AppErrorView,
                >(text_entries(defaults@)),
                Err(e) => default_settings(container_name@, *db_type, outcome@) == Err::<
                    Seq<(Seq<char>, Seq<char>)>,
                    AppErrorView,
                >(e@),
            },
    {
        validate_container_name(container_name)?;
        match outcome {
            CommandOutcome::NotStarted(_) => {
                let defaults: StringMap<String> = StringMap::new();
                assert(text_entries(defaults@) =~= Seq::<(Seq<char>, Seq<char>)>::empty());
                Ok(defaults)
            },
            CommandOutcome::Finished { success, status: _, stdout } => {
                if !*success {
                    let defaults: StringMap<String> = StringMap::new();
                    assert(text_entries(defaults@) =~= Seq::<(Seq<char>, Seq<char>)>::empty());
                    return Ok(defaults);
                }
                let environment = Self::allowed_environment(stdout.as_str());
                let defaults = Self::default_connection(*db_type, &environment);
                proof {
                    let read = |name: Seq<char>| setting(environment@, name);
                    let told = |name: Seq<char>| allowed_variable(lines(stdout@), name);
                    assert(defaults_from(*db_type, read) =~= defaults_from(*db_type, told));
                }
                Ok(defaults)
            },
        }
    }
}

/// Only the variables that may be read count: two environments that set
/// those alike give the same proposals, whatever else they set.
pub proof fn lemma_other_variables_are_ignored(
    db_type: DatabaseType,
    first: Seq<Seq<char>>,
    second: Seq<Seq<char>>,
)
    requires
        forall|name: Seq<char>|
            is_allowed_variable(name) ==> #[trigger] variable(first, name) == variable(
                second,
                name,
            ),
    ensures
        defaults_from(db_type, |name: Seq<char>| allowed_variable(first, name)) == defaults_from(
            db_type,
            |name: Seq<char>| allowed_variable(second, name),
        ),
{
    let one = |name: Seq<char>| allowed_variable(first, name);
    let other = |name: Seq<char>| allowed_variable(second, name);
    assert(default_user(db_type, one) == default_user(db_type, other));
    assert(default_database(db_type, one) == default_database(db_type, other));
    assert(default_password(db_type, one) == default_password(db_type, other));
}

/// A line that sets a variable that may not be read changes nothing of what
/// the environment is taken to set.
pub proof fn lemma_forbidden_variable_is_dropped(
    listing: Seq<Seq<char>>,
    line: Seq<char>,
    name: Seq<char>,
)
    requires
        assignment(line) matches Some((key, _)) && !is_allowed_variable(key),
    ensures
        allowed_variable(listing.push(line), name) == allowed_variable(listing, name),
{
    assert(listing.push(line).drop_last() =~= listing);
}

/// Where the environment names no user, the usual one of the database
/// system is proposed: `postgres` for PostgreSQL, `root` for MySQL and for
/// MongoDB. MySQL is proposed `root` whatever the environment names.
pub proof fn lemma_usual_user_is_proposed(
    db_type: DatabaseType,
    environment: spec_fn(Seq<char>) -> Option<Seq<char>>,
)
    requires
        db_type == DatabaseType::PostgreSQL ==> environment("POSTGRES_USER"@) is None
            && environment("POSTGRESQL_USER"@) is None,
        db_type == DatabaseType::MongoDB ==> environment("MONGO_INITDB_ROOT_USERNAME"@) is None,
    ensures
        defaults_from(db_type, environment)[0] == (
            "user"@,
            match db_type {
                DatabaseType::PostgreSQL => "postgres"@,
                DatabaseType::MySQL => "root"@,
                DatabaseType::MongoDB => "root"@,
            },
        ),
{
}

} // verus!
