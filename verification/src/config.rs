//! Database types, connection descriptors, and the store of aliases.

use crate::error::{AppError, AppErrorView};
use crate::string_map::{
    distinct_keys, has_key, index_of_key, lemma_index_of_key, lemma_upsert, lemma_without, lookup,
    upsert, without, StringMap,
};
use crate::text::{lowercase, str_eq, to_lowercase};
use vstd::prelude::*;

verus! {

/// The database systems that the library knows.
#[derive(Debug, Clone, Copy, PartialEq, Eq, Structural)]
pub enum DatabaseType {
    /// PostgreSQL.
    PostgreSQL,
    /// MySQL, and MariaDB with it.
    MySQL,
    /// MongoDB.
    MongoDB,
}

impl DatabaseType {
    /// The name of the database system, as shown to the user.
    pub open spec fn name(self) -> Seq<char> {
        match self {
            DatabaseType::PostgreSQL => "PostgreSQL"@,
            DatabaseType::MySQL => "MySQL"@,
            DatabaseType::MongoDB => "MongoDB"@,
        }
    }

    /// The database system that a text in lower case names, if any.
    pub open spec fn named(lower: Seq<char>) -> Option<DatabaseType> {
        if lower == "postgresql"@ || lower == "postgres"@ || lower == "psql"@ {
            Some(DatabaseType::PostgreSQL)
        } else if lower == "mysql"@ || lower == "mariadb"@ {
            Some(DatabaseType::MySQL)
        } else if lower == "mongodb"@ || lower == "mongo"@ {
            Some(DatabaseType::MongoDB)
        } else {
            None
        }
    }

    /// What parsing `s` gives: the database system that the lowercase form
    /// of `s` names, or the failure that carries `s`.
    pub open spec fn parsed(s: Seq<char>) -> Result<DatabaseType, AppErrorView> {
        match DatabaseType::named(lowercase(s)) {
            Some(db_type) => Ok(db_type),
            None => Err(AppErrorView::UnknownDatabaseType(s)),
        }
    }

    /// The name of the database system, as shown to the user.
    pub fn to_string(&self) -> (s: String)
        ensures
            s@ == self.name(),
    {
        match self {
            DatabaseType::PostgreSQL => String::from_str("PostgreSQL"),
            DatabaseType::MySQL => String::from_str("MySQL"),
            DatabaseType::MongoDB => String::from_str("MongoDB"),
        }
    }

    /// The database system that `lower`, a text in lower case, names.
    pub fn from_lowercase(lower: &str) -> (r: Option<DatabaseType>)
        ensures
            r == DatabaseType::named(lower@),
    {
        if str_eq(lower, "postgresql") || str_eq(lower, "postgres") || str_eq(lower, "psql") {
            Some(DatabaseType::PostgreSQL)
        } else if str_eq(lower, "mysql") || str_eq(lower, "mariadb") {
            Some(DatabaseType::MySQL)
        } else if str_eq(lower, "mongodb") || str_eq(lower, "mongo") {
            Some(DatabaseType::MongoDB)
        } else {
            None
        }
    }

    /// Parses the name of a database system, in any mix of upper and lower
    /// case. A text that names none is a failure that carries the text.
    pub fn from_str(s: &str) -> (r: Result<DatabaseType, AppError>)
        ensures
            match r {
                Ok(db_type) => DatabaseType::parsed(s@) == Ok::<DatabaseType, AppErrorView>(
                    db_type,
                ),
                Err(e) => DatabaseType::parsed(s@) == Err::<DatabaseType, AppErrorView>(e@),
            },
    {
        let lower = to_lowercase(s);
        match DatabaseType::from_lowercase(lower.as_str()) {
            Some(db_type) => Ok(db_type),
            None => Err(AppError::UnknownDatabaseType(String::from_str(s))),
        }
    }
}

/// The entries of a map of texts, each value taken as its sequence of
/// characters.
pub open spec fn text_entries(entries: Seq<(Seq<char>, String)>) -> Seq<(Seq<char>, Seq<char>)> {
    Seq::new(entries.len(), |i: int| (entries[i].0, entries[i].1@))
}

/// The characters of a text that may be absent.
pub open spec fn text_of(value: Option<String>) -> Option<Seq<char>> {
    match value {
        Some(text) => Some(text@),
        None => None,
    }
}

/// Looking a key up among the texts gives the text of what is stored under
/// it.
pub proof fn lemma_text_lookup(entries: Seq<(Seq<char>, String)>, key: Seq<char>)
    requires
        distinct_keys(entries),
    ensures
        distinct_keys(text_entries(entries)),
        has_key(text_entries(entries), key) == has_key(entries, key),
        lookup(text_entries(entries), key) == text_of(lookup(entries, key)),
{
    let texts = text_entries(entries);
    assert forall|i: int, j: int| 0 <= i < j < texts.len() implies (#[trigger] texts[i]).0 != (
    #[trigger] texts[j]).0 by {
        assert(entries[i].0 != entries[j].0);
    }
    if has_key(entries, key) {
        let i = index_of_key(entries, key);
        assert(0 <= i < entries.len() && entries[i].0 == key);
        assert(texts[i].0 == key);
        lemma_index_of_key(texts, i);
    } else if has_key(texts, key) {
        let i = index_of_key(texts, key);
        assert(0 <= i < texts.len() && texts[i].0 == key);
        assert(entries[i].0 == key);
    }
}

/// What is needed to open a session: the database system, the container,
/// the credentials, and what else the client is to be told.
#[derive(Debug)]
pub struct DatabaseConnection {
    /// The database system.
    pub db_type: DatabaseType,
    /// The name of the container.
    pub container: String,
    /// The user to log in as.
    pub user: String,
    /// The password, if one is to be given.
    pub password: Option<String>,
    /// The database to open, if one is named.
    pub database: Option<String>,
    /// The port, if one is named.
    pub port: Option<u16>,
    /// Further options for the client, by name.
    pub options: Option<StringMap<String>>,
}

/// The mathematical value of a [`DatabaseConnection`].
pub ghost struct ConnectionView {
    pub db_type: DatabaseType,
    pub container: Seq<char>,
    pub user: Seq<char>,
    pub password: Option<Seq<char>>,
    pub database: Option<Seq<char>>,
    pub port: Option<u16>,
    pub options: Option<Seq<(Seq<char>, Seq<char>)>>,
}

impl View for DatabaseConnection {
    type V = ConnectionView;

    open spec fn view(&self) -> ConnectionView {
        ConnectionView {
            db_type: self.db_type,
            container: self.container@,
            user: self.user@,
            password: text_of(self.password),
            database: text_of(self.database),
            port: self.port,
            options: match self.options {
                Some(options) => Some(text_entries(options@)),
                None => None,
            },
        }
    }
}

impl Clone for DatabaseConnection {
    /// A descriptor with the same value.
    fn clone(&self) -> (copy: Self)
        ensures
            copy@ == self@,
    {
        let options = match &self.options {
            Some(options) => {
                let copied = options.clone();
                assert(text_entries(copied@) =~= text_entries(options@));
                Some(copied)
            },
            None => None,
        };
        DatabaseConnection {
            db_type: self.db_type,
            container: self.container.clone(),
            user: self.user.clone(),
            password: self.password.clone(),
            database: self.database.clone(),
            port: self.port,
            options,
        }
    }
}

/// The version that a new store is tagged with.
pub open spec fn store_version() -> Seq<char> {
    "0.1.0"@
}

/// The store of aliases: connection descriptors by name, tagged with a
/// version.
#[derive(Debug)]
pub struct Config {
    /// The version of the store's layout.
    pub version: String,
    /// The connection descriptors, by alias.
    pub connections: StringMap<DatabaseConnection>,
}

/// The mathematical value of a [`Config`]: the version, and the aliases with
/// the values of their descriptors, in the order of the store.
pub ghost struct ConfigView {
    pub version: Seq<char>,
    pub connections: Seq<(Seq<char>, ConnectionView)>,
}

impl View for Config {
    type V = ConfigView;

    open spec fn view(&self) -> ConfigView {
        ConfigView {
            version: self.version@,
            connections: Seq::new(
                self.connections@.len(),
                |i: int| (self.connections@[i].0, self.connections@[i].1@),
            ),
        }
    }
}

impl Clone for Config {
    /// A store with the same value.
    fn clone(&self) -> (copy: Self)
        ensures
            copy@ == self@,
    {
        let connections = self.connections.clone();
        let copy = Config { version: self.version.clone(), connections };
        assert(copy@.connections =~= self@.connections);
        copy
    }
}

impl Default for Config {
    /// The empty store.
    fn default() -> (config: Self)
        ensures
            config@ == (ConfigView { version: store_version(), connections: Seq::empty() }),
            config.connections@.len() == 0,
    {
        let config = Config { version: String::from_str("0.1.0"), connections: StringMap::new() };
        assert(config@.connections =~= Seq::empty());
        config
    }
}

impl Config {
    /// The descriptor stored under `name`, if any.
    pub open spec fn spec_get(&self, name: Seq<char>) -> Option<DatabaseConnection> {
        lookup(self.connections@, name)
    }

    /// The empty store.
    pub fn new() -> (config: Self)
        ensures
            config@ == (ConfigView { version: store_version(), connections: Seq::empty() }),
            config.connections@.len() == 0,
    {
        let config = Config { version: String::from_str("0.1.0"), connections: StringMap::new() };
        assert(config@.connections =~= Seq::empty());
        config
    }

    /// Stores `connection` under `name`, in place of what was stored under
    /// that name before. This always succeeds.
    pub fn add_connection(&mut self, name: String, connection: DatabaseConnection) -> (r: Result<
        (),
        AppError,
    >)
        ensures
            r is Ok,
            final(self).version == old(self).version,
            final(self).connections@ == upsert(old(self).connections@, name@, connection),
            final(self).spec_get(name@) == Some(connection),
    {
        self.connections.insert(name, connection);
        Ok(())
    }

    /// Takes the descriptor stored under `name` out of the store. Where none
    /// is stored under that name, the store stays as it is and the failure
    /// carries the name.
    pub fn remove_connection(&mut self, name: &str) -> (r: Result<(), AppError>)
        ensures
            r is Ok <==> has_key(old(self).connections@, name@),
            r matches Err(e) ==> e@ == AppErrorView::AliasNotFound(name@),
            final(self).version == old(self).version,
            final(self).connections@ == without(old(self).connections@, name@),
            final(self).spec_get(name@) is None,
    {
        match self.connections.remove(name) {
            Some(_) => Ok(()),
            None => Err(AppError::AliasNotFound(String::from_str(name))),
        }
    }

    /// The descriptor stored under `name`. Where none is stored under that
    /// name, the failure carries the name.
    pub fn get_connection(&self, name: &str) -> (r: Result<&DatabaseConnection, AppError>)
        ensures
            match r {
                Ok(connection) => self.spec_get(name@) == Some(*connection),
                Err(e) => self.spec_get(name@) is None && e@ == AppErrorView::AliasNotFound(name@),
            },
    {
        match self.connections.get(name) {
            Some(connection) => Ok(connection),
            None => Err(AppError::AliasNotFound(String::from_str(name))),
        }
    }

    /// The aliases with their descriptors, in the order of the store.
    pub fn list_connections(&self) -> (list: Vec<(&String, &DatabaseConnection)>)
        ensures
            list@.len() == self.connections@.len(),
            forall|i: int|
                0 <= i < list@.len() ==> (#[trigger] list@[i]).0@ == self.connections@[i].0
                    && *list@[i].1 == self.connections@[i].1,
            distinct_keys(self.connections@),
    {
        self.connections.entries()
    }
}

/// The seven names that are known, each with its database system.
pub proof fn lemma_known_names()
    ensures
        DatabaseType::named("postgresql"@) == Some(DatabaseType::PostgreSQL),
        DatabaseType::named("postgres"@) == Some(DatabaseType::PostgreSQL),
        DatabaseType::named("psql"@) == Some(DatabaseType::PostgreSQL),
        DatabaseType::named("mysql"@) == Some(DatabaseType::MySQL),
        DatabaseType::named("mariadb"@) == Some(DatabaseType::MySQL),
        DatabaseType::named("mongodb"@) == Some(DatabaseType::MongoDB),
        DatabaseType::named("mongo"@) == Some(DatabaseType::MongoDB),
{
    reveal_strlit("postgresql");
    reveal_strlit("postgres");
    reveal_strlit("psql");
    reveal_strlit("mysql");
    reveal_strlit("mariadb");
    reveal_strlit("mongodb");
    reveal_strlit("mongo");
    assert("postgresql"@[0] == 'p' && "postgres"@[0] == 'p' && "psql"@[0] == 'p');
    assert("mysql"@[0] == 'm' && "mysql"@[1] == 'y');
    assert("mariadb"@[0] == 'm' && "mariadb"@[1] == 'a');
    assert("mongodb"@[0] == 'm' && "mongodb"@[1] == 'o' && "mongodb"@.len() == 7);
    assert("mongo"@[0] == 'm' && "mongo"@[1] == 'o' && "mongo"@.len() == 5);
}

/// Parsing succeeds exactly on the texts whose lowercase form is one of the
/// seven names. Every other text is a failure that carries the text.
pub proof fn lemma_unknown_names_fail(s: Seq<char>)
    ensures
        DatabaseType::parsed(s) is Ok <==> {
            let lower = lowercase(s);
            lower == "postgresql"@ || lower == "postgres"@ || lower == "psql"@ || lower
                == "mysql"@ || lower == "mariadb"@ || lower == "mongodb"@ || lower == "mongo"@
        },
        DatabaseType::parsed(s) is Err ==> DatabaseType::parsed(s) == Err::<
            DatabaseType,
            AppErrorView,
        >(AppErrorView::UnknownDatabaseType(s)),
        lowercase(s) == "psql"@ || lowercase(s) == "postgres"@ || lowercase(s) == "postgresql"@
            ==> DatabaseType::parsed(s) == Ok::<DatabaseType, AppErrorView>(
            DatabaseType::PostgreSQL,
        ),
{
}

/// An alias that was taken out of a store is gone from it: nothing is found
/// under it, and taking it out again is a failure that leaves the store as
/// it is.
pub proof fn lemma_removed_alias_is_gone(
    entries: Seq<(Seq<char>, DatabaseConnection)>,
    name: Seq<char>,
)
    requires
        distinct_keys(entries),
    ensures
        !has_key(without(entries, name), name),
        lookup(without(entries, name), name) is None,
        without(without(entries, name), name) == without(entries, name),
{
    lemma_without(entries, name);
}

/// What was stored under an alias is what is found under it, and what is
/// found under every other alias is what was found before.
pub proof fn lemma_stored_alias_is_found(
    entries: Seq<(Seq<char>, DatabaseConnection)>,
    name: Seq<char>,
    connection: DatabaseConnection,
    other: Seq<char>,
)
    requires
        distinct_keys(entries),
    ensures
        lookup(upsert(entries, name, connection), name) == Some(connection),
        other != name ==> lookup(upsert(entries, name, connection), other) == lookup(
            entries,
            other,
        ),
        distinct_keys(upsert(entries, name, connection)),
{
    lemma_upsert(entries, name, connection);
}

} // verus!
