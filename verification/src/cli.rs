//! The commands of the tool and their arguments, as plain values, and what
//! they say about the connection to use.

use crate::config::{text_of, Config, ConnectionView, DatabaseConnection, DatabaseType};
use crate::error::{AppError, AppErrorView};
use crate::string_map::lookup;
use vstd::prelude::*;

verus! {

/// What was asked of the tool.
#[derive(Debug)]
pub struct Cli {
    /// The command.
    pub command: Commands,
}

/// The commands.
#[derive(Debug)]
pub enum Commands {
    /// Open a session in a database container.
    Connect(ConnectArgs),
    /// Store a connection under an alias.
    Add(AddArgs),
    /// Take a stored connection out.
    Remove(RemoveArgs),
    /// Show the stored connections.
    List,
}

/// The arguments of `connect`.
#[derive(Debug)]
pub struct ConnectArgs {
    /// The alias of a stored connection. Without it, container, database
    /// type and user are needed.
    pub alias: Option<String>,
    /// The name of the container.
    pub container: Option<String>,
    /// The database type, by name.
    pub db_type: Option<String>,
    /// The user.
    pub user: Option<String>,
    /// The password.
    pub password: Option<String>,
    /// The database.
    pub database: Option<String>,
    /// The port.
    pub port: Option<u16>,
}

/// The arguments of `add`.
#[derive(Debug)]
pub struct AddArgs {
    /// The alias to store the connection under.
    pub alias: Option<String>,
    /// The name of the container.
    pub container: Option<String>,
    /// The database type, by name.
    pub db_type: Option<String>,
    /// The user.
    pub user: Option<String>,
    /// The password.
    pub password: Option<String>,
    /// The database.
    pub database: Option<String>,
    /// The port.
    pub port: Option<u16>,
    /// Whether the connection is to be asked for.
    pub interactive: bool,
    /// Whether the running containers are to be looked through first.
    pub auto_detect: bool,
}

/// The arguments of `remove`.
#[derive(Debug)]
pub struct RemoveArgs {
    /// The alias of the connection to take out.
    pub alias: String,
}

/// The descriptor that explicit arguments make, with no options.
pub open spec fn explicit_connection(
    db_type: DatabaseType,
    container: Seq<char>,
    user: Seq<char>,
    password: Option<String>,
    database: Option<String>,
    port: Option<u16>,
) -> ConnectionView {
    ConnectionView {
        db_type,
        container,
        user,
        password: text_of(password),
        database: text_of(database),
        port,
        options: None,
    }
}

impl ConnectArgs {
    /// The descriptor that the arguments make: one where container, database
    /// type and user are given and the database type is known, else none.
    pub open spec fn connection(&self) -> Option<ConnectionView> {
        if self.container is Some && self.db_type is Some && self.user is Some {
            match DatabaseType::parsed(self.db_type->0@) {
                Ok(db_type) => Some(
                    explicit_connection(
                        db_type,
                        self.container->0@,
                        self.user->0@,
                        self.password,
                        self.database,
                        self.port,
                    ),
                ),
                Err(_) => None,
            }
        } else {
            None
        }
    }

    /// The descriptor that the arguments make, if they make one.
    pub fn to_connection(&self) -> (r: Option<DatabaseConnection>)
        ensures
            match r {
                Some(connection) => self.connection() == Some(connection@),
                None => self.connection() is None,
            },
    {
        match (&self.container, &self.db_type, &self.user) {
            (Some(container), Some(db_type_str), Some(user)) => {
                match DatabaseType::from_str(db_type_str.as_str()) {
                    Ok(db_type) => Some(
                        DatabaseConnection {
                            db_type,
                            container: container.clone(),
                            user: user.clone(),
                            password: self.password.clone(),
                            database: self.database.clone(),
                            port: self.port,
                            options: None,
                        },
                    ),
                    Err(_) => None,
                }
            },
            _ => None,
        }
    }

    /// The descriptor to connect with: the one stored under the alias where
    /// an alias is given, else the one that the other arguments make.
    pub open spec fn target(&self, config: &Config) -> Result<Option<ConnectionView>, AppErrorView> {
        match self.alias {
            Some(alias) => match lookup(config.connections@, alias@) {
                Some(connection) => Ok(Some(connection@)),
                None => Err(AppErrorView::AliasNotFound(alias@)),
            },
            None => Ok(self.connection()),
        }
    }

    /// The descriptor to connect with. An alias decides where one is given,
    /// and an alias under which nothing is stored is a failure. Without an
    /// alias the other arguments decide; where they make no descriptor, none
    /// is returned.
    pub fn resolve(&self, config: &Config) -> (r: Result<Option<DatabaseConnection>, AppError>)
        ensures
            match r {
                Ok(Some(connection)) => self.target(config) == Ok::<
                    Option<ConnectionView>,
                    AppErrorView,
                >(Some(connection@)),
                Ok(None) => self.target(config) == Ok::<Option<ConnectionView>, AppErrorView>(None),
                Err(e) => self.target(config) == Err::<Option<ConnectionView>, AppErrorView>(e@),
            },
    {
        match &self.alias {
            Some(alias) => {
                let stored = config.get_connection(alias.as_str())?;
                Ok(Some(stored.clone()))
            },
            None => Ok(self.to_connection()),
        }
    }
}

impl AddArgs {
    /// What the arguments give: a descriptor, or what is missing or wrong.
    /// What is missing for asking is said first, then a missing or unknown
    /// database type, then a missing container, then a missing user.
    pub open spec fn connection(&self) -> Result<ConnectionView, Seq<char>> {
        if self.interactive && (self.container is None || self.db_type is None
            || self.user is None) {
            Err("Missing required information in interactive mode"@)
        } else if self.db_type is None {
            Err("Database type not specified"@)
        } else {
            match DatabaseType::parsed(self.db_type->0@) {
                Err(e) => Err("Database type parse error: "@ + e.message()),
                Ok(db_type) => if self.container is None {
                    Err("Container name not specified"@)
                } else if self.user is None {
                    Err("Username not specified"@)
                } else {
                    Ok(
                        explicit_connection(
                            db_type,
                            self.container->0@,
                            self.user->0@,
                            self.password,
                            self.database,
                            self.port,
                        ),
                    )
                },
            }
        }
    }

    /// The descriptor that the arguments make, or what is missing or wrong.
    pub fn to_connection(&self) -> (r: Result<DatabaseConnection, String>)
        ensures
            match r {
                Ok(connection) => self.connection() == Ok::<ConnectionView, Seq<char>>(
                    connection@,
                ),
                Err(text) => self.connection() == Err::<ConnectionView, Seq<char>>(text@),
            },
    {
        if self.interactive && (self.container.is_none() || self.db_type.is_none()
            || self.user.is_none()) {
            return Err(String::from_str("Missing required information in interactive mode"));
        }
        let db_type_str = match &self.db_type {
            Some(db_type) => db_type,
            None => {
                return Err(String::from_str("Database type not specified"));
            },
        };
        let db_type = match DatabaseType::from_str(db_type_str.as_str()) {
            Ok(db_type) => db_type,
            Err(e) => {
                return Err(
                    String::from_str("Database type parse error: ").concat(
                        e.to_string().as_str(),
                    ),
                );
            },
        };
        let container = match &self.container {
            Some(container) => container.clone(),
            None => {
                return Err(String::from_str("Container name not specified"));
            },
        };
        let user = match &self.user {
            Some(user) => user.clone(),
            None => {
                return Err(String::from_str("Username not specified"));
            },
        };
        Ok(
            DatabaseConnection {
                db_type,
                container,
                user,
                password: self.password.clone(),
                database: self.database.clone(),
                port: self.port,
                options: None,
            },
        )
    }
}

/// What `add` is to do.
#[derive(Debug)]
pub enum AddPlan {
    /// Look through the running containers, then ask.
    AutoDetect,
    /// Ask for everything.
    Interactive,
    /// Store the connection under the alias.
    Store {
        /// The alias.
        alias: String,
        /// The descriptor.
        connection: DatabaseConnection,
    },
}

/// The mathematical value of an [`AddPlan`].
pub ghost enum AddPlanView {
    AutoDetect,
    Interactive,
    Store { alias: Seq<char>, connection: ConnectionView },
}

impl View for AddPlan {
    type V = AddPlanView;

    open spec fn view(&self) -> AddPlanView {
        match self {
            AddPlan::AutoDetect => AddPlanView::AutoDetect,
            AddPlan::Interactive => AddPlanView::Interactive,
            AddPlan::Store { alias, connection } => AddPlanView::Store {
                alias: alias@,
                connection: connection@,
            },
        }
    }
}

impl AddArgs {
    /// What `add` is to do with the arguments. Looking through the running
    /// containers comes before asking, and asking before the arguments. The
    /// arguments need an alias, and must make a descriptor.
    pub open spec fn planned(&self) -> Result<AddPlanView, Seq<char>> {
        if self.auto_detect {
            Ok(AddPlanView::AutoDetect)
        } else if self.interactive {
            Ok(AddPlanView::Interactive)
        } else if self.alias is None {
            Err("Alias name not specified"@)
        } else {
            match self.connection() {
                Ok(connection) => Ok(AddPlanView::Store { alias: self.alias->0@, connection }),
                Err(text) => Err("Failed to convert connection info: "@ + text),
            }
        }
    }

    /// What `add` is to do with the arguments, or what is missing or wrong.
    pub fn plan(&self) -> (r: Result<AddPlan, String>)
        ensures
            match r {
                Ok(plan) => self.planned() == Ok::<AddPlanView, Seq<char>>(plan@),
                Err(text) => self.planned() == Err::<AddPlanView, Seq<char>>(text@),
            },
    {
        if self.auto_detect {
            return Ok(AddPlan::AutoDetect);
        }
        if self.interactive {
            return Ok(AddPlan::Interactive);
        }
        let alias = match &self.alias {
            Some(alias) => alias.clone(),
            None => {
                return Err(String::from_str("Alias name not specified"));
            },
        };
        match self.to_connection() {
            Ok(connection) => Ok(AddPlan::Store { alias, connection }),
            Err(text) => Err(
                String::from_str("Failed to convert connection info: ").concat(text.as_str()),
            ),
        }
    }
}

/// The line that shows a stored connection: the alias, the database system,
/// user and container, the database or a hyphen, and whether the container
/// runs.
pub open spec fn listing_line(alias: Seq<char>, connection: ConnectionView, running: bool) -> Seq<
    char,
> {
    alias + ": "@ + connection.db_type.name() + " ("@ + connection.user + "@"@
        + connection.container + ", DB: "@ + (match connection.database {
        Some(database) => database,
        None => "-"@,
    }) + ") ["@ + (if running {
        "Running"@
    } else {
        "Stopped"@
    }) + "]"@
}

/// The line that shows a stored connection.
pub fn format_connection(alias: &str, connection: &DatabaseConnection, running: bool) -> (line:
    String)
    ensures
        line@ == listing_line(alias@, connection@, running),
{
    let database = match &connection.database {
        Some(database) => database.as_str(),
        None => "-",
    };
    let state = if running {
        "Running"
    } else {
        "Stopped"
    };
    String::from_str(alias).concat(": ").concat(connection.db_type.to_string().as_str()).concat(
        " (",
    ).concat(connection.user.as_str()).concat("@").concat(connection.container.as_str()).concat(
        ", DB: ",
    ).concat(database).concat(") [").concat(state).concat("]")
}

} // verus!
