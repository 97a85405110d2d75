//! Resolving a connection by asking.
//!
//! The resolver asks nothing itself. It is a machine: each step takes the
//! reply to what was asked last and gives what to ask next, until the alias
//! and the descriptor are complete. The caller shows the prompts, runs the
//! queries, and stops at the first prompt that fails.

use crate::config::{
    lemma_text_lookup, text_entries, text_of, ConnectionView, DatabaseConnection, DatabaseType,
};
use crate::db::listing::{detected_views, DetectedContainer, DetectedView};
use crate::error::{AppError, AppErrorView};
use crate::string_map::{lookup, StringMap};
use crate::text::{decimal_u16, parse_u16};
use vstd::prelude::*;

verus! {

/// What the resolver asks of its caller.
#[derive(Debug)]
pub enum Request {
    /// Ask for a line of text.
    Input {
        /// What to ask.
        prompt: String,
        /// What an empty answer stands for, if anything.
        default: Option<String>,
        /// Whether an empty answer is taken.
        allow_empty: bool,
    },
    /// Ask for a password; an empty one is taken.
    Password {
        /// What to ask.
        prompt: String,
    },
    /// Offer a choice among items, the first of them preselected.
    Select {
        /// What to ask.
        prompt: String,
        /// The items.
        items: Vec<String>,
    },
    /// List the running containers that hold a database.
    Detect,
    /// Find what to propose for a container from its environment.
    Inspect {
        /// The name of the container.
        container: String,
        /// The database system that it holds.
        db_type: DatabaseType,
    },
    /// Nothing more: the alias and the descriptor are complete.
    Done {
        /// The alias.
        alias: String,
        /// The descriptor.
        connection: DatabaseConnection,
    },
}

/// The mathematical value of a [`Request`].
pub ghost enum RequestView {
    Input { prompt: Seq<char>, default: Option<Seq<char>>, allow_empty: bool },
    Password { prompt: Seq<char> },
    Select { prompt: Seq<char>, items: Seq<Seq<char>> },
    Detect,
    Inspect { container: Seq<char>, db_type: DatabaseType },
    Done { alias: Seq<char>, connection: ConnectionView },
}

impl View for Request {
    type V = RequestView;

    open spec fn view(&self) -> RequestView {
        match self {
            Request::Input { prompt, default, allow_empty } => RequestView::Input {
                prompt: prompt@,
                default: text_of(*default),
                allow_empty: *allow_empty,
            },
            Request::Password { prompt } => RequestView::Password { prompt: prompt@ },
            Request::Select { prompt, items } => RequestView::Select {
                prompt: prompt@,
                items: items.deep_view(),
            },
            Request::Detect => RequestView::Detect,
            Request::Inspect { container, db_type } => RequestView::Inspect {
                container: container@,
                db_type: *db_type,
            },
            Request::Done { alias, connection } => RequestView::Done {
                alias: alias@,
                connection: connection@,
            },
        }
    }
}

/// One turn of the resolver: something to tell the user, if anything, and
/// what to ask next.
#[derive(Debug)]
pub struct Turn {
    /// What to tell the user before asking.
    pub notice: Option<String>,
    /// What to ask.
    pub request: Request,
}

/// The mathematical value of a [`Turn`].
pub ghost struct TurnView {
    pub notice: Option<Seq<char>>,
    pub request: RequestView,
}

impl View for Turn {
    type V = TurnView;

    open spec fn view(&self) -> TurnView {
        TurnView { notice: text_of(self.notice), request: self.request@ }
    }
}

/// The reply to a request.
#[derive(Debug)]
pub enum Reply {
    /// The text that was entered.
    Text(String),
    /// The place of the item that was chosen, counted from zero.
    Choice(usize),
    /// The containers that were found.
    Containers(Vec<DetectedContainer>),
    /// What is proposed for the container, by name.
    Defaults(StringMap<String>),
}

/// The mathematical value of a [`Reply`].
pub ghost enum ReplyView {
    Text(Seq<char>),
    Choice(int),
    Containers(Seq<DetectedView>),
    Defaults(Seq<(Seq<char>, Seq<char>)>),
}

impl View for Reply {
    type V = ReplyView;

    open spec fn view(&self) -> ReplyView {
        match self {
            Reply::Text(text) => ReplyView::Text(text@),
            Reply::Choice(choice) => ReplyView::Choice(*choice as int),
            Reply::Containers(containers) => ReplyView::Containers(detected_views(containers@)),
            Reply::Defaults(defaults) => ReplyView::Defaults(text_entries(defaults@)),
        }
    }
}

/// What the resolver waits for.
#[derive(Debug, Clone, Copy, PartialEq, Eq, Structural)]
pub enum Stage {
    /// The alias.
    Alias,
    /// The containers that run, to offer them.
    Detection,
    /// The choice among the containers offered.
    ContainerChoice,
    /// The name of the container, entered by hand.
    ContainerName,
    /// The choice of the database system.
    Engine,
    /// The user.
    User,
    /// Whether the password found in the environment is to be used.
    PasswordChoice,
    /// The password, after the one found was turned down.
    NewPassword,
    /// The password.
    Password,
    /// The database.
    Database,
    /// The port.
    Port,
    /// The containers that run, before anything else is asked.
    FirstDetection,
    /// The choice among the containers found first.
    FirstChoice,
    /// The alias for the container chosen.
    DetectedAlias,
    /// What is proposed for the container chosen.
    Defaults,
    /// Nothing: the connection is resolved.
    Finished,
}

/// The resolver: what it waits for, and what it has gathered.
#[derive(Debug)]
pub struct Resolver {
    /// What the resolver waits for.
    pub stage: Stage,
    /// Whether the container was chosen among those found first, so that its
    /// name and database system stand.
    pub auto_detect: bool,
    /// The alias.
    pub alias: String,
    /// The name of the container.
    pub container: String,
    /// The database system.
    pub db_type: DatabaseType,
    /// The user.
    pub user: String,
    /// The password.
    pub password: Option<String>,
    /// The database.
    pub database: Option<String>,
    /// The containers that were offered.
    pub detected: Vec<DetectedContainer>,
    /// The password found in the environment of the container.
    pub default_password: Option<String>,
    /// The database to propose.
    pub default_database: String,
}

/// The mathematical value of a [`Resolver`].
pub ghost struct ResolverView {
    pub stage: Stage,
    pub auto_detect: bool,
    pub alias: Seq<char>,
    pub container: Seq<char>,
    pub db_type: DatabaseType,
    pub user: Seq<char>,
    pub password: Option<Seq<char>>,
    pub database: Option<Seq<char>>,
    pub detected: Seq<DetectedView>,
    pub default_password: Option<Seq<char>>,
    pub default_database: Seq<char>,
}

impl View for Resolver {
    type V = ResolverView;

    open spec fn view(&self) -> ResolverView {
        ResolverView {
            stage: self.stage,
            auto_detect: self.auto_detect,
            alias: self.alias@,
            container: self.container@,
            db_type: self.db_type,
            user: self.user@,
            password: text_of(self.password),
            database: text_of(self.database),
            detected: detected_views(self.detected@),
            default_password: text_of(self.default_password),
            default_database: self.default_database@,
        }
    }
}

/// A turn that tells nothing and asks.
pub open spec fn ask(request: RequestView) -> TurnView {
    TurnView { notice: None, request }
}

/// A turn that tells something and asks.
pub open spec fn tell_and_ask(notice: Seq<char>, request: RequestView) -> TurnView {
    TurnView { notice: Some(notice), request }
}

/// The request for the alias.
pub open spec fn alias_request(default: Option<Seq<char>>) -> RequestView {
    RequestView::Input { prompt: "alias name"@, default, allow_empty: false }
}

/// The request for the name of a container.
pub open spec fn container_request() -> RequestView {
    RequestView::Input { prompt: "Docker container name"@, default: None, allow_empty: false }
}

/// How a container is shown in a menu: its name, and in brackets its
/// database system and its image.
pub open spec fn label(container: DetectedView) -> Seq<char> {
    container.name + " ("@ + container.db_type.name() + " - "@ + container.image + ")"@
}

/// The item that stands for entering a name by hand.
pub open spec fn manual_entry() -> Seq<char> {
    "Enter manually..."@
}

/// The menu of containers: one item for each, then the item for entering a
/// name by hand.
pub open spec fn container_menu(detected: Seq<DetectedView>) -> RequestView {
    RequestView::Select {
        prompt: "Please select a detected database container"@,
        items: Seq::new(detected.len(), |i: int| label(detected[i])).push(manual_entry()),
    }
}

/// The menu of database systems.
pub open spec fn engine_menu() -> RequestView {
    RequestView::Select {
        prompt: "Database type"@,
        items: seq!["PostgreSQL"@, "MySQL"@, "MongoDB"@],
    }
}

/// The database system at a place of the menu.
pub open spec fn engine_at(choice: int) -> Option<DatabaseType> {
    if choice == 0 {
        Some(DatabaseType::PostgreSQL)
    } else if choice == 1 {
        Some(DatabaseType::MySQL)
    } else if choice == 2 {
        Some(DatabaseType::MongoDB)
    } else {
        None
    }
}

/// The user that is proposed where nothing else is known.
pub open spec fn usual_user(db_type: DatabaseType) -> Seq<char> {
    match db_type {
        DatabaseType::PostgreSQL => "postgres"@,
        DatabaseType::MySQL => "root"@,
        DatabaseType::MongoDB => "mongo"@,
    }
}

/// The request for the user.
pub open spec fn user_request(default: Seq<char>) -> RequestView {
    RequestView::Input { prompt: "DB username"@, default: Some(default), allow_empty: false }
}

/// The menu that offers the password found in the environment.
pub open spec fn password_menu() -> RequestView {
    RequestView::Select {
        prompt: "Use password from environment variable?"@,
        items: seq!["Yes"@, "No (enter new password)"@],
    }
}

/// The request for the database. Where the container was chosen among those
/// found first, the database found for it is proposed.
pub open spec fn database_request(state: ResolverView) -> RequestView {
    if state.auto_detect {
        RequestView::Input {
            prompt: "Database name (Optional)"@,
            default: Some(state.default_database),
            allow_empty: true,
        }
    } else {
        RequestView::Input { prompt: "Database name(Optional)"@, default: None, allow_empty: true }
    }
}

/// The request for the port.
pub open spec fn port_request() -> RequestView {
    RequestView::Input { prompt: "Port number (Optional)"@, default: None, allow_empty: true }
}

/// A text, or nothing where it is empty.
pub open spec fn non_empty(text: Seq<char>) -> Option<Seq<char>> {
    if text.len() == 0 {
        None
    } else {
        Some(text)
    }
}

/// What is said of a port that is no number.
pub open spec fn port_warning() -> Seq<char> {
    "Warning: Invalid port number provided, using default port."@
}

/// The descriptor that the resolver has gathered, with the port.
pub open spec fn gathered(state: ResolverView, port: Option<u16>) -> ConnectionView {
    ConnectionView {
        db_type: state.db_type,
        container: state.container,
        user: state.user,
        password: state.password,
        database: state.database,
        port,
        options: None,
    }
}

/// The state in which asking begins.
pub open spec fn plain_start() -> ResolverView {
    ResolverView {
        stage: Stage::Alias,
        auto_detect: false,
        alias: Seq::empty(),
        container: Seq::empty(),
        db_type: DatabaseType::PostgreSQL,
        user: Seq::empty(),
        password: None,
        database: None,
        detected: Seq::empty(),
        default_password: None,
        default_database: Seq::empty(),
    }
}

/// The state in which looking through the running containers begins.
pub open spec fn auto_start() -> ResolverView {
    ResolverView { stage: Stage::FirstDetection, ..plain_start() }
}

/// The failure of a reply that does not answer what was asked.
pub open spec fn unexpected_reply() -> AppErrorView {
    AppErrorView::Other("Unexpected reply"@)
}

/// The failure of a choice that is no item of the menu.
pub open spec fn invalid_choice() -> AppErrorView {
    AppErrorView::Other("Invalid selection"@)
}

/// The failure of a reply to a resolver that has finished.
pub open spec fn already_finished() -> AppErrorView {
    AppErrorView::Other("The connection is already resolved"@)
}

/// After the containers were listed, to offer them: the menu of containers,
/// or where none runs, the request for a name.
pub open spec fn after_detection(state: ResolverView, containers: Seq<DetectedView>) -> (
    ResolverView,
    TurnView,
) {
    if containers.len() == 0 {
        (
            ResolverView { stage: Stage::ContainerName, ..state },
            tell_and_ask(
                "No database containers detected. Please enter manually."@,
                container_request(),
            ),
        )
    } else {
        (
            ResolverView { stage: Stage::ContainerChoice, detected: containers, ..state },
            ask(container_menu(containers)),
        )
    }
}

/// After a choice among the containers offered.
pub open spec fn after_container_choice(state: ResolverView, choice: int) -> Result<
    (ResolverView, TurnView),
    AppErrorView,
> {
    if choice == state.detected.len() {
        Ok((ResolverView { stage: Stage::ContainerName, ..state }, ask(container_request())))
    } else if 0 <= choice < state.detected.len() {
        Ok(
            (
                ResolverView {
                    stage: Stage::Engine,
                    container: state.detected[choice].name,
                    ..state
                },
                ask(engine_menu()),
            ),
        )
    } else {
        Err(invalid_choice())
    }
}

/// After the choice of the database system.
pub open spec fn after_engine(state: ResolverView, choice: int) -> Result<
    (ResolverView, TurnView),
    AppErrorView,
> {
    match engine_at(choice) {
        Some(db_type) => Ok(
            (
                ResolverView { stage: Stage::User, db_type, ..state },
                ask(user_request(usual_user(db_type))),
            ),
        ),
        None => Err(invalid_choice()),
    }
}

/// After the user. Where a password was found in the environment of the
/// container, it is offered; else the password is asked for.
pub open spec fn after_user(state: ResolverView, user: Seq<char>) -> (ResolverView, TurnView) {
    if state.auto_detect && state.default_password is Some {
        (
            ResolverView { stage: Stage::PasswordChoice, user, ..state },
            tell_and_ask("Password detected from environment variable"@, password_menu()),
        )
    } else {
        (
            ResolverView { stage: Stage::Password, user, ..state },
            ask(RequestView::Password { prompt: "Password (Optional)"@ }),
        )
    }
}

/// After the password found was offered: the first item takes it, any other
/// asks for a new one.
pub open spec fn after_password_choice(state: ResolverView, choice: int) -> (
    ResolverView,
    TurnView,
) {
    if choice == 0 {
        (
            ResolverView { stage: Stage::Database, password: state.default_password, ..state },
            ask(database_request(state)),
        )
    } else {
        (
            ResolverView { stage: Stage::NewPassword, ..state },
            ask(RequestView::Password { prompt: "Password"@ }),
        )
    }
}

/// After the password: an empty one stands for none.
pub open spec fn after_password(state: ResolverView, password: Seq<char>) -> (
    ResolverView,
    TurnView,
) {
    (
        ResolverView { stage: Stage::Database, password: non_empty(password), ..state },
        ask(database_request(state)),
    )
}

/// After the database: an empty one stands for none.
pub open spec fn after_database(state: ResolverView, database: Seq<char>) -> (
    ResolverView,
    TurnView,
) {
    (
        ResolverView { stage: Stage::Port, database: non_empty(database), ..state },
        ask(port_request()),
    )
}

/// After the port: the resolver is done. An empty text stands for no port.
/// A text that is no number below 65536 stands for none too, and that is
/// told.
pub open spec fn after_port(state: ResolverView, port: Seq<char>) -> (ResolverView, TurnView) {
    (
        ResolverView { stage: Stage::Finished, ..state },
        TurnView {
            notice: if port.len() > 0 && decimal_u16(port) is None {
                Some(port_warning())
            } else {
                None
            },
            request: RequestView::Done {
                alias: state.alias,
                connection: gathered(
                    state,
                    if port.len() == 0 {
                        None
                    } else {
                        decimal_u16(port)
                    },
                ),
            },
        },
    )
}

/// After the containers were listed first: the menu of containers, or where
/// none runs, asking from the beginning.
pub open spec fn after_first_detection(state: ResolverView, containers: Seq<DetectedView>) -> (
    ResolverView,
    TurnView,
) {
    if containers.len() == 0 {
        (plain_start(), tell_and_ask("No database containers detected."@, alias_request(None)))
    } else {
        (
            ResolverView { stage: Stage::FirstChoice, detected: containers, ..state },
            ask(container_menu(containers)),
        )
    }
}

/// After a choice among the containers found first: the container chosen
/// stands with its name and database system, or asking begins from the
/// beginning where entering by hand was chosen.
pub open spec fn after_first_choice(state: ResolverView, choice: int) -> Result<
    (ResolverView, TurnView),
    AppErrorView,
> {
    if choice == state.detected.len() {
        Ok((plain_start(), ask(alias_request(None))))
    } else if 0 <= choice < state.detected.len() {
        Ok(
            (
                ResolverView {
                    stage: Stage::DetectedAlias,
                    auto_detect: true,
                    container: state.detected[choice].name,
                    db_type: state.detected[choice].db_type,
                    ..state
                },
                ask(alias_request(Some(state.detected[choice].name))),
            ),
        )
    } else {
        Err(invalid_choice())
    }
}

/// After what is proposed for the container is known.
pub open spec fn after_defaults(state: ResolverView, defaults: Seq<(Seq<char>, Seq<char>)>) -> (
    ResolverView,
    TurnView,
) {
    (
        ResolverView {
            stage: Stage::User,
            default_password: lookup(defaults, "password"@),
            default_database: match lookup(defaults, "database"@) {
                Some(database) => database,
                None => Seq::empty(),
            },
            ..state
        },
        ask(
            user_request(
                match lookup(defaults, "user"@) {
                    Some(user) => user,
                    None => usual_user(state.db_type),
                },
            ),
        ),
    )
}

/// The step of the resolver: from its state and the reply to what it asked
/// last, its next state and what to ask next. A reply of another kind than
/// was asked for is a failure, and so is a choice that no menu offers.
pub open spec fn next(state: ResolverView, reply: ReplyView) -> Result<
    (ResolverView, TurnView),
    AppErrorView,
> {
    match state.stage {
        Stage::Alias => match reply {
            ReplyView::Text(alias) => Ok(
                (ResolverView { stage: Stage::Detection, alias, ..state }, ask(RequestView::Detect)),
            ),
            _ => Err(unexpected_reply()),
        },
        Stage::Detection => match reply {
            ReplyView::Containers(containers) => Ok(after_detection(state, containers)),
            _ => Err(unexpected_reply()),
        },
        Stage::ContainerChoice => match reply {
            ReplyView::Choice(choice) => after_container_choice(state, choice),
            _ => Err(unexpected_reply()),
        },
        Stage::ContainerName => match reply {
            ReplyView::Text(container) => Ok(
                (ResolverView { stage: Stage::Engine, container, ..state }, ask(engine_menu())),
            ),
            _ => Err(unexpected_reply()),
        },
        Stage::Engine => match reply {
            ReplyView::Choice(choice) => after_engine(state, choice),
            _ => Err(unexpected_reply()),
        },
        Stage::User => match reply {
            ReplyView::Text(user) => Ok(after_user(state, user)),
            _ => Err(unexpected_reply()),
        },
        Stage::PasswordChoice => match reply {
            ReplyView::Choice(choice) => Ok(after_password_choice(state, choice)),
            _ => Err(unexpected_reply()),
        },
        Stage::NewPassword => match reply {
            ReplyView::Text(password) => Ok(after_password(state, password)),
            _ => Err(unexpected_reply()),
        },
        Stage::Password => match reply {
            ReplyView::Text(password) => Ok(after_password(state, password)),
            _ => Err(unexpected_reply()),
        },
        Stage::Database => match reply {
            ReplyView::Text(database) => Ok(after_database(state, database)),
            _ => Err(unexpected_reply()),
        },
        Stage::Port => match reply {
            ReplyView::Text(port) => Ok(after_port(state, port)),
            _ => Err(unexpected_reply()),
        },
        Stage::FirstDetection => match reply {
            ReplyView::Containers(containers) => Ok(after_first_detection(state, containers)),
            _ => Err(unexpected_reply()),
        },
        Stage::FirstChoice => match reply {
            ReplyView::Choice(choice) => after_first_choice(state, choice),
            _ => Err(unexpected_reply()),
        },
        Stage::DetectedAlias => match reply {
            ReplyView::Text(alias) => Ok(
                (
                    ResolverView { stage: Stage::Defaults, alias, ..state },
                    ask(
                        RequestView::Inspect {
                            container: state.container,
                            db_type: state.db_type,
                        },
                    ),
                ),
            ),
            _ => Err(unexpected_reply()),
        },
        Stage::Defaults => match reply {
            ReplyView::Defaults(defaults) => Ok(after_defaults(state, defaults)),
            _ => Err(unexpected_reply()),
        },
        Stage::Finished => Err(already_finished()),
    }
}

/// A turn that tells nothing and asks.
fn ask_turn(request: Request) -> (turn: Turn)
    ensures
        turn@ == ask(request@),
{
    Turn { notice: None, request }
}

/// A turn that tells something and asks.
fn tell_turn(notice: &str, request: Request) -> (turn: Turn)
    ensures
        turn@ == tell_and_ask(notice@, request@),
{
    Turn { notice: Some(String::from_str(notice)), request }
}

/// The request for the alias.
fn alias_input(default: Option<String>) -> (request: Request)
    ensures
        request@ == alias_request(text_of(default)),
{
    Request::Input { prompt: String::from_str("alias name"), default, allow_empty: false }
}

/// The request for the name of a container.
fn container_input() -> (request: Request)
    ensures
        request@ == container_request(),
{
    Request::Input {
        prompt: String::from_str("Docker container name"),
        default: None,
        allow_empty: false,
    }
}

/// How a container is shown in a menu.
fn label_of(container: &DetectedContainer) -> (text: String)
    ensures
        text@ == label(container@),
{
    container.name.clone().concat(" (").concat(container.db_type.to_string().as_str()).concat(
        " - ",
    ).concat(container.image.as_str()).concat(")")
}

/// The menu of containers.
fn container_select(detected: &Vec<DetectedContainer>) -> (request: Request)
    ensures
        request@ == container_menu(detected_views(detected@)),
{
    let n = detected.len();
    let ghost views = detected_views(detected@);
    let mut items: Vec<String> = Vec::new();
    let mut i: usize = 0;
    while i < n
        invariant
            i <= n,
            n == detected@.len(),
            views == detected_views(detected@),
            items@.len() == i,
            forall|j: int| 0 <= j < i ==> (#[trigger] items@[j])@ == label(views[j]),
        decreases n - i,
    {
        let text = label_of(&detected[i]);
        items.push(text);
        i += 1;
    }
    items.push(String::from_str("Enter manually..."));
    assert(items.deep_view() =~= Seq::new(views.len(), |i: int| label(views[i])).push(
        manual_entry(),
    ));
    Request::Select {
        prompt: String::from_str("Please select a detected database container"),
        items,
    }
}

/// The menu of database systems.
fn engine_select() -> (request: Request)
    ensures
        request@ == engine_menu(),
{
    let mut items: Vec<String> = Vec::new();
    items.push(String::from_str("PostgreSQL"));
    items.push(String::from_str("MySQL"));
    items.push(String::from_str("MongoDB"));
    assert(items.deep_view() =~= seq!["PostgreSQL"@, "MySQL"@, "MongoDB"@]);
    Request::Select { prompt: String::from_str("Database type"), items }
}

/// The database system at a place of the menu.
fn engine_of_choice(choice: usize) -> (r: Option<DatabaseType>)
    ensures
        r == engine_at(choice as int),
{
    if choice == 0 {
        Some(DatabaseType::PostgreSQL)
    } else if choice == 1 {
        Some(DatabaseType::MySQL)
    } else if choice == 2 {
        Some(DatabaseType::MongoDB)
    } else {
        None
    }
}

/// The user that is proposed where nothing else is known.
fn usual_user_of(db_type: DatabaseType) -> (user: String)
    ensures
        user@ == usual_user(db_type),
{
    match db_type {
        DatabaseType::PostgreSQL => String::from_str("postgres"),
        DatabaseType::MySQL => String::from_str("root"),
        DatabaseType::MongoDB => String::from_str("mongo"),
    }
}

/// The request for the user.
fn user_input(default: String) -> (request: Request)
    ensures
        request@ == user_request(default@),
{
    Request::Input {
        prompt: String::from_str("DB username"),
        default: Some(default),
        allow_empty: false,
    }
}

/// The menu that offers the password found in the environment.
fn password_select() -> (request: Request)
    ensures
        request@ == password_menu(),
{
    let mut items: Vec<String> = Vec::new();
    items.push(String::from_str("Yes"));
    items.push(String::from_str("No (enter new password)"));
    assert(items.deep_view() =~= seq!["Yes"@, "No (enter new password)"@]);
    Request::Select {
        prompt: String::from_str("Use password from environment variable?"),
        items,
    }
}

/// The request for the port.
fn port_input() -> (request: Request)
    ensures
        request@ == port_request(),
{
    Request::Input {
        prompt: String::from_str("Port number (Optional)"),
        default: None,
        allow_empty: true,
    }
}

/// A text, or nothing where it is empty.
fn keep_non_empty(text: String) -> (r: Option<String>)
    ensures
        text_of(r) == non_empty(text@),
{
    if text.as_str().is_empty() {
        None
    } else {
        Some(text)
    }
}

/// The failure of a reply that does not answer what was asked.
fn unexpected() -> (e: AppError)
    ensures
        e@ == unexpected_reply(),
{
    AppError::Other(String::from_str("Unexpected reply"))
}

/// The failure of a choice that is no item of the menu.
fn invalid() -> (e: AppError)
    ensures
        e@ == invalid_choice(),
{
    AppError::Other(String::from_str("Invalid selection"))
}

impl Resolver {
    /// The state in which asking begins.
    fn fresh() -> (state: Resolver)
        ensures
            state@ == plain_start(),
    {
        let detected: Vec<DetectedContainer> = Vec::new();
        assert(detected_views(detected@) =~= Seq::<DetectedView>::empty());
        Resolver {
            stage: Stage::Alias,
            auto_detect: false,
            alias: String::new(),
            container: String::new(),
            db_type: DatabaseType::PostgreSQL,
            user: String::new(),
            password: None,
            database: None,
            detected,
            default_password: None,
            default_database: String::new(),
        }
    }

    /// The request for the database.
    fn database_input(&self) -> (request: Request)
        ensures
            request@ == database_request(self@),
    {
        if self.auto_detect {
            Request::Input {
                prompt: String::from_str("Database name (Optional)"),
                default: Some(self.default_database.clone()),
                allow_empty: true,
            }
        } else {
            Request::Input {
                prompt: String::from_str("Database name(Optional)"),
                default: None,
                allow_empty: true,
            }
        }
    }

    /// The step after the containers were listed, to offer them.
    fn detection_step(self, containers: Vec<DetectedContainer>) -> (r: (Resolver, Turn))
        ensures
            (r.0@, r.1@) == after_detection(self@, detected_views(containers@)),
    {
        let mut state = self;
        if containers.len() == 0 {
            state.stage = Stage::ContainerName;
            (
                state,
                tell_turn(
                    "No database containers detected. Please enter manually.",
                    container_input(),
                ),
            )
        } else {
            let request = container_select(&containers);
            state.stage = Stage::ContainerChoice;
            state.detected = containers;
            (state, ask_turn(request))
        }
    }

    /// The step after a choice among the containers offered.
    fn container_choice_step(self, choice: usize) -> (r: Result<(Resolver, Turn), AppError>)
        ensures
            match r {
                Ok(pair) => after_container_choice(self@, choice as int) == Ok::<
                    (ResolverView, TurnView),
                    AppErrorView,
                >((pair.0@, pair.1@)),
                Err(e) => after_container_choice(self@, choice as int) == Err::<
                    (ResolverView, TurnView),
                    AppErrorView,
                >(e@),
            },
    {
        let mut state = self;
        let n = state.detected.len();
        if choice == n {
            state.stage = Stage::ContainerName;
            Ok((state, ask_turn(container_input())))
        } else if choice < n {
            let container = state.detected[choice].name.clone();
            state.stage = Stage::Engine;
            state.container = container;
            Ok((state, ask_turn(engine_select())))
        } else {
            Err(invalid())
        }
    }

    /// The step after the user.
    fn user_step(self, user: String) -> (r: (Resolver, Turn))
        ensures
            (r.0@, r.1@) == after_user(self@, user@),
    {
        let mut state = self;
        state.user = user;
        if state.auto_detect && state.default_password.is_some() {
            state.stage = Stage::PasswordChoice;
            (state, tell_turn("Password detected from environment variable", password_select()))
        } else {
            state.stage = Stage::Password;
            (
                state,
                ask_turn(Request::Password { prompt: String::from_str("Password (Optional)") }),
            )
        }
    }

    /// The step after the password found was offered.
    fn password_choice_step(self, choice: usize) -> (r: (Resolver, Turn))
        ensures
            (r.0@, r.1@) == after_password_choice(self@, choice as int),
    {
        let mut state = self;
        if choice == 0 {
            let request = state.database_input();
            state.stage = Stage::Database;
            state.password = state.default_password.clone();
            (state, ask_turn(request))
        } else {
            state.stage = Stage::NewPassword;
            (state, ask_turn(Request::Password { prompt: String::from_str("Password") }))
        }
    }

    /// The step after the port.
    fn port_step(self, port: String) -> (r: (Resolver, Turn))
        ensures
            (r.0@, r.1@) == after_port(self@, port@),
    {
        let mut state = self;
        let mut notice: Option<String> = None;
        let mut number: Option<u16> = None;
        if !port.as_str().is_empty() {
            number = parse_u16(port.as_str());
            if number.is_none() {
                let warning = "Warning: Invalid port number provided, using default port.";
                notice = Some(String::from_str(warning));
            }
        }
        let connection = DatabaseConnection {
            db_type: state.db_type,
            container: state.container.clone(),
            user: state.user.clone(),
            password: state.password.clone(),
            database: state.database.clone(),
            port: number,
            options: None,
        };
        let alias = state.alias.clone();
        state.stage = Stage::Finished;
        (state, Turn { notice, request: Request::Done { alias, connection } })
    }

    /// The step after the containers were listed first.
    fn first_detection_step(self, containers: Vec<DetectedContainer>) -> (r: (Resolver, Turn))
        ensures
            (r.0@, r.1@) == after_first_detection(self@, detected_views(containers@)),
    {
        let mut state = self;
        if containers.len() == 0 {
            (Resolver::fresh(), tell_turn("No database containers detected.", alias_input(None)))
        } else {
            let request = container_select(&containers);
            state.stage = Stage::FirstChoice;
            state.detected = containers;
            (state, ask_turn(request))
        }
    }

    /// The step after a choice among the containers found first.
    fn first_choice_step(self, choice: usize) -> (r: Result<(Resolver, Turn), AppError>)
        ensures
            match r {
                Ok(pair) => after_first_choice(self@, choice as int) == Ok::<
                    (ResolverView, TurnView),
                    AppErrorView,
                >((pair.0@, pair.1@)),
                Err(e) => after_first_choice(self@, choice as int) == Err::<
                    (ResolverView, TurnView),
                    AppErrorView,
                >(e@),
            },
    {
        let mut state = self;
        let n = state.detected.len();
        if choice == n {
            Ok((Resolver::fresh(), ask_turn(alias_input(None))))
        } else if choice < n {
            let container = state.detected[choice].name.clone();
            let db_type = state.detected[choice].db_type;
            let request = alias_input(Some(container.clone()));
            state.stage = Stage::DetectedAlias;
            state.auto_detect = true;
            state.container = container;
            state.db_type = db_type;
            Ok((state, ask_turn(request)))
        } else {
            Err(invalid())
        }
    }

    /// The step after what is proposed for the container is known.
    fn defaults_step(self, defaults: StringMap<String>) -> (r: (Resolver, Turn))
        ensures
            (r.0@, r.1@) == after_defaults(self@, text_entries(defaults@)),
    {
        let mut state = self;
        let user = match defaults.get("user") {
            Some(user) => user.clone(),
            None => usual_user_of(state.db_type),
        };
        let password = match defaults.get("password") {
            Some(password) => Some(password.clone()),
            None => None,
        };
        let database = match defaults.get("database") {
            Some(database) => database.clone(),
            None => String::new(),
        };
        proof {
            lemma_text_lookup(defaults@, "user"@);
            lemma_text_lookup(defaults@, "password"@);
            lemma_text_lookup(defaults@, "database"@);
        }
        state.stage = Stage::User;
        state.default_password = password;
        state.default_database = database;
        (state, ask_turn(user_input(user)))
    }

    /// Takes the reply to what was asked last, and gives the next state and
    /// what to ask next. With the request [`Request::Done`] the resolver has
    /// finished. A reply of another kind than was asked for is a failure,
    /// and so is a choice that no menu offers.
    pub fn step(self, reply: Reply) -> (r: Result<(Resolver, Turn), AppError>)
        ensures
            match r {
                Ok(pair) => next(self@, reply@) == Ok::<(ResolverView, TurnView), AppErrorView>(
                    (pair.0@, pair.1@),
                ),
                Err(e) => next(self@, reply@) == Err::<(ResolverView, TurnView), AppErrorView>(
                    e@,
                ),
            },
    {
        let mut state = self;
        match state.stage {
            Stage::Alias => match reply {
                Reply::Text(alias) => {
                    state.stage = Stage::Detection;
                    state.alias = alias;
                    Ok((state, ask_turn(Request::Detect)))
                },
                _ => Err(unexpected()),
            },
            Stage::Detection => match reply {
                Reply::Containers(containers) => Ok(state.detection_step(containers)),
                _ => Err(unexpected()),
            },
            Stage::ContainerChoice => match reply {
                Reply::Choice(choice) => state.container_choice_step(choice),
                _ => Err(unexpected()),
            },
            Stage::ContainerName => match reply {
                Reply::Text(container) => {
                    state.stage = Stage::Engine;
                    state.container = container;
                    Ok((state, ask_turn(engine_select())))
                },
                _ => Err(unexpected()),
            },
            Stage::Engine => match reply {
                Reply::Choice(choice) => match engine_of_choice(choice) {
                    Some(db_type) => {
                        state.stage = Stage::User;
                        state.db_type = db_type;
                        Ok((state, ask_turn(user_input(usual_user_of(db_type)))))
                    },
                    None => Err(invalid()),
                },
                _ => Err(unexpected()),
            },
            Stage::User => match reply {
                Reply::Text(user) => Ok(state.user_step(user)),
                _ => Err(unexpected()),
            },
            Stage::PasswordChoice => match reply {
                Reply::Choice(choice) => Ok(state.password_choice_step(choice)),
                _ => Err(unexpected()),
            },
            Stage::NewPassword | Stage::Password => match reply {
                Reply::Text(password) => {
                    let request = state.database_input();
                    state.stage = Stage::Database;
                    state.password = keep_non_empty(password);
                    Ok((state, ask_turn(request)))
                },
                _ => Err(unexpected()),
            },
            Stage::Database => match reply {
                Reply::Text(database) => {
                    state.stage = Stage::Port;
                    state.database = keep_non_empty(database);
                    Ok((state, ask_turn(port_input())))
                },
                _ => Err(unexpected()),
            },
            Stage::Port => match reply {
                Reply::Text(port) => Ok(state.port_step(port)),
                _ => Err(unexpected()),
            },
            Stage::FirstDetection => match reply {
                Reply::Containers(containers) => Ok(state.first_detection_step(containers)),
                _ => Err(unexpected()),
            },
            Stage::FirstChoice => match reply {
                Reply::Choice(choice) => state.first_choice_step(choice),
                _ => Err(unexpected()),
            },
            Stage::DetectedAlias => match reply {
                Reply::Text(alias) => {
                    let request = Request::Inspect {
                        container: state.container.clone(),
                        db_type: state.db_type,
                    };
                    state.stage = Stage::Defaults;
                    state.alias = alias;
                    Ok((state, ask_turn(request)))
                },
                _ => Err(unexpected()),
            },
            Stage::Defaults => match reply {
                Reply::Defaults(defaults) => Ok(state.defaults_step(defaults)),
                _ => Err(unexpected()),
            },
            Stage::Finished => Err(
                AppError::Other(String::from_str("The connection is already resolved")),
            ),
        }
    }
}

/// Begins to resolve a connection by asking for everything: the alias, the
/// container (chosen among those that run, or entered by hand), the
/// database system, the user, the password, the database and the port.
pub fn get_connection_interactively() -> (start: (Resolver, Turn))
    ensures
        start.0@ == plain_start(),
        start.1@ == ask(alias_request(None)),
{
    (Resolver::fresh(), ask_turn(alias_input(None)))
}

/// Begins to resolve a connection from the containers that run: they are
/// listed first, and the one chosen stands with its name and its database
/// system. Where none runs, or entering by hand is chosen, everything is
/// asked for.
pub fn get_connection_with_auto_detect() -> (start: (Resolver, Turn))
    ensures
        start.0@ == auto_start(),
        start.1@ == ask(RequestView::Detect),
{
    let mut state = Resolver::fresh();
    state.stage = Stage::FirstDetection;
    (state, ask_turn(Request::Detect))
}

/// The step that follows a step: the reply is given to the state that the
/// step before led to, and a failure stays.
pub open spec fn then(
    before: Result<(ResolverView, TurnView), AppErrorView>,
    reply: ReplyView,
) -> Result<(ResolverView, TurnView), AppErrorView> {
    match before {
        Ok((state, _)) => next(state, reply),
        Err(e) => Err(e),
    }
}

/// Whether the container and the database system of a state stand: whether
/// the resolver waits for something that is asked once both are known.
pub open spec fn identity_stands(stage: Stage) -> bool {
    stage == Stage::User || stage == Stage::PasswordChoice || stage == Stage::NewPassword || stage
        == Stage::Password || stage == Stage::Database || stage == Stage::Port
}

/// The resolver is done only by the step that takes the port, and that step
/// hands out the alias and what was gathered. No other step finishes, so no
/// alias comes out of a resolution that was broken off.
pub proof fn lemma_done_only_after_port(state: ResolverView, reply: ReplyView)
    ensures
        match next(state, reply) {
            Ok((after, turn)) => {
                &&& (turn.request is Done) == (state.stage == Stage::Port)
                &&& (after.stage == Stage::Finished) == (state.stage == Stage::Port)
                &&& turn.request matches RequestView::Done { alias, connection } ==> {
                    &&& alias == state.alias
                    &&& connection.db_type == state.db_type
                    &&& connection.container == state.container
                    &&& connection.user == state.user
                    &&& connection.password == state.password
                    &&& connection.database == state.database
                    &&& connection.options is None
                }
            },
            Err(_) => true,
        },
{
}

/// Once the container and the database system are known, no step changes
/// them, nor the alias. So a container chosen among those found keeps its
/// name and its database system to the end.
pub proof fn lemma_identity_stands(state: ResolverView, reply: ReplyView)
    requires
        identity_stands(state.stage),
    ensures
        match next(state, reply) {
            Ok((after, turn)) => {
                &&& after.container == state.container
                &&& after.db_type == state.db_type
                &&& after.alias == state.alias
                &&& after.auto_detect == state.auto_detect
                &&& identity_stands(after.stage) || after.stage == Stage::Finished
            },
            Err(_) => true,
        },
{
}

/// The step that takes the port never fails on a text. An empty text gives
/// no port and no notice. A text that writes a number below 65536 gives
/// that port and no notice. Any other text gives no port, and the warning.
pub proof fn lemma_port_is_lenient(state: ResolverView, port: Seq<char>)
    requires
        state.stage == Stage::Port,
    ensures
        next(state, ReplyView::Text(port)) matches Ok((_, turn))
            && turn.request matches RequestView::Done { alias, connection } && {
            &&& port.len() == 0 ==> connection.port is None && turn.notice is None
            &&& port.len() > 0 && decimal_u16(port) is Some ==> connection.port == decimal_u16(port)
                && turn.notice is None
            &&& port.len() > 0 && decimal_u16(port) is None ==> connection.port is None
                && turn.notice == Some(port_warning())
        },
{
}

/// Asking for everything, with the name of the container entered by hand
/// because no container runs: the replies, in the order of the prompts,
/// lead to the alias and the descriptor made of them. An empty password and
/// an empty database stand for none.
pub proof fn lemma_plain_protocol(
    alias: Seq<char>,
    container: Seq<char>,
    engine: int,
    user: Seq<char>,
    password: Seq<char>,
    database: Seq<char>,
    port: Seq<char>,
)
    requires
        0 <= engine < 3,
    ensures
        ({
            let asked = next(plain_start(), ReplyView::Text(alias));
            let listed = then(asked, ReplyView::Containers(Seq::empty()));
            let named = then(listed, ReplyView::Text(container));
            let chosen = then(named, ReplyView::Choice(engine));
            let with_user = then(chosen, ReplyView::Text(user));
            let with_password = then(with_user, ReplyView::Text(password));
            let with_database = then(with_password, ReplyView::Text(database));
            let end = then(with_database, ReplyView::Text(port));
            end matches Ok((_, turn)) && turn.request == (RequestView::Done {
                alias,
                connection: ConnectionView {
                    db_type: engine_at(engine)->0,
                    container,
                    user,
                    password: non_empty(password),
                    database: non_empty(database),
                    port: if port.len() == 0 {
                        None
                    } else {
                        decimal_u16(port)
                    },
                    options: None,
                },
            })
        }),
{
}

/// Asking for everything, with the container chosen among those that run:
/// the descriptor names the container chosen, and the database system is the
/// one chosen from the menu.
pub proof fn lemma_plain_protocol_with_choice(
    alias: Seq<char>,
    containers: Seq<DetectedView>,
    choice: int,
    engine: int,
    user: Seq<char>,
    password: Seq<char>,
    database: Seq<char>,
    port: Seq<char>,
)
    requires
        0 <= choice < containers.len(),
        0 <= engine < 3,
    ensures
        ({
            let asked = next(plain_start(), ReplyView::Text(alias));
            let listed = then(asked, ReplyView::Containers(containers));
            let picked = then(listed, ReplyView::Choice(choice));
            let chosen = then(picked, ReplyView::Choice(engine));
            let with_user = then(chosen, ReplyView::Text(user));
            let with_password = then(with_user, ReplyView::Text(password));
            let with_database = then(with_password, ReplyView::Text(database));
            let end = then(with_database, ReplyView::Text(port));
            end matches Ok((_, turn)) && turn.request == (RequestView::Done {
                alias,
                connection: ConnectionView {
                    db_type: engine_at(engine)->0,
                    container: containers[choice].name,
                    user,
                    password: non_empty(password),
                    database: non_empty(database),
                    port: if port.len() == 0 {
                        None
                    } else {
                        decimal_u16(port)
                    },
                    options: None,
                },
            })
        }),
{
}

/// Beginning with the containers that run, and choosing one of them: the
/// descriptor has the name and the database system of the container chosen,
/// whatever is entered later. Where a password was found for the container
/// and is taken, it is the password of the descriptor; where none was found,
/// or the one found is turned down, the password entered is, with an empty
/// one standing for none.
pub proof fn lemma_auto_detect_protocol(
    containers: Seq<DetectedView>,
    choice: int,
    alias: Seq<char>,
    defaults: Seq<(Seq<char>, Seq<char>)>,
    user: Seq<char>,
    take_found: bool,
    password: Seq<char>,
    database: Seq<char>,
    port: Seq<char>,
)
    requires
        0 <= choice < containers.len(),
    ensures
        ({
            let listed = next(auto_start(), ReplyView::Containers(containers));
            let picked = then(listed, ReplyView::Choice(choice));
            let asked = then(picked, ReplyView::Text(alias));
            let proposed = then(asked, ReplyView::Defaults(defaults));
            let with_user = then(proposed, ReplyView::Text(user));
            let found = lookup(defaults, "password"@);
            let with_password = if found is Some {
                if take_found {
                    then(with_user, ReplyView::Choice(0))
                } else {
                    then(then(with_user, ReplyView::Choice(1)), ReplyView::Text(password))
                }
            } else {
                then(with_user, ReplyView::Text(password))
            };
            let with_database = then(with_password, ReplyView::Text(database));
            let end = then(with_database, ReplyView::Text(port));
            end matches Ok((_, turn)) && turn.request == (RequestView::Done {
                alias,
                connection: ConnectionView {
                    db_type: containers[choice].db_type,
                    container: containers[choice].name,
                    user,
                    password: if found is Some && take_found {
                        found
                    } else {
                        non_empty(password)
                    },
                    database: non_empty(database),
                    port: if port.len() == 0 {
                        None
                    } else {
                        decimal_u16(port)
                    },
                    options: None,
                },
            })
        }),
{
}

/// Beginning with the containers that run, where none runs or entering by
/// hand is chosen: asking goes on from the beginning, as if everything had
/// been asked for from the start.
pub proof fn lemma_auto_detect_falls_back(containers: Seq<DetectedView>)
    ensures
        containers.len() == 0 ==> next(auto_start(), ReplyView::Containers(containers))
            == Ok::<(ResolverView, TurnView), AppErrorView>(
            (plain_start(), tell_and_ask("No database containers detected."@, alias_request(None))),
        ),
        containers.len() > 0 ==> then(
            next(auto_start(), ReplyView::Containers(containers)),
            ReplyView::Choice(containers.len() as int),
        ) == Ok::<(ResolverView, TurnView), AppErrorView>(
            (plain_start(), ask(alias_request(None))),
        ),
{
}

} // verus!
