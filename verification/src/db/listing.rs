//! Listings of the running containers: finding a container by its name, and
//! finding the containers that hold a database.

use crate::config::DatabaseType;
use crate::db::{
    no_args, push_arg, query, query_of, CommandOutcome, DatabaseConnector, Invocation,
    OutcomeView,
};
use crate::error::{AppError, AppErrorView};
use crate::text::{
    contains, fields, lines, lowercase, occurs_at, occurs_in, split_fields, split_lines, str_eq,
    to_lowercase, trim, trimmed,
};
use crate::validation::{validate_container_name, Grammar};
use vstd::prelude::*;

verus! {

/// A running container that holds a database.
#[derive(Debug)]
pub struct DetectedContainer {
    /// The name of the container.
    pub name: String,
    /// The database system that it was taken for.
    pub db_type: DatabaseType,
    /// The image that it runs.
    pub image: String,
    /// Its port mappings.
    pub ports: Vec<String>,
    /// Its status, in the runtime's words.
    pub status: String,
}

/// The mathematical value of a [`DetectedContainer`].
pub ghost struct DetectedView {
    pub name: Seq<char>,
    pub db_type: DatabaseType,
    pub image: Seq<char>,
    pub ports: Seq<Seq<char>>,
    pub status: Seq<char>,
}

impl View for DetectedContainer {
    type V = DetectedView;

    open spec fn view(&self) -> DetectedView {
        DetectedView {
            name: self.name@,
            db_type: self.db_type,
            image: self.image@,
            ports: self.ports.deep_view(),
            status: self.status@,
        }
    }
}

impl Clone for DetectedContainer {
    /// A container with the same value.
    fn clone(&self) -> (copy: Self)
        ensures
            copy@ == self@,
    {
        let ports = self.ports.clone();
        assert(ports.deep_view() =~= self.ports.deep_view());
        DetectedContainer {
            name: self.name.clone(),
            db_type: self.db_type,
            image: self.image.clone(),
            ports,
            status: self.status.clone(),
        }
    }
}

/// The values of a sequence of containers.
pub open spec fn detected_views(containers: Seq<DetectedContainer>) -> Seq<DetectedView> {
    Seq::new(containers.len(), |i: int| containers[i]@)
}

/// What is said when the runtime does not list its containers.
pub open spec fn listing_complaint() -> Seq<char> {
    "Failed to retrieve Docker container list"@
}

/// The arguments that list the names of the running containers.
pub open spec fn name_listing_args() -> Seq<Seq<char>> {
    seq!["ps"@, "--format"@, "{{.Names}}"@]
}

/// The arguments that list the running containers with name, image, port
/// mappings and status, the four separated by tabs.
pub open spec fn detail_listing_args() -> Seq<Seq<char>> {
    seq!["ps"@, "--format"@, "{{.Names}}\t{{.Image}}\t{{.Ports}}\t{{.Status}}"@]
}

/// Whether one of the lines, without the white space around it, is `name`.
pub open spec fn is_listed(name: Seq<char>, listing: Seq<Seq<char>>) -> bool {
    exists|i: int| 0 <= i < listing.len() && trimmed(#[trigger] listing[i]) == name
}

/// What a listing of names says of a container: the failure where the name
/// is no container name or the listing was not had, else whether the name is
/// listed.
pub open spec fn presence(name: Seq<char>, outcome: OutcomeView) -> Result<bool, AppErrorView> {
    if Grammar::ContainerName.verdict(name) is Some {
        Err(Grammar::ContainerName.verdict(name)->0)
    } else {
        match outcome {
            OutcomeView::NotStarted(reason) => Err(AppErrorView::Docker(reason)),
            OutcomeView::Finished { success, status, stdout } => if success {
                Ok(is_listed(name, lines(stdout)))
            } else {
                Err(AppErrorView::Docker(listing_complaint()))
            },
        }
    }
}

/// The database system that the name of an image, in lower case, tells of.
pub open spec fn engine_of_image(lower_image: Seq<char>) -> Option<DatabaseType> {
    if occurs_in("postgres"@, lower_image) || occurs_in("postgresql"@, lower_image) {
        Some(DatabaseType::PostgreSQL)
    } else if occurs_in("mysql"@, lower_image) || occurs_in("mariadb"@, lower_image) {
        Some(DatabaseType::MySQL)
    } else if occurs_in("mongo"@, lower_image) {
        Some(DatabaseType::MongoDB)
    } else {
        None
    }
}

/// The database system whose usual port stands in a port mapping.
pub open spec fn engine_of_port(port: Seq<char>) -> Option<DatabaseType> {
    if occurs_in("5432"@, port) {
        Some(DatabaseType::PostgreSQL)
    } else if occurs_in("3306"@, port) {
        Some(DatabaseType::MySQL)
    } else if occurs_in("27017"@, port) {
        Some(DatabaseType::MongoDB)
    } else {
        None
    }
}

/// The database system that the first telling port mapping tells of.
pub open spec fn engine_of_ports(ports: Seq<Seq<char>>) -> Option<DatabaseType>
    decreases ports.len(),
{
    if ports.len() == 0 {
        None
    } else if engine_of_port(ports[0]) is Some {
        engine_of_port(ports[0])
    } else {
        engine_of_ports(ports.drop_first())
    }
}

/// The database system that a container is taken for: by the name of its
/// image, in lower case, and where that tells nothing, by its ports.
pub open spec fn classified(lower_image: Seq<char>, ports: Seq<Seq<char>>) -> Option<
    DatabaseType,
> {
    if engine_of_image(lower_image) is Some {
        engine_of_image(lower_image)
    } else {
        engine_of_ports(ports)
    }
}

/// The port mappings in a text: its pieces between commas, each without the
/// white space around it.
pub open spec fn port_list(text: Seq<char>) -> Seq<Seq<char>> {
    Seq::new(fields(text, ',').len(), |i: int| trimmed(fields(text, ',')[i]))
}

/// The container that a line of the detailed listing tells of. A line with
/// fewer than four pieces between tabs tells of none, and so does one whose
/// image and ports tell of no database system.
pub open spec fn container_of_line(line: Seq<char>) -> Option<DetectedView> {
    let parts = fields(line, '\t');
    if parts.len() >= 4 {
        let ports = port_list(parts[2]);
        match classified(lowercase(parts[1]), ports) {
            Some(db_type) => Some(
                DetectedView { name: parts[0], db_type, image: parts[1], ports, status: parts[3] },
            ),
            None => None,
        }
    } else {
        None
    }
}

/// The containers that the lines of a detailed listing tell of, in the order
/// of the lines.
pub open spec fn containers_of_lines(listing: Seq<Seq<char>>) -> Seq<DetectedView>
    decreases listing.len(),
{
    if listing.len() == 0 {
        seq![]
    } else {
        containers_of_lines(listing.drop_last()) + (match container_of_line(listing.last()) {
            Some(container) => seq![container],
            None => seq![],
        })
    }
}

/// What a detailed listing gives: the failure where the listing was not had,
/// else the containers that its lines tell of.
pub open spec fn detection(outcome: OutcomeView) -> Result<Seq<DetectedView>, AppErrorView> {
    match outcome {
        OutcomeView::NotStarted(reason) => Err(AppErrorView::Docker(reason)),
        OutcomeView::Finished { success, status, stdout } => if success {
            Ok(containers_of_lines(lines(stdout)))
        } else {
            Err(AppErrorView::Docker(listing_complaint()))
        },
    }
}

impl DatabaseConnector {
    /// The command that lists the names of the running containers, to find
    /// `container_name` among them. The name is held to its grammar first.
    pub fn check_container_command(container_name: &str) -> (r: Result<Invocation, AppError>)
        ensures
            match r {
                Ok(invocation) => Grammar::ContainerName.verdict(container_name@) is None
                    && invocation@ == query(name_listing_args()),
                Err(e) => Grammar::ContainerName.verdict(container_name@) == Some(e@),
            },
    {
        validate_container_name(container_name)?;
        let mut args = no_args();
        push_arg(&mut args, String::from_str("ps"));
        push_arg(&mut args, String::from_str("--format"));
        push_arg(&mut args, String::from_str("{{.Names}}"));
        assert(args.deep_view() =~= name_listing_args());
        Ok(query_of(args))
    }

    /// Whether the container `container_name` runs, going by the listing of
    /// names that `outcome` holds: whether one of its lines, without the
    /// white space around it, is the name. A container that is not listed is
    /// no failure. A name that is no container name is one, and so is a
    /// listing that was not had.
    pub fn check_container(container_name: &str, outcome: &CommandOutcome) -> (r: Result<
        bool,
        AppError,
    >)
        ensures
            match r {
                Ok(running) => presence(container_name@, outcome@) == Ok::<bool, AppErrorView>(
                    running,
                ),
                Err(e) => presence(container_name@, outcome@) == Err::<bool, AppErrorView>(e@),
            },
    {
        validate_container_name(container_name)?;
        match outcome {
            CommandOutcome::NotStarted(reason) => Err(AppError::Docker(reason.clone())),
            CommandOutcome::Finished { success, status: _, stdout } => {
                if !*success {
                    return Err(
                        AppError::Docker(
                            String::from_str("Failed to retrieve Docker container list"),
                        ),
                    );
                }
                let listing = split_lines(stdout.as_str());
                let n = listing.len();
                let mut i: usize = 0;
                while i < n
                    invariant
                        i <= n,
                        n == listing@.len(),
                        listing.deep_view() == lines(stdout@),
                        presence(container_name@, outcome@) == Ok::<bool, AppErrorView>(
                            is_listed(container_name@, lines(stdout@)),
                        ),
                        forall|j: int|
                            0 <= j < i ==> trimmed(#[trigger] lines(stdout@)[j])
                                != container_name@,
                    decreases n - i,
                {
                    let name = trim(listing[i].as_str());
                    assert(listing.deep_view()[i as int] == listing@[i as int]@);
                    if str_eq(name.as_str(), container_name) {
                        assert(trimmed(lines(stdout@)[i as int]) == container_name@);
                        assert(is_listed(container_name@, lines(stdout@)));
                        return Ok(true);
                    }
                    i += 1;
                }
                Ok(false)
            },
        }
    }

    /// The command that lists the running containers with name, image, port
    /// mappings and status.
    pub fn detect_command() -> (invocation: Invocation)
        ensures
            invocation@ == query(detail_listing_args()),
    {
        let mut args = no_args();
        push_arg(&mut args, String::from_str("ps"));
        push_arg(&mut args, String::from_str("--format"));
        push_arg(
            &mut args,
            String::from_str("{{.Names}}\t{{.Image}}\t{{.Ports}}\t{{.Status}}"),
        );
        assert(args.deep_view() =~= detail_listing_args());
        query_of(args)
    }

    /// The port mappings in a text.
    fn split_ports(text: &str) -> (ports: Vec<String>)
        ensures
            ports.deep_view() == port_list(text@),
    {
        let pieces = split_fields(text, ',');
        let n = pieces.len();
        let mut ports: Vec<String> = Vec::new();
        let mut i: usize = 0;
        while i < n
            invariant
                i <= n,
                n == pieces@.len(),
                pieces.deep_view() == fields(text@, ','),
                ports@.len() == i,
                forall|j: int| 0 <= j < i ==> (#[trigger] ports@[j])@ == port_list(text@)[j],
            decreases n - i,
        {
            let port = trim(pieces[i].as_str());
            assert(pieces.deep_view()[i as int] == pieces@[i as int]@);
            ports.push(port);
            i += 1;
        }
        assert(ports.deep_view() =~= port_list(text@));
        ports
    }

    /// The database system whose usual port stands in a port mapping.
    fn port_engine(port: &str) -> (r: Option<DatabaseType>)
        ensures
            r == engine_of_port(port@),
    {
        if contains(port, "5432") {
            Some(DatabaseType::PostgreSQL)
        } else if contains(port, "3306") {
            Some(DatabaseType::MySQL)
        } else if contains(port, "27017") {
            Some(DatabaseType::MongoDB)
        } else {
            None
        }
    }

    /// The database system that a container is taken for, from the name of
    /// its image in lower case and from its port mappings. The image decides
    /// where it names a database system; else the first port mapping that
    /// holds the usual port of one.
    pub fn classify(lower_image: &str, ports: &Vec<String>) -> (r: Option<DatabaseType>)
        ensures
            r == classified(lower_image@, ports.deep_view()),
    {
        if contains(lower_image, "postgres") || contains(lower_image, "postgresql") {
            return Some(DatabaseType::PostgreSQL);
        }
        if contains(lower_image, "mysql") || contains(lower_image, "mariadb") {
            return Some(DatabaseType::MySQL);
        }
        if contains(lower_image, "mongo") {
            return Some(DatabaseType::MongoDB);
        }
        let n = ports.len();
        let ghost all = ports.deep_view();
        let mut i: usize = 0;
        assert(all.skip(0) =~= all);
        while i < n
            invariant
                i <= n,
                n == ports@.len(),
                all == ports.deep_view(),
                engine_of_image(lower_image@) is None,
                engine_of_ports(all) == engine_of_ports(all.skip(i as int)),
            decreases n - i,
        {
            let found = Self::port_engine(ports[i].as_str());
            assert(all.skip(i as int).len() > 0);
            assert(all.skip(i as int)[0] == ports@[i as int]@);
            if found.is_some() {
                assert(engine_of_ports(all.skip(i as int)) == found);
                return found;
            }
            assert(all.skip(i as int).drop_first() =~= all.skip(i + 1));
            i += 1;
        }
        None
    }

    /// The database system that a container is taken for, from the name of
    /// its image in any case and from its port mappings.
    pub fn detect_database_type(image: &str, ports: &Vec<String>) -> (r: Option<DatabaseType>)
        ensures
            r == classified(lowercase(image@), ports.deep_view()),
    {
        let lower = to_lowercase(image);
        Self::classify(lower.as_str(), ports)
    }

    /// The container that a line of the detailed listing tells of.
    fn detect_line(line: &str) -> (r: Option<DetectedContainer>)
        ensures
            match r {
                Some(container) => container_of_line(line@) == Some(container@),
                None => container_of_line(line@) is None,
            },
    {
        let parts = split_fields(line, '\t');
        if parts.len() < 4 {
            return None;
        }
        assert(parts.deep_view()[0] == parts@[0]@);
        assert(parts.deep_view()[1] == parts@[1]@);
        assert(parts.deep_view()[2] == parts@[2]@);
        assert(parts.deep_view()[3] == parts@[3]@);
        let ports = Self::split_ports(parts[2].as_str());
        match Self::detect_database_type(parts[1].as_str(), &ports) {
            Some(db_type) => Some(
                DetectedContainer {
                    name: parts[0].clone(),
                    db_type,
                    image: parts[1].clone(),
                    ports,
                    status: parts[3].clone(),
                },
            ),
            None => None,
        }
    }

    /// The running containers that hold a database, going by the detailed
    /// listing that `outcome` holds, in the order of the listing. A line
    /// with fewer than four pieces is passed over, and so is a container
    /// that is taken for no database system. A listing that was not had is
    /// a failure.
    pub fn detect_database_containers(outcome: &CommandOutcome) -> (r: Result<
        Vec<DetectedContainer>,
        AppError,
    >)
        ensures
            match r {
                Ok(containers) => detection(outcome@) == Ok::<Seq<DetectedView>, AppErrorView>(
                    detected_views(containers@),
                ),
                Err(e) => detection(outcome@) == Err::<Seq<DetectedView>, AppErrorView>(e@),
            },
    {
        match outcome {
            CommandOutcome::NotStarted(reason) => Err(AppError::Docker(reason.clone())),
            CommandOutcome::Finished { success, status: _, stdout } => {
                if !*success {
                    return Err(
                        AppError::Docker(
                            String::from_str("Failed to retrieve Docker container list"),
                        ),
                    );
                }
                let listing = split_lines(stdout.as_str());
                let n = listing.len();
                let ghost all = lines(stdout@);
                let mut containers: Vec<DetectedContainer> = Vec::new();
                let mut i: usize = 0;
                assert(all.take(0) =~= Seq::<Seq<char>>::empty());
                assert(detected_views(containers@) =~= Seq::<DetectedView>::empty());
                while i < n
                    invariant
                        i <= n,
                        n == listing@.len(),
                        all == lines(stdout@),
                        listing.deep_view() == all,
                        detected_views(containers@) == containers_of_lines(all.take(i as int)),
                    decreases n - i,
                {
                    let ghost before = detected_views(containers@);
                    assert(listing.deep_view()[i as int] == listing@[i as int]@);
                    proof {
                        let next = all.take(i + 1);
                        assert(next.drop_last() =~= all.take(i as int));
                        assert(next.last() == all[i as int]);
                    }
                    match Self::detect_line(listing[i].as_str()) {
                        Some(container) => {
                            containers.push(container);
                            assert(detected_views(containers@) =~= before + seq![container@]);
                        },
                        None => {
                            assert(before + Seq::<DetectedView>::empty() =~= before);
                        },
                    }
                    i += 1;
                }
                assert(all.take(n as int) =~= all);
                Ok(containers)
            },
        }
    }
}

/// An image whose name, in lower case, holds the keyword of a database
/// system is taken for it, whatever the ports are: `postgres` before
/// `mysql` and `mariadb`, and these before `mongo`.
pub proof fn lemma_classified_by_image(lower_image: Seq<char>, ports: Seq<Seq<char>>)
    ensures
        occurs_in("postgres"@, lower_image) ==> classified(lower_image, ports) == Some(
            DatabaseType::PostgreSQL,
        ),
        !occurs_in("postgres"@, lower_image) && (occurs_in("mysql"@, lower_image) || occurs_in(
            "mariadb"@,
            lower_image,
        )) ==> classified(lower_image, ports) == Some(DatabaseType::MySQL),
        !occurs_in("postgres"@, lower_image) && !occurs_in("mysql"@, lower_image) && !occurs_in(
            "mariadb"@,
            lower_image,
        ) && occurs_in("mongo"@, lower_image) ==> classified(lower_image, ports) == Some(
            DatabaseType::MongoDB,
        ),
{
    if occurs_in("postgresql"@, lower_image) {
        let i = choose|i: int| occurs_at("postgresql"@, lower_image, i);
        reveal_strlit("postgresql");
        reveal_strlit("postgres");
        assert("postgresql"@.len() == 10 && "postgres"@.len() == 8);
        assert(lower_image.subrange(i, i + 8) =~= lower_image.subrange(i, i + 10).subrange(0, 8));
        assert("postgresql"@.subrange(0, 8) =~= "postgres"@);
        assert(occurs_at("postgres"@, lower_image, i));
    }
}

/// A container whose image names no database system is taken for the one
/// whose usual port its first telling port mapping holds; where no port
/// mapping tells, and so where there is none, it is taken for nothing.
pub proof fn lemma_classified_by_ports(lower_image: Seq<char>, ports: Seq<Seq<char>>)
    requires
        engine_of_image(lower_image) is None,
    ensures
        classified(lower_image, ports) == engine_of_ports(ports),
        (forall|i: int| 0 <= i < ports.len() ==> engine_of_port(#[trigger] ports[i]) is None)
            ==> classified(lower_image, ports) is None,
        ports.len() > 0 && engine_of_port(ports[0]) is Some ==> classified(lower_image, ports)
            == engine_of_port(ports[0]),
    decreases ports.len(),
{
    if ports.len() > 0 {
        let rest = ports.drop_first();
        lemma_classified_by_ports(lower_image, rest);
        if forall|i: int| 0 <= i < ports.len() ==> engine_of_port(#[trigger] ports[i]) is None {
            assert forall|i: int| 0 <= i < rest.len() implies engine_of_port(
                #[trigger] rest[i],
            ) is None by {
                assert(rest[i] == ports[i + 1]);
            }
            assert(engine_of_port(ports[0]) is None);
        }
    }
}

/// A line of the detailed listing with fewer than four pieces between tabs
/// tells of no container, and so does a line whose image and ports tell of
/// no database system. Such a line adds nothing to what is found.
pub proof fn lemma_untelling_line_is_dropped(listing: Seq<Seq<char>>, line: Seq<char>)
    requires
        fields(line, '\t').len() < 4 || classified(
            lowercase(fields(line, '\t')[1]),
            port_list(fields(line, '\t')[2]),
        ) is None,
    ensures
        container_of_line(line) is None,
        containers_of_lines(listing.push(line)) == containers_of_lines(listing),
{
    assert(listing.push(line).drop_last() =~= listing);
    assert(containers_of_lines(listing) + Seq::<DetectedView>::empty() =~= containers_of_lines(
        listing,
    ));
}

} // verus!
