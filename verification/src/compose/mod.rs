//! Compose files: the services of a project, the order in which they start,
//! and the requests that bring them up and down.

pub mod order;
pub mod plan;

use crate::text::{clone_strings, concat3, owned, string_views};
use vstd::prelude::*;

verus! {

/// How a service is built: from a context directory, with a Dockerfile
/// where one is named.
#[derive(Debug, Clone)]
pub enum BuildConfig {
    Context(String),
    Object { context: String, dockerfile: Option<String> },
}

/// The command of a service: none, a line for the shell, or a list of words.
#[derive(Debug, Clone)]
pub enum CommandField {
    Unset,
    Shell(String),
    List(Vec<String>),
}

/// The words of a command: none; `sh -c <line>` for a line; the list as it
/// is.
pub open spec fn command_words(field: CommandField) -> Seq<Seq<char>> {
    match field {
        CommandField::Unset => Seq::empty(),
        CommandField::Shell(line) => seq!["sh"@, "-c"@, line@],
        CommandField::List(words) => string_views(words@),
    }
}

impl Default for CommandField {
    fn default() -> (out: CommandField)
        ensures
            out is Unset,
    {
        CommandField::Unset
    }
}

impl CommandField {
    /// The words of the command.
    pub fn to_vec(&self) -> (out: Vec<String>)
        ensures
            string_views(out@) == command_words(*self),
    {
        match self {
            CommandField::Unset => {
                let out: Vec<String> = Vec::new();
                proof {
                    assert(string_views(out@) =~= Seq::<Seq<char>>::empty());
                }
                out
            },
            CommandField::Shell(line) => {
                let mut out: Vec<String> = Vec::new();
                out.push(owned("sh"));
                out.push(owned("-c"));
                out.push(line.clone());
                proof {
                    assert(string_views(out@) =~= seq!["sh"@, "-c"@, line@]);
                }
                out
            },
            CommandField::List(words) => clone_strings(words),
        }
    }
}

/// A variable of the environment and its value.
#[derive(Debug, Clone)]
pub struct EnvPair {
    pub key: String,
    pub value: String,
}

/// The environment of a service: none, pairs of a key and a value, or a
/// list of `KEY=VALUE` strings.
#[derive(Debug, Clone)]
pub enum EnvField {
    Unset,
    Pairs(Vec<EnvPair>),
    List(Vec<String>),
}

/// The `KEY=VALUE` strings of an environment: none; `<key>=<value>` for
/// each pair, in order; the list as it is.
pub open spec fn env_strings(field: EnvField) -> Seq<Seq<char>> {
    match field {
        EnvField::Unset => Seq::empty(),
        EnvField::Pairs(pairs) => Seq::new(
            pairs@.len(),
            |i: int| pairs@[i].key@ + "="@ + pairs@[i].value@,
        ),
        EnvField::List(list) => string_views(list@),
    }
}

impl Default for EnvField {
    fn default() -> (out: EnvField)
        ensures
            out is Unset,
    {
        EnvField::Unset
    }
}

impl EnvField {
    /// The `KEY=VALUE` strings of the environment.
    pub fn to_vec(&self) -> (out: Vec<String>)
        ensures
            string_views(out@) == env_strings(*self),
    {
        match self {
            EnvField::Unset => {
                let out: Vec<String> = Vec::new();
                proof {
                    assert(string_views(out@) =~= Seq::<Seq<char>>::empty());
                }
                out
            },
            EnvField::Pairs(pairs) => {
                let mut out: Vec<String> = Vec::new();
                let mut i: usize = 0;
                while i < pairs.len()
                    invariant
                        i <= pairs.len(),
                        out.len() == i,
                        forall|j: int|
                            0 <= j < i ==> out[j]@ == pairs@[j].key@ + "="@ + pairs@[j].value@,
                    decreases pairs.len() - i,
                {
                    out.push(concat3(pairs[i].key.as_str(), "=", pairs[i].value.as_str()));
                    i += 1;
                }
                proof {
                    assert(string_views(out@) =~= env_strings(*self));
                }
                out
            },
            EnvField::List(list) => clone_strings(list),
        }
    }
}

/// The services that a service waits for: none, a list of names, or the
/// keys of a map.
#[derive(Debug, Clone)]
pub enum DependsOnField {
    Unset,
    List(Vec<String>),
    Keys(Vec<String>),
}

/// The names of the services that a service waits for, in order.
pub open spec fn dependency_names(field: DependsOnField) -> Seq<Seq<char>> {
    match field {
        DependsOnField::Unset => Seq::empty(),
        DependsOnField::List(names) => string_views(names@),
        DependsOnField::Keys(keys) => string_views(keys@),
    }
}

impl Default for DependsOnField {
    fn default() -> (out: DependsOnField)
        ensures
            out is Unset,
    {
        DependsOnField::Unset
    }
}

impl DependsOnField {
    /// The names of the services that the service waits for.
    pub fn service_names(&self) -> (out: Vec<String>)
        ensures
            string_views(out@) == dependency_names(*self),
    {
        match self {
            DependsOnField::Unset => {
                let out: Vec<String> = Vec::new();
                proof {
                    assert(string_views(out@) =~= Seq::<Seq<char>>::empty());
                }
                out
            },
            DependsOnField::List(names) => clone_strings(names),
            DependsOnField::Keys(keys) => clone_strings(keys),
        }
    }
}

/// What a Compose file says of one service.
#[derive(Debug, Clone)]
pub struct ServiceConfig {
    pub image: Option<String>,
    pub build: Option<BuildConfig>,
    pub command: CommandField,
    /// `<host>:<container>` or `<port>`.
    pub ports: Vec<String>,
    pub volumes: Vec<String>,
    pub environment: EnvField,
    pub depends_on: DependsOnField,
    pub network_mode: Option<String>,
    pub restart: Option<String>,
}

/// A service and its name.
#[derive(Debug, Clone)]
pub struct Service {
    pub name: String,
    pub config: ServiceConfig,
}

/// A Compose file: its services, and the names of its networks and volumes.
#[derive(Debug, Clone)]
pub struct ComposeFile {
    pub version: Option<String>,
    pub services: Vec<Service>,
    pub networks: Vec<String>,
    pub volumes: Vec<String>,
}

/// A service that was brought up, and the container it runs in.
#[derive(Debug, Clone)]
pub struct StartedService {
    pub service_name: String,
    pub container_id: String,
}

/// Why a project cannot be brought up or down.
#[derive(Debug, Clone)]
pub enum ComposeError {
    /// A service waits for a service that the file does not define.
    UndefinedService(String),
    /// The engine could not be asked to create a container.
    CreateFailed(String),
    /// The engine's answer names no container.
    MissingContainerId,
    /// The engine could not be asked to start a container.
    StartFailed(String),
}

impl ComposeError {
    /// The message of this error.
    pub fn message(&self) -> (out: String)
        ensures
            out@ == match *self {
                ComposeError::UndefinedService(name) => "Service '"@ + name@
                    + "' referenced in depends_on but not defined"@,
                ComposeError::CreateFailed(_) => "Failed to create container"@,
                ComposeError::MissingContainerId => "Missing container ID in response"@,
                ComposeError::StartFailed(_) => "Failed to start container"@,
            },
    {
        match self {
            ComposeError::UndefinedService(name) => concat3(
                "Service '",
                name.as_str(),
                "' referenced in depends_on but not defined",
            ),
            ComposeError::CreateFailed(_) => owned("Failed to create container"),
            ComposeError::MissingContainerId => owned("Missing container ID in response"),
            ComposeError::StartFailed(_) => owned("Failed to start container"),
        }
    }
}

} // verus!
