//! The container and its lifecycle: created, then running, then stopped.
//!
//! A transition exists only on the state it starts from, so an illegal one
//! does not type-check. [`AnyContainer`] erases the state for listings; it
//! offers no transition.

pub mod config;
pub mod memory;
pub mod runtime;
pub mod store;

use crate::container::config::Config;
use crate::container::runtime::ContainerRuntime;
use crate::diagnostic::{Diagnosable, Error};
use crate::text::owned;
use vstd::prelude::*;

verus! {

/// A point in time, as the `time` crate holds it.
#[verifier::external_type_specification]
#[verifier::external_body]
pub struct ExOffsetDateTime(time::OffsetDateTime);

/// A clone of a point in time is that point in time: the type is `Copy`.
pub assume_specification[ <time::OffsetDateTime as Clone>::clone ](
    t: &time::OffsetDateTime,
) -> (out: time::OffsetDateTime)
    ensures
        out == *t,
;

/// `time::OffsetDateTime::now_utc` reads the system clock.
#[verifier::external_body]
pub(crate) fn now_utc() -> (now: time::OffsetDateTime) {
    time::OffsetDateTime::now_utc()
}

/// What goes wrong with a container.
#[derive(Debug, Clone, Copy, PartialEq, Eq, Structural)]
pub enum ContainerError {
    /// An operation was asked of a container in a state that does not offer it.
    InvalidTransition,
}

impl Diagnosable for ContainerError {
    open spec fn message_of(&self) -> Seq<char> {
        "Invalid transition"@
    }

    open spec fn code_of(&self) -> Seq<char> {
        "CONTAINER_INVALID_TRANSITION"@
    }

    open spec fn suggestion_of(&self) -> Option<Seq<char>> {
        Some("Check container state before operation"@)
    }

    fn message(&self) -> (out: String) {
        owned("Invalid transition")
    }

    fn code(&self) -> (out: String) {
        owned("CONTAINER_INVALID_TRANSITION")
    }

    fn suggestion(&self) -> (out: Option<String>) {
        Some(owned("Check container state before operation"))
    }
}

/// The state of a container that was created and never started.
#[derive(Debug, PartialEq, Clone)]
pub struct Created;

/// The state of a container whose process runs.
#[derive(Debug, PartialEq, Clone)]
pub struct Running {
    pub pid: u32,
    pub started_at: time::OffsetDateTime,
}

/// The state of a container whose process has ended.
#[derive(Debug, PartialEq, Clone)]
pub struct Stopped {
    pub finished_at: time::OffsetDateTime,
    pub exit_code: i32,
}

/// A container in the state `S`.
#[derive(Debug, Clone, PartialEq)]
pub struct Container<S> {
    id: String,
    config: Config,
    state: S,
}

impl<S> Container<S> {
    /// The identifier, as a mathematical value.
    pub closed spec fn id_view(&self) -> Seq<char> {
        self.id@
    }

    /// The configuration, as a mathematical value.
    pub closed spec fn config_value(&self) -> Config {
        self.config
    }

    /// The state, as a mathematical value.
    pub closed spec fn state_value(&self) -> S {
        self.state
    }

    /// The identifier.
    pub fn id(&self) -> (out: &str)
        ensures
            out@ == self.id_view(),
    {
        self.id.as_str()
    }

    /// The configuration.
    pub fn config(&self) -> (out: &Config)
        ensures
            *out == self.config_value(),
    {
        &self.config
    }

    /// The state.
    pub fn state(&self) -> (out: &S)
        ensures
            *out == self.state_value(),
    {
        &self.state
    }
}

impl Container<Created> {
    /// A container that was just created.
    pub fn new(id: String, config: Config) -> (out: Container<Created>)
        ensures
            out.id_view() == id@,
            out.config_value() == config,
            out.state_value() == Created,
    {
        Container { id, config, state: Created }
    }

    /// The container after the runtime has answered a request to start it:
    /// running, with the state that the runtime reported, or the runtime's
    /// error. Identifier and configuration stay as they are.
    pub fn started(self, outcome: Result<Running, Error>) -> (r: Result<Container<Running>, Error>)
        ensures
            match outcome {
                Ok(state) => r matches Ok(c) && c.id_view() == self.id_view() && c.config_value()
                    == self.config_value() && c.state_value() == state,
                Err(e) => r == Err::<Container<Running>, Error>(e),
            },
    {
        match outcome {
            Ok(state) => Ok(Container { id: self.id, config: self.config, state }),
            Err(e) => Err(e),
        }
    }

    /// Starts the container with `runtime`. On success the container runs,
    /// with the identifier and the configuration it had.
    pub fn start<R: ContainerRuntime>(self, runtime: &R) -> (r: Result<Container<Running>, Error>)
        ensures
            r matches Ok(c) ==> c.id_view() == self.id_view() && c.config_value()
                == self.config_value(),
    {
        let outcome = runtime.start(&self);
        self.started(outcome)
    }
}

impl Container<Running> {
    /// A running container as it was recorded.
    pub fn restore(id: String, config: Config, state: Running) -> (out: Container<Running>)
        ensures
            out.id_view() == id@,
            out.config_value() == config,
            out.state_value() == state,
    {
        Container { id, config, state }
    }

    /// The container after the runtime has answered a request to stop it at
    /// the time `now`: stopped at that time with exit code 0, or the
    /// runtime's error. Identifier and configuration stay as they are.
    pub fn stopped(self, outcome: Result<(), Error>, now: time::OffsetDateTime) -> (r: Result<
        Container<Stopped>,
        Error,
    >)
        ensures
            match outcome {
                Ok(_) => r matches Ok(c) && c.id_view() == self.id_view() && c.config_value()
                    == self.config_value() && c.state_value() == (Stopped {
                    finished_at: now,
                    exit_code: 0,
                }),
                Err(e) => r == Err::<Container<Stopped>, Error>(e),
            },
    {
        match outcome {
            Ok(_) => Ok(
                Container {
                    id: self.id,
                    config: self.config,
                    state: Stopped { finished_at: now, exit_code: 0 },
                },
            ),
            Err(e) => Err(e),
        }
    }

    /// Stops the container with `runtime`. On success the container is
    /// stopped with exit code 0, with the identifier and the configuration
    /// it had.
    pub fn stop<R: ContainerRuntime>(self, runtime: &R) -> (r: Result<Container<Stopped>, Error>)
        ensures
            r matches Ok(c) ==> c.id_view() == self.id_view() && c.config_value()
                == self.config_value() && c.state_value().exit_code == 0,
    {
        let outcome = runtime.stop(&self);
        let now = now_utc();
        self.stopped(outcome, now)
    }
}

impl Container<Stopped> {
    /// A stopped container as it was recorded.
    pub fn restore(id: String, config: Config, state: Stopped) -> (out: Container<Stopped>)
        ensures
            out.id_view() == id@,
            out.config_value() == config,
            out.state_value() == state,
    {
        Container { id, config, state }
    }
}

/// A container in whatever state it is: for listings and inspection.
#[derive(Debug, Clone)]
pub enum AnyContainer {
    Created(Container<Created>),
    Running(Container<Running>),
    Stopped(Container<Stopped>),
}

/// The three states of the lifecycle.
#[derive(Debug, Clone, Copy, PartialEq, Eq, Structural)]
pub enum Phase {
    Created,
    Running,
    Stopped,
}

/// Whether the lifecycle has an edge from `from` to `to`.
pub open spec fn is_edge(from: Phase, to: Phase) -> bool {
    (from == Phase::Created && to == Phase::Running) || (from == Phase::Running && to
        == Phase::Stopped)
}

impl AnyContainer {
    /// The identifier, as a mathematical value.
    pub open spec fn id_view(&self) -> Seq<char> {
        match *self {
            AnyContainer::Created(c) => c.id_view(),
            AnyContainer::Running(c) => c.id_view(),
            AnyContainer::Stopped(c) => c.id_view(),
        }
    }

    /// The configuration, as a mathematical value.
    pub open spec fn config_value(&self) -> Config {
        match *self {
            AnyContainer::Created(c) => c.config_value(),
            AnyContainer::Running(c) => c.config_value(),
            AnyContainer::Stopped(c) => c.config_value(),
        }
    }

    /// The state of the lifecycle in which the container is.
    pub open spec fn phase_of(&self) -> Phase {
        match *self {
            AnyContainer::Created(_) => Phase::Created,
            AnyContainer::Running(_) => Phase::Running,
            AnyContainer::Stopped(_) => Phase::Stopped,
        }
    }

    /// The identifier.
    pub fn id(&self) -> (out: &str)
        ensures
            out@ == self.id_view(),
    {
        match self {
            AnyContainer::Created(c) => c.id(),
            AnyContainer::Running(c) => c.id(),
            AnyContainer::Stopped(c) => c.id(),
        }
    }

    /// The configuration.
    pub fn config(&self) -> (out: &Config)
        ensures
            *out == self.config_value(),
    {
        match self {
            AnyContainer::Created(c) => c.config(),
            AnyContainer::Running(c) => c.config(),
            AnyContainer::Stopped(c) => c.config(),
        }
    }

    /// The state of the lifecycle in which the container is.
    pub fn phase(&self) -> (out: Phase)
        ensures
            out == self.phase_of(),
    {
        match self {
            AnyContainer::Created(_) => Phase::Created,
            AnyContainer::Running(_) => Phase::Running,
            AnyContainer::Stopped(_) => Phase::Stopped,
        }
    }

    /// The status as clients see it: `created`, `running` or `exited`.
    pub fn status(&self) -> (out: &'static str)
        ensures
            out@ == match self.phase_of() {
                Phase::Created => "created"@,
                Phase::Running => "running"@,
                Phase::Stopped => "exited"@,
            },
    {
        match self {
            AnyContainer::Created(_) => "created",
            AnyContainer::Running(_) => "running",
            AnyContainer::Stopped(_) => "exited",
        }
    }
}

} // verus!
