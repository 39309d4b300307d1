//! What runs containers.

use crate::container::{Container, Created, Running};
use crate::diagnostic::Error;
use vstd::prelude::*;

verus! {

/// The part of the host that starts and stops the process of a container.
pub trait ContainerRuntime {
    /// Starts the container's process and reports its running state, which
    /// holds the process id.
    fn start(&self, container: &Container<Created>) -> Result<Running, Error>;

    /// Stops the container's process.
    fn stop(&self, container: &Container<Running>) -> Result<(), Error>;
}

} // verus!
