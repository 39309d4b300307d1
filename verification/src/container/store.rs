//! Where containers are kept between requests.

use crate::container::config::ConfigView;
use crate::container::{AnyContainer, Container, Created, Phase, Running, Stopped};
use crate::diagnostic::Error;
use crate::text::option_view;
use vstd::prelude::*;

verus! {

/// What is recorded of a container: its configuration, its state, and the
/// id of its process where it has one.
pub struct RecordView {
    pub config: ConfigView,
    pub phase: Phase,
    pub pid: Option<u32>,
}

/// The state of a container as it is recorded: `created`, `running` or
/// `stopped`.
pub open spec fn phase_name(phase: Phase) -> Seq<char> {
    match phase {
        Phase::Created => "created"@,
        Phase::Running => "running"@,
        Phase::Stopped => "stopped"@,
    }
}

/// Whether `c` is the container `id` as `record` records it. Of a running
/// container the process id is the recorded one, or 0 where none is
/// recorded; of a stopped container the exit code is 0. The times of start
/// and end are not recorded.
pub open spec fn is_restored(c: AnyContainer, id: Seq<char>, record: RecordView) -> bool {
    &&& c.id_view() == id
    &&& c.config_value()@ == record.config
    &&& c.phase_of() == record.phase
    &&& c matches AnyContainer::Running(r) ==> r.state_value().pid == match record.pid {
        Some(pid) => pid,
        None => 0,
    }
    &&& c matches AnyContainer::Stopped(s) ==> s.state_value().exit_code == 0
}

/// Whether `all` holds each recorded container once, as it is recorded, and
/// nothing else.
pub open spec fn lists_all(all: Seq<AnyContainer>, records: Map<Seq<char>, RecordView>) -> bool {
    &&& forall|i: int|
        0 <= i < all.len() ==> records.dom().contains((#[trigger] all[i]).id_view())
            && is_restored(all[i], all[i].id_view(), records[all[i].id_view()])
    &&& forall|i: int, j: int|
        0 <= i < j < all.len() ==> (#[trigger] all[i]).id_view() != (#[trigger] all[j]).id_view()
    &&& forall|id: Seq<char>| #[trigger]
        records.dom().contains(id) ==> exists|i: int|
            0 <= i < all.len() && (#[trigger] all[i]).id_view() == id
}

/// The durable record of the containers. Every write is one statement: it
/// takes effect as a whole or, where it fails, not at all.
pub trait ContainerStore {
    /// The records, by container id.
    spec fn records(&self) -> Map<Seq<char>, RecordView>;

    /// Records a container that was just created. A container whose id is
    /// already recorded is refused.
    fn save(&mut self, container: &Container<Created>) -> (r: Result<(), Error>)
        ensures
            r is Ok ==> {
                &&& !old(self).records().dom().contains(container.id_view())
                &&& final(self).records() == old(self).records().insert(
                    container.id_view(),
                    RecordView {
                        config: container.config_value()@,
                        phase: Phase::Created,
                        pid: None,
                    },
                )
            },
            r is Err ==> final(self).records() == old(self).records(),
    ;

    /// Records that a container runs, with its configuration and its
    /// process id. Nothing changes where the id is not recorded.
    fn save_running(&mut self, container: &Container<Running>) -> (r: Result<(), Error>)
        ensures
            r is Ok ==> final(self).records() == if old(self).records().dom().contains(
                container.id_view(),
            ) {
                old(self).records().insert(
                    container.id_view(),
                    RecordView {
                        config: container.config_value()@,
                        phase: Phase::Running,
                        pid: Some(container.state_value().pid),
                    },
                )
            } else {
                old(self).records()
            },
            r is Err ==> final(self).records() == old(self).records(),
    ;

    /// Records that a container has stopped. Nothing changes where the id
    /// is not recorded.
    fn save_stopped(&mut self, container: &Container<Stopped>) -> (r: Result<(), Error>)
        ensures
            r is Ok ==> final(self).records() == if old(self).records().dom().contains(
                container.id_view(),
            ) {
                old(self).records().insert(
                    container.id_view(),
                    RecordView {
                        phase: Phase::Stopped,
                        ..old(self).records()[container.id_view()]
                    },
                )
            } else {
                old(self).records()
            },
            r is Err ==> final(self).records() == old(self).records(),
    ;

    /// Every container, whatever its state: each recorded container once.
    fn list(&self) -> (r: Result<Vec<AnyContainer>, Error>)
        ensures
            r matches Ok(all) ==> lists_all(all@, self.records()),
    ;

    /// The container `id`, if it is in the created state.
    fn get(&self, id: &str) -> (r: Result<Option<Container<Created>>, Error>)
        ensures
            r matches Ok(found) ==> match found {
                Some(c) => {
                    &&& self.records().dom().contains(id@)
                    &&& self.records()[id@].phase == Phase::Created
                    &&& c.id_view() == id@
                    &&& c.config_value()@ == self.records()[id@].config
                },
                None => !(self.records().dom().contains(id@) && self.records()[id@].phase
                    == Phase::Created),
            },
    ;

    /// The container `id`, if it is running and its process id is recorded.
    fn get_running(&self, id: &str) -> (r: Result<Option<Container<Running>>, Error>)
        ensures
            r matches Ok(found) ==> match found {
                Some(c) => {
                    &&& self.records().dom().contains(id@)
                    &&& self.records()[id@].phase == Phase::Running
                    &&& c.id_view() == id@
                    &&& c.config_value()@ == self.records()[id@].config
                    &&& self.records()[id@].pid == Some(c.state_value().pid)
                },
                None => !(self.records().dom().contains(id@) && self.records()[id@].phase
                    == Phase::Running),
            },
    ;

    /// The container `id`, whatever its state.
    fn get_any(&self, id: &str) -> (r: Result<Option<AnyContainer>, Error>)
        ensures
            r matches Ok(found) ==> match found {
                Some(c) => self.records().dom().contains(id@) && is_restored(
                    c,
                    id@,
                    self.records()[id@],
                ),
                None => !self.records().dom().contains(id@),
            },
    ;

    /// Removes the record of the container `id`, if there is one.
    fn delete(&mut self, id: &str) -> (r: Result<(), Error>)
        ensures
            r is Ok ==> final(self).records() == old(self).records().remove(id@),
            r is Err ==> final(self).records() == old(self).records(),
    ;

    /// The recorded state of the container `id`.
    fn get_status(&self, id: &str) -> (r: Result<Option<String>, Error>)
        ensures
            r matches Ok(status) ==> option_view(status) == if self.records().dom().contains(
                id@,
            ) {
                Some(phase_name(self.records()[id@].phase))
            } else {
                None
            },
    ;
}

} // verus!
