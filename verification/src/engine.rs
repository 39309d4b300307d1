//! The engine service: what each request does to the recorded containers,
//! and with which status it is answered.
//!
//! A request that the store or the runtime fails is answered with the
//! status 500 and leaves the records as they were. Apart from that, the
//! answer and the records afterwards are a function of the records before.

use crate::api::create::{config_of, container_config, create_response};
use crate::container::config::{Config, ConfigView};
use crate::container::runtime::ContainerRuntime;
use crate::container::store::{is_restored, lists_all, ContainerStore, RecordView};
use crate::container::{is_edge, AnyContainer, Container, Created, Phase, Running, Stopped};
use crate::diagnostic::Error;
use crate::docker::{ContainerConfig, ContainerCreateResponse};
use crate::text::{concat2, str_eq};
use vstd::prelude::*;

verus! {

/// The records of a store, by container id.
pub type Records = Map<Seq<char>, RecordView>;

/// Whether every container that is recorded before and after is in the
/// state it was in, or in the state that follows it in the lifecycle.
pub open spec fn respects_lifecycle(before: Records, after: Records) -> bool {
    forall|id: Seq<char>|
        before.dom().contains(id) && #[trigger] after.dom().contains(id) ==> after[id].phase
            == before[id].phase || is_edge(before[id].phase, after[id].phase)
}

/// Whether the container `id` is recorded in the state `phase`.
pub open spec fn is_in(records: Records, id: Seq<char>, phase: Phase) -> bool {
    records.dom().contains(id) && records[id].phase == phase
}

/// The records after a container with the configuration `config` is
/// created under `id`.
pub open spec fn after_create(records: Records, id: Seq<char>, config: ConfigView) -> Records {
    records.insert(id, RecordView { config, phase: Phase::Created, pid: None })
}

/// Whether two configurations declare the same host port.
pub open spec fn share_host_port(a: ConfigView, b: ConfigView) -> bool {
    exists|i: int, j: int|
        0 <= i < a.port_mappings.len() && 0 <= j < b.port_mappings.len() && (
        #[trigger] a.port_mappings[i]).host_port == (#[trigger] b.port_mappings[j]).host_port
}

/// Whether a host port that the container `id` declares is taken: another
/// container that runs declares it too.
pub open spec fn port_taken(records: Records, id: Seq<char>) -> bool {
    exists|other: Seq<char>|
        other != id && #[trigger] is_in(records, other, Phase::Running) && share_host_port(
            records[id].config,
            records[other].config,
        )
}

/// The status that answers a request to start the container `id`, where
/// store and runtime do not fail: 404 for a container that is not in the
/// created state; 500 where a host port that it declares is taken by a
/// running container; else 204.
pub open spec fn start_status(records: Records, id: Seq<char>) -> u16 {
    if !is_in(records, id, Phase::Created) {
        404
    } else if port_taken(records, id) {
        500
    } else {
        204
    }
}

/// The records after the container `id` was started as the process `pid`.
pub open spec fn after_start(records: Records, id: Seq<char>, pid: u32) -> Records {
    if start_status(records, id) == 204 {
        records.insert(
            id,
            RecordView { phase: Phase::Running, pid: Some(pid), ..records[id] },
        )
    } else {
        records
    }
}

/// The status that answers a request to stop the container `id`, where
/// store and runtime do not fail: 204 for a running container, else 404.
pub open spec fn stop_status(records: Records, id: Seq<char>) -> u16 {
    if is_in(records, id, Phase::Running) {
        204
    } else {
        404
    }
}

/// The records after a request to stop the container `id`.
pub open spec fn after_stop(records: Records, id: Seq<char>) -> Records {
    if is_in(records, id, Phase::Running) {
        records.insert(id, RecordView { phase: Phase::Stopped, ..records[id] })
    } else {
        records
    }
}

/// The status that answers a request to delete the container `id`, where
/// the store does not fail: 404 for a container that is not recorded, 409
/// for a running one, else 204.
pub open spec fn delete_status(records: Records, id: Seq<char>) -> u16 {
    if !records.dom().contains(id) {
        404
    } else if records[id].phase == Phase::Running {
        409
    } else {
        204
    }
}

/// The records after a request to delete the container `id`.
pub open spec fn after_delete(records: Records, id: Seq<char>) -> Records {
    if delete_status(records, id) == 204 {
        records.remove(id)
    } else {
        records
    }
}

/// The status that answers a request once the store has answered a write:
/// `done` where it succeeded, 500 where it failed.
pub fn written_status(written: &Result<(), Error>, done: u16) -> (status: u16)
    ensures
        status == if written is Ok {
            done
        } else {
            500u16
        },
{
    match written {
        Ok(_) => done,
        Err(_) => 500,
    }
}

/// What was looked up for a request, or the status that answers the request
/// where there is nothing to go on with: 404 where nothing was found, 500
/// where the store failed.
pub fn found_or_status<T>(loaded: Result<Option<T>, Error>) -> (r: Result<T, u16>)
    ensures
        match loaded {
            Ok(Some(found)) => r == Ok::<T, u16>(found),
            Ok(None) => r == Err::<T, u16>(404),
            Err(_) => r == Err::<T, u16>(500),
        },
{
    match loaded {
        Ok(Some(found)) => Ok(found),
        Ok(None) => Err(404),
        Err(_) => Err(500),
    }
}

/// Whether a container of the recorded state `status` is deleted: the
/// status that refuses the request, or nothing where it goes on. A
/// container that is not recorded is answered with 404, a running one with
/// 409, and a failure of the store with 500.
pub fn deletion_refused(status: &Result<Option<String>, Error>) -> (r: Option<u16>)
    ensures
        r == match *status {
            Ok(Some(state)) => if state@ == "running"@ {
                Some(409u16)
            } else {
                None
            },
            Ok(None) => Some(404u16),
            Err(_) => Some(500u16),
        },
{
    match status {
        Ok(Some(state)) => {
            if str_eq(state.as_str(), "running") {
                Some(409)
            } else {
                None
            }
        },
        Ok(None) => Some(404),
        Err(_) => Some(500),
    }
}

/// Creates a container under `id` as `body` asks. The answer is 201 with
/// the id, or 500 where the store fails, which it does for an id that is
/// already recorded.
pub fn create_container<S: ContainerStore>(store: &mut S, id: String, body: &ContainerConfig) -> (r:
    (u16, Option<ContainerCreateResponse>))
    ensures
        r.0 == 201 || r.0 == 500,
        r.0 == 201 ==> {
            &&& !old(store).records().dom().contains(id@)
            &&& final(store).records() == after_create(
                old(store).records(),
                id@,
                config_of(*body),
            )
            &&& r.1 matches Some(answer)
            &&& answer.id@ == id@
            &&& answer.warnings@.len() == 0
        },
        r.0 == 500 ==> final(store).records() == old(store).records() && r.1 is None,
        respects_lifecycle(old(store).records(), final(store).records()),
{
    let config = container_config(body);
    let answer = create_response(id.as_str());
    let container = Container::new(id, config);
    let saved = store.save(&container);
    if written_status(&saved, 201) == 201 {
        (201, Some(answer))
    } else {
        (500, None)
    }
}

fn configs_share_host_port(a: &Config, b: &Config) -> (r: bool)
    ensures
        r == share_host_port(a@, b@),
{
    let mut i: usize = 0;
    while i < a.port_mappings.len()
        invariant
            i <= a.port_mappings.len(),
            forall|x: int, y: int|
                0 <= x < i && 0 <= y < b@.port_mappings.len() ==> (#[trigger] a@.port_mappings[x]).host_port
                    != (#[trigger] b@.port_mappings[y]).host_port,
        decreases a.port_mappings.len() - i,
    {
        let mut j: usize = 0;
        while j < b.port_mappings.len()
            invariant
                i < a.port_mappings.len(),
                j <= b.port_mappings.len(),
                forall|y: int|
                    0 <= y < j ==> a@.port_mappings[i as int].host_port != (
                    #[trigger] b@.port_mappings[y]).host_port,
            decreases b.port_mappings.len() - j,
        {
            if a.port_mappings[i].host_port == b.port_mappings[j].host_port {
                proof {
                    assert(a@.port_mappings[i as int].host_port == b@.port_mappings[j as int].host_port);
                }
                return true;
            }
            j += 1;
        }
        i += 1;
    }
    false
}

/// Whether a host port that `config`, the configuration of the container
/// `id`, declares is declared by a running container among `all` that has
/// another id.
pub fn host_port_taken(id: &str, config: &Config, all: &Vec<AnyContainer>) -> (r: bool)
    ensures
        r == exists|k: int|
            0 <= k < all@.len() && (#[trigger] all@[k]).id_view() != id@ && all@[k].phase_of()
                == Phase::Running && share_host_port(config@, all@[k].config_value()@),
{
    let mut k: usize = 0;
    while k < all.len()
        invariant
            k <= all.len(),
            forall|m: int|
                0 <= m < k ==> !((#[trigger] all@[m]).id_view() != id@ && all@[m].phase_of()
                    == Phase::Running && share_host_port(config@, all@[m].config_value()@)),
        decreases all.len() - k,
    {
        let running = match all[k].phase() {
            Phase::Running => true,
            _ => false,
        };
        if running && !str_eq(all[k].id(), id) && configs_share_host_port(config, all[k].config()) {
            return true;
        }
        k += 1;
    }
    false
}

/// Starts the container `id` with `runtime`. A container that declares a
/// host port which a running container declares too is not started. Where
/// the running state cannot be recorded, the process is stopped again.
pub fn start_container<S: ContainerStore, R: ContainerRuntime>(
    store: &mut S,
    runtime: &R,
    id: &str,
) -> (status: u16)
    ensures
        status == 500 || status == start_status(old(store).records(), id@),
        status == 204 ==> exists|pid: u32|
            final(store).records() == after_start(old(store).records(), id@, pid),
        status != 204 ==> final(store).records() == old(store).records(),
        respects_lifecycle(old(store).records(), final(store).records()),
{
    let container = match found_or_status(store.get(id)) {
        Ok(c) => c,
        Err(status) => {
            return status;
        },
    };
    let all = match store.list() {
        Ok(all) => all,
        Err(_) => {
            return 500;
        },
    };
    let taken = host_port_taken(id, container.config(), &all);
    proof {
        let records = old(store).records();
        if taken {
            let k = choose|k: int|
                0 <= k < all@.len() && (#[trigger] all@[k]).id_view() != id@ && all@[k].phase_of()
                    == Phase::Running && share_host_port(
                    container.config_value()@,
                    all@[k].config_value()@,
                );
            let other = all@[k].id_view();
            assert(is_restored(all@[k], other, records[other]));
            assert(is_in(records, other, Phase::Running));
            assert(port_taken(records, id@));
        } else {
            if port_taken(records, id@) {
                let other = choose|other: Seq<char>|
                    other != id@ && #[trigger] is_in(records, other, Phase::Running)
                        && share_host_port(records[id@].config, records[other].config);
                let k = choose|k: int| 0 <= k < all@.len() && (#[trigger] all@[k]).id_view() == other;
                assert(is_restored(all@[k], other, records[other]));
                assert(false);
            }
        }
    }
    if taken {
        return 500;
    }
    let running = match container.start(runtime) {
        Ok(c) => c,
        Err(_) => {
            return 500;
        },
    };
    match store.save_running(&running) {
        Ok(_) => {
            proof {
                let pid = running.state_value().pid;
                assert(final(store).records() =~= after_start(old(store).records(), id@, pid));
            }
            204
        },
        Err(_) => {
            let _ = running.stop(runtime);
            500
        },
    }
}

/// Stops the running container `id` with `runtime`. A container that is
/// not running is answered with 404 and nothing is changed.
pub fn stop_container<S: ContainerStore, R: ContainerRuntime>(
    store: &mut S,
    runtime: &R,
    id: &str,
) -> (status: u16)
    ensures
        status == 500 || status == stop_status(old(store).records(), id@),
        status == 204 ==> final(store).records() == after_stop(old(store).records(), id@),
        status != 204 ==> final(store).records() == old(store).records(),
        respects_lifecycle(old(store).records(), final(store).records()),
{
    let container = match found_or_status(store.get_running(id)) {
        Ok(c) => c,
        Err(status) => {
            return status;
        },
    };
    let stopped = match container.stop(runtime) {
        Ok(c) => c,
        Err(_) => {
            return 500;
        },
    };
    match store.save_stopped(&stopped) {
        Ok(_) => {
            proof {
                assert(final(store).records() =~= after_stop(old(store).records(), id@));
            }
            204
        },
        Err(_) => 500,
    }
}

/// The name of the log file of the container `id`, in the directory of the
/// logs.
pub open spec fn log_name_of(id: Seq<char>) -> Seq<char> {
    id + ".log"@
}

/// Deletes the container `id` unless it runs. With the status 204 comes the
/// name of the container's log file, which the host removes.
pub fn delete_container<S: ContainerStore>(store: &mut S, id: &str) -> (r: (u16, Option<String>))
    ensures
        r.0 == 500 || r.0 == delete_status(old(store).records(), id@),
        r.0 == 204 ==> final(store).records() == after_delete(old(store).records(), id@),
        r.0 != 204 ==> final(store).records() == old(store).records(),
        r.0 == 204 <==> r.1 is Some,
        r.1 matches Some(name) ==> name@ == log_name_of(id@),
        respects_lifecycle(old(store).records(), final(store).records()),
{
    let status = store.get_status(id);
    proof {
        if old(store).records().dom().contains(id@) {
            crate::container::memory::lemma_phase_names_round_trip(old(store).records()[id@].phase);
        }
        crate::container::memory::lemma_phase_names_round_trip(Phase::Running);
    }
    match deletion_refused(&status) {
        Some(refusal) => (refusal, None),
        None => {
            let deleted = store.delete(id);
            if written_status(&deleted, 204) == 204 {
                (204, Some(log_name(id)))
            } else {
                (500, None)
            }
        },
    }
}

/// The name of the log file of the container `id`.
pub fn log_name(id: &str) -> (out: String)
    ensures
        out@ == log_name_of(id@),
{
    concat2(id, ".log")
}

/// Every container, whatever its state; none where the store fails.
pub fn list_containers<S: ContainerStore>(store: &S) -> (all: Vec<AnyContainer>)
    ensures
        all@.len() == 0 || lists_all(all@, store.records()),
{
    let outcome = store.list();
    // a store that fails is answered like a store without containers
    let all = listed_or_none(outcome);
    all
}

/// The container `id` for inspection: 200 with the container, 404 where it
/// is not recorded, 500 where the store fails.
pub fn find_container<S: ContainerStore>(store: &S, id: &str) -> (r: (u16, Option<AnyContainer>))
    ensures
        r.0 == 200 || r.0 == 404 || r.0 == 500,
        r.0 == 200 ==> {
            &&& store.records().dom().contains(id@)
            &&& r.1 matches Some(c)
            &&& is_restored(c, id@, store.records()[id@])
        },
        r.0 == 404 ==> !store.records().dom().contains(id@) && r.1 is None,
        r.0 == 500 ==> r.1 is None,
{
    match store.get_any(id) {
        Ok(Some(c)) => (200, Some(c)),
        Ok(None) => (404, None),
        Err(_) => (500, None),
    }
}

/// What a listing shows once the store has answered: the containers that
/// it listed, as they are and in their order; none where it failed.
pub fn listed_or_none(outcome: Result<Vec<AnyContainer>, Error>) -> (all: Vec<AnyContainer>)
    ensures
        match outcome {
            Ok(listed) => all == listed,
            Err(_) => all@ == Seq::<AnyContainer>::empty(),
        },
{
    match outcome {
        Ok(listed) => listed,
        Err(_) => Vec::new(),
    }
}

/// The sum of the code points of the first `n` characters of an id.
pub open spec fn code_sum(id: Seq<char>, n: int) -> int
    decreases n,
{
    if n <= 0 {
        0
    } else {
        code_sum(id, n - 1) + id[n - 1] as u32
    }
}

/// The lock that serializes the transitions of the container `id`, where
/// the engine keeps `stripes` locks: the sum of the code points of the id,
/// taken modulo the number of locks. The same id always has the same lock.
pub open spec fn stripe_of(id: Seq<char>, stripes: usize) -> int {
    if stripes == 0 {
        0
    } else {
        code_sum(id, id.len() as int) % (stripes as int)
    }
}

/// The lock that serializes the transitions of the container `id`, among
/// `stripes` locks.
pub fn stripe(id: &str, stripes: usize) -> (out: usize)
    ensures
        out == stripe_of(id@, stripes),
        stripes > 0 ==> out < stripes,
{
    if stripes == 0 {
        return 0;
    }
    let v = crate::text::to_chars(id);
    let mut at: usize = 0;
    let mut i: usize = 0;
    while i < v.len()
        invariant
            i <= v.len(),
            stripes > 0,
            at < stripes,
            at == code_sum(v@, i as int) % (stripes as int),
        decreases v.len() - i,
    {
        let code = (v[i] as u32 as usize) % stripes;
        proof {
            let before = code_sum(v@, i as int);
            let c = v[i as int] as u32 as int;
            let m = stripes as int;
            vstd::arithmetic::div_mod::lemma_add_mod_noop(before, c, m);
        }
        at = ((at as u128 + code as u128) % (stripes as u128)) as usize;
        i += 1;
    }
    at
}

// ---------------------------------------------------------------------------
// What holds of every sequence of requests
// ---------------------------------------------------------------------------

/// A container that was created is recorded under its id with the
/// configuration that was asked for, in the created state; it is in every
/// listing of the records, and it is what a lookup by its id finds.
pub proof fn lemma_created_is_found(
    records: Records,
    id: Seq<char>,
    config: ConfigView,
    all: Seq<AnyContainer>,
    found: AnyContainer,
)
    requires
        lists_all(all, after_create(records, id, config)),
        is_restored(found, id, after_create(records, id, config)[id]),
    ensures
        is_in(after_create(records, id, config), id, Phase::Created),
        after_create(records, id, config)[id].config == config,
        exists|i: int|
            0 <= i < all.len() && (#[trigger] all[i]).id_view() == id && all[i].config_value()@
                == config && all[i].phase_of() == Phase::Created,
        found.id_view() == id,
        found.config_value()@ == config,
        found.config_value()@.image == config.image,
        found.config_value()@.cmd == config.cmd,
        found.config_value()@.port_mappings == config.port_mappings,
{
    let after = after_create(records, id, config);
    assert(after.dom().contains(id));
    let i = choose|i: int| 0 <= i < all.len() && (#[trigger] all[i]).id_view() == id;
    assert(is_restored(all[i], all[i].id_view(), after[all[i].id_view()]));
}

/// To stop a container that is not running changes nothing, and is answered
/// with 404 every time.
pub proof fn lemma_stop_of_idle_changes_nothing(records: Records, id: Seq<char>)
    requires
        !is_in(records, id, Phase::Running),
    ensures
        stop_status(records, id) == 404,
        after_stop(records, id) == records,
        stop_status(after_stop(records, id), id) == 404,
{
}

/// To delete a stopped container twice is answered with 204 and then with
/// 404, and after the first time the container is not recorded.
pub proof fn lemma_double_delete(records: Records, id: Seq<char>)
    requires
        is_in(records, id, Phase::Stopped),
    ensures
        delete_status(records, id) == 204,
        !after_delete(records, id).dom().contains(id),
        delete_status(after_delete(records, id), id) == 404,
        after_delete(after_delete(records, id), id) == after_delete(records, id),
{
}

/// Whatever a request does to the records, no container leaves the
/// lifecycle: what create, start, stop and delete make of the records
/// respects it.
pub proof fn lemma_requests_respect_lifecycle(
    records: Records,
    id: Seq<char>,
    config: ConfigView,
    pid: u32,
)
    ensures
        !records.dom().contains(id) ==> respects_lifecycle(
            records,
            after_create(records, id, config),
        ),
        respects_lifecycle(records, after_start(records, id, pid)),
        respects_lifecycle(records, after_stop(records, id)),
        respects_lifecycle(records, after_delete(records, id)),
{
}

} // verus!
