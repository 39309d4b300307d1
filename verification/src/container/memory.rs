//! A container store that keeps its records in memory.

use crate::container::config::Config;
use crate::container::store::{
    is_restored, lists_all, phase_name, ContainerStore, RecordView,
};
use crate::container::{now_utc, AnyContainer, Container, Created, Phase, Running, Stopped};
use crate::diagnostic::{Diagnosable, Error};
use crate::text::{concat2, owned, str_eq};
use vstd::prelude::*;

verus! {

/// The error of a store whose statement failed; the text is the reason.
#[derive(Debug, Clone)]
pub struct DbError(pub String);

impl Diagnosable for DbError {
    open spec fn message_of(&self) -> Seq<char> {
        "Database error: "@ + self.0@
    }

    open spec fn code_of(&self) -> Seq<char> {
        "DB_ERROR"@
    }

    open spec fn suggestion_of(&self) -> Option<Seq<char>> {
        Some("Check database connection or query syntax"@)
    }

    fn message(&self) -> (out: String) {
        concat2("Database error: ", self.0.as_str())
    }

    fn code(&self) -> (out: String) {
        owned("DB_ERROR")
    }

    fn suggestion(&self) -> (out: Option<String>) {
        Some(owned("Check database connection or query syntax"))
    }
}

/// The error of a record that cannot be written as, or read from, text; the
/// text is the reason.
#[derive(Debug, Clone)]
pub struct SerializationError(pub String);

impl Diagnosable for SerializationError {
    open spec fn message_of(&self) -> Seq<char> {
        "Serialization error: "@ + self.0@
    }

    open spec fn code_of(&self) -> Seq<char> {
        "DB_SERIALIZATION_ERROR"@
    }

    open spec fn suggestion_of(&self) -> Option<Seq<char>> {
        Some("Check data integrity"@)
    }

    fn message(&self) -> (out: String) {
        concat2("Serialization error: ", self.0.as_str())
    }

    fn code(&self) -> (out: String) {
        owned("DB_SERIALIZATION_ERROR")
    }

    fn suggestion(&self) -> (out: Option<String>) {
        Some(owned("Check data integrity"))
    }
}

/// The state of the lifecycle that a recorded name stands for.
pub open spec fn phase_named(name: Seq<char>) -> Option<Phase> {
    if name == "created"@ {
        Some(Phase::Created)
    } else if name == "running"@ {
        Some(Phase::Running)
    } else if name == "stopped"@ {
        Some(Phase::Stopped)
    } else {
        None
    }
}

impl Phase {
    /// The name under which the state is recorded.
    pub fn as_str(&self) -> (out: &'static str)
        ensures
            out@ == phase_name(*self),
    {
        match self {
            Phase::Created => "created",
            Phase::Running => "running",
            Phase::Stopped => "stopped",
        }
    }

    /// The state that a recorded name stands for.
    pub fn parse(name: &str) -> (out: Option<Phase>)
        ensures
            out == phase_named(name@),
    {
        if str_eq(name, "created") {
            Some(Phase::Created)
        } else if str_eq(name, "running") {
            Some(Phase::Running)
        } else if str_eq(name, "stopped") {
            Some(Phase::Stopped)
        } else {
            None
        }
    }
}

/// Every state is recorded under a name of its own, and is read back from
/// it: the recorded state of a container is always one of `created`,
/// `running` and `stopped`.
pub proof fn lemma_phase_names_round_trip(phase: Phase)
    ensures
        phase_named(phase_name(phase)) == Some(phase),
        phase_name(phase) == "created"@ || phase_name(phase) == "running"@ || phase_name(phase)
            == "stopped"@,
{
    reveal_strlit("created");
    reveal_strlit("running");
    reveal_strlit("stopped");
    assert("created"@.len() == 7);
    assert("running"@[0] == 'r');
    assert("created"@[0] == 'c');
    assert("stopped"@[0] == 's');
}

/// The container `id` with the configuration `config`, in the state
/// `phase`. Of a running container the process id is `pid`, or 0 where
/// there is none, and the time of start is now; of a stopped container the
/// exit code is 0 and the time of the end is now.
pub fn restore_phase(id: String, config: Config, phase: Phase, pid: Option<u32>) -> (out:
    AnyContainer)
    ensures
        is_restored(out, id@, RecordView { config: config@, phase, pid }),
{
    match phase {
        Phase::Created => AnyContainer::Created(Container::new(id, config)),
        Phase::Running => {
            let state = Running {
                pid: match pid {
                    Some(p) => p,
                    None => 0,
                },
                started_at: now_utc(),
            };
            AnyContainer::Running(Container::<Running>::restore(id, config, state))
        },
        Phase::Stopped => {
            let state = Stopped { finished_at: now_utc(), exit_code: 0 };
            AnyContainer::Stopped(Container::<Stopped>::restore(id, config, state))
        },
    }
}

/// The container that a record stands for, where the recorded state is one
/// of the three names; `None` for any other name.
pub fn restore(id: String, config: Config, state: &str, pid: Option<u32>) -> (out: Option<
    AnyContainer,
>)
    ensures
        match phase_named(state@) {
            Some(phase) => out matches Some(c) && is_restored(
                c,
                id@,
                RecordView { config: config@, phase, pid },
            ),
            None => out is None,
        },
{
    match Phase::parse(state) {
        Some(phase) => Some(restore_phase(id, config, phase, pid)),
        None => None,
    }
}

/// One record of a [`MemoryStore`].
#[derive(Debug)]
pub struct StoredContainer {
    pub id: String,
    pub config: Config,
    pub phase: Phase,
    pub pid: Option<u32>,
}

/// What a stored container records.
pub open spec fn record_of(item: StoredContainer) -> RecordView {
    RecordView { config: item.config@, phase: item.phase, pid: item.pid }
}

/// Whether no two items have the same id.
pub open spec fn distinct_ids(items: Seq<StoredContainer>) -> bool {
    forall|i: int, j: int| 0 <= i < j < items.len() ==> items[i].id@ != items[j].id@
}

/// The records of a list of items, by id.
pub open spec fn table_of(items: Seq<StoredContainer>) -> Map<Seq<char>, RecordView> {
    Map::new(
        |id: Seq<char>| exists|i: int| 0 <= i < items.len() && (#[trigger] items[i]).id@ == id,
        |id: Seq<char>|
            record_of(items[choose|i: int| 0 <= i < items.len() && (#[trigger] items[i]).id@ == id]),
    )
}

/// Where no two items have the same id, the table has each item under its id.
proof fn lemma_table_at(items: Seq<StoredContainer>, i: int)
    requires
        distinct_ids(items),
        0 <= i < items.len(),
    ensures
        table_of(items).dom().contains(items[i].id@),
        table_of(items)[items[i].id@] == record_of(items[i]),
{
    let id = items[i].id@;
    let k = choose|k: int| 0 <= k < items.len() && (#[trigger] items[k]).id@ == id;
    if k < i {
        assert(items[k].id@ != items[i].id@);
    } else if i < k {
        assert(items[i].id@ != items[k].id@);
    }
}

/// The table of a list with one more item, of a new id, is the table with
/// that item inserted.
proof fn lemma_table_push(items: Seq<StoredContainer>, item: StoredContainer)
    requires
        distinct_ids(items),
        forall|i: int| 0 <= i < items.len() ==> (#[trigger] items[i]).id@ != item.id@,
    ensures
        distinct_ids(items.push(item)),
        table_of(items.push(item)) == table_of(items).insert(item.id@, record_of(item)),
{
    let more = items.push(item);
    assert(distinct_ids(more)) by {
        assert forall|i: int, j: int| 0 <= i < j < more.len() implies more[i].id@
            != more[j].id@ by {
            if j < items.len() {
                assert(more[i] == items[i]);
                assert(more[j] == items[j]);
            } else {
                assert(more[i] == items[i]);
            }
        }
    }
    let a = table_of(more);
    let b = table_of(items).insert(item.id@, record_of(item));
    assert forall|id: Seq<char>| a.dom().contains(id) <==> b.dom().contains(id) by {
        if a.dom().contains(id) {
            let k = choose|k: int| 0 <= k < more.len() && (#[trigger] more[k]).id@ == id;
            if k < items.len() {
                assert(items[k].id@ == id);
            }
        }
        if b.dom().contains(id) {
            if id == item.id@ {
                assert(more[items.len() as int].id@ == id);
            } else {
                let k = choose|k: int| 0 <= k < items.len() && (#[trigger] items[k]).id@ == id;
                assert(more[k].id@ == id);
            }
        }
    }
    assert forall|id: Seq<char>| a.dom().contains(id) implies a[id] == b[id] by {
        let k = choose|k: int| 0 <= k < more.len() && (#[trigger] more[k]).id@ == id;
        lemma_table_at(more, k);
        if k < items.len() {
            assert(more[k] == items[k]);
            lemma_table_at(items, k);
        }
    }
    assert(a =~= b);
}

/// The table of a list in which an item is replaced by one of the same id
/// is the table with the new item inserted.
proof fn lemma_table_update(items: Seq<StoredContainer>, i: int, item: StoredContainer)
    requires
        distinct_ids(items),
        0 <= i < items.len(),
        item.id@ == items[i].id@,
    ensures
        distinct_ids(items.update(i, item)),
        table_of(items.update(i, item)) == table_of(items).insert(item.id@, record_of(item)),
{
    let more = items.update(i, item);
    assert(distinct_ids(more)) by {
        assert forall|a: int, b: int| 0 <= a < b < more.len() implies more[a].id@
            != more[b].id@ by {
            assert(more[a].id@ == items[a].id@);
            assert(more[b].id@ == items[b].id@);
        }
    }
    let a = table_of(more);
    let b = table_of(items).insert(item.id@, record_of(item));
    assert forall|id: Seq<char>| a.dom().contains(id) <==> b.dom().contains(id) by {
        if a.dom().contains(id) {
            let k = choose|k: int| 0 <= k < more.len() && (#[trigger] more[k]).id@ == id;
            assert(items[k].id@ == id);
        }
        if b.dom().contains(id) {
            if id == item.id@ {
                assert(more[i].id@ == id);
            } else {
                let k = choose|k: int| 0 <= k < items.len() && (#[trigger] items[k]).id@ == id;
                assert(more[k].id@ == id);
            }
        }
    }
    assert forall|id: Seq<char>| a.dom().contains(id) implies a[id] == b[id] by {
        let k = choose|k: int| 0 <= k < more.len() && (#[trigger] more[k]).id@ == id;
        lemma_table_at(more, k);
        if k != i {
            assert(more[k] == items[k]);
            lemma_table_at(items, k);
            assert(items[k].id@ != items[i].id@) by {
                if k < i {
                } else {
                }
            }
        }
    }
    assert(a =~= b);
}

/// The table of a list without one of its items is the table without the
/// id of that item.
proof fn lemma_table_remove(items: Seq<StoredContainer>, i: int)
    requires
        distinct_ids(items),
        0 <= i < items.len(),
    ensures
        distinct_ids(items.remove(i)),
        table_of(items.remove(i)) == table_of(items).remove(items[i].id@),
{
    let less = items.remove(i);
    assert(distinct_ids(less)) by {
        assert forall|a: int, b: int| 0 <= a < b < less.len() implies less[a].id@
            != less[b].id@ by {
            let a0 = if a < i {
                a
            } else {
                a + 1
            };
            let b0 = if b < i {
                b
            } else {
                b + 1
            };
            assert(less[a] == items[a0]);
            assert(less[b] == items[b0]);
        }
    }
    let a = table_of(less);
    let b = table_of(items).remove(items[i].id@);
    assert forall|id: Seq<char>| a.dom().contains(id) <==> b.dom().contains(id) by {
        if a.dom().contains(id) {
            let k = choose|k: int| 0 <= k < less.len() && (#[trigger] less[k]).id@ == id;
            let k0 = if k < i {
                k
            } else {
                k + 1
            };
            assert(less[k] == items[k0]);
            assert(items[k0].id@ == id);
            if k0 < i {
                assert(items[k0].id@ != items[i].id@);
            } else {
                assert(items[i].id@ != items[k0].id@);
            }
        }
        if b.dom().contains(id) {
            let k = choose|k: int| 0 <= k < items.len() && (#[trigger] items[k]).id@ == id;
            assert(k != i);
            let k1 = if k < i {
                k
            } else {
                k - 1
            };
            assert(less[k1] == items[k]);
            assert(less[k1].id@ == id);
        }
    }
    assert forall|id: Seq<char>| a.dom().contains(id) implies a[id] == b[id] by {
        let k = choose|k: int| 0 <= k < less.len() && (#[trigger] less[k]).id@ == id;
        let k0 = if k < i {
            k
        } else {
            k + 1
        };
        assert(less[k] == items[k0]);
        lemma_table_at(less, k);
        lemma_table_at(items, k0);
    }
    assert(a =~= b);
}

/// Whether two lists of items record the same, item by item.
pub open spec fn same_items(a: Seq<StoredContainer>, b: Seq<StoredContainer>) -> bool {
    a.len() == b.len() && forall|i: int|
        0 <= i < a.len() ==> (#[trigger] a[i]).id@ == b[i].id@ && record_of(a[i]) == record_of(b[i])
}

/// Lists that record the same, item by item, have the same table.
proof fn lemma_same_items(a: Seq<StoredContainer>, b: Seq<StoredContainer>)
    requires
        same_items(a, b),
        distinct_ids(a),
    ensures
        distinct_ids(b),
        table_of(a) == table_of(b),
{
    assert(distinct_ids(b)) by {
        assert forall|i: int, j: int| 0 <= i < j < b.len() implies b[i].id@ != b[j].id@ by {
            assert(a[i].id@ == b[i].id@);
            assert(a[j].id@ == b[j].id@);
        }
    }
    let x = table_of(a);
    let y = table_of(b);
    assert forall|id: Seq<char>| x.dom().contains(id) <==> y.dom().contains(id) by {
        if x.dom().contains(id) {
            let k = choose|k: int| 0 <= k < a.len() && (#[trigger] a[k]).id@ == id;
            assert(b[k].id@ == id);
        }
        if y.dom().contains(id) {
            let k = choose|k: int| 0 <= k < b.len() && (#[trigger] b[k]).id@ == id;
            assert(a[k].id@ == id);
        }
    }
    assert forall|id: Seq<char>| x.dom().contains(id) implies x[id] == y[id] by {
        let k = choose|k: int| 0 <= k < a.len() && (#[trigger] a[k]).id@ == id;
        lemma_table_at(a, k);
        assert(b[k].id@ == id);
        lemma_table_at(b, k);
    }
    assert(x =~= y);
}

fn copy_items(items: &Vec<StoredContainer>) -> (out: Vec<StoredContainer>)
    ensures
        same_items(items@, out@),
{
    let mut out: Vec<StoredContainer> = Vec::new();
    let mut i: usize = 0;
    while i < items.len()
        invariant
            i <= items.len(),
            out.len() == i,
            forall|j: int|
                0 <= j < i ==> (#[trigger] items@[j]).id@ == out@[j].id@ && record_of(items@[j])
                    == record_of(out@[j]),
        decreases items.len() - i,
    {
        out.push(
            StoredContainer {
                id: items[i].id.clone(),
                config: items[i].config.duplicate(),
                phase: items[i].phase,
                pid: items[i].pid,
            },
        );
        i += 1;
    }
    out
}

/// A container store in memory: the double of the durable store. Its
/// statements never fail but for a container that is recorded twice.
#[derive(Debug)]
pub struct MemoryStore {
    items: Vec<StoredContainer>,
}

impl MemoryStore {
    #[verifier::type_invariant]
    closed spec fn well_formed(self) -> bool {
        distinct_ids(self.items@)
    }

    /// A store without records.
    pub fn new() -> (out: MemoryStore)
        ensures
            out.records() == Map::<Seq<char>, RecordView>::empty(),
    {
        let out = MemoryStore { items: Vec::new() };
        proof {
            assert(out.records() =~= Map::<Seq<char>, RecordView>::empty());
        }
        out
    }

    fn position(&self, id: &str) -> (r: Option<usize>)
        ensures
            match r {
                Some(i) => i < self.items@.len() && self.items@[i as int].id@ == id@
                    && self.records().dom().contains(id@) && self.records()[id@] == record_of(
                    self.items@[i as int],
                ),
                None => !self.records().dom().contains(id@),
            },
    {
        proof {
            use_type_invariant(self);
        }
        let mut i: usize = 0;
        while i < self.items.len()
            invariant
                i <= self.items.len(),
                distinct_ids(self.items@),
                forall|j: int| 0 <= j < i ==> (#[trigger] self.items@[j]).id@ != id@,
            decreases self.items.len() - i,
        {
            if str_eq(self.items[i].id.as_str(), id) {
                proof {
                    lemma_table_at(self.items@, i as int);
                }
                return Some(i);
            }
            i += 1;
        }
        None
    }
}

impl ContainerStore for MemoryStore {
    closed spec fn records(&self) -> Map<Seq<char>, RecordView> {
        table_of(self.items@)
    }

    fn save(&mut self, container: &Container<Created>) -> (r: Result<(), Error>)
        ensures
            r is Ok <==> !old(self).records().dom().contains(container.id_view()),
    {
        proof {
            use_type_invariant(&*self);
        }
        match self.position(container.id()) {
            Some(_) => Err(Error::new(DbError(owned("UNIQUE constraint failed: containers.id")))),
            None => {
                let item = StoredContainer {
                    id: container.id().to_owned(),
                    config: container.config().duplicate(),
                    phase: Phase::Created,
                    pid: None,
                };
                let mut items = copy_items(&self.items);
                proof {
                    lemma_same_items(self.items@, items@);
                    assert forall|i: int| 0 <= i < items@.len() implies (#[trigger] items@[i]).id@
                        != item.id@ by {
                        if items@[i].id@ == item.id@ {
                            lemma_table_at(items@, i);
                        }
                    }
                    lemma_table_push(items@, item);
                }
                items.push(item);
                self.items = items;
                Ok(())
            },
        }
    }

    fn save_running(&mut self, container: &Container<Running>) -> (r: Result<(), Error>)
        ensures
            r is Ok,
    {
        proof {
            use_type_invariant(&*self);
        }
        match self.position(container.id()) {
            Some(i) => {
                let item = StoredContainer {
                    id: container.id().to_owned(),
                    config: container.config().duplicate(),
                    phase: Phase::Running,
                    pid: Some(container.state().pid),
                };
                let mut items = copy_items(&self.items);
                proof {
                    lemma_same_items(self.items@, items@);
                    lemma_table_update(items@, i as int, item);
                }
                items.set(i, item);
                self.items = items;
                Ok(())
            },
            None => Ok(()),
        }
    }

    fn save_stopped(&mut self, container: &Container<Stopped>) -> (r: Result<(), Error>)
        ensures
            r is Ok,
    {
        proof {
            use_type_invariant(&*self);
        }
        match self.position(container.id()) {
            Some(i) => {
                let item = StoredContainer {
                    id: container.id().to_owned(),
                    config: self.items[i].config.duplicate(),
                    phase: Phase::Stopped,
                    pid: self.items[i].pid,
                };
                let mut items = copy_items(&self.items);
                proof {
                    lemma_same_items(self.items@, items@);
                    lemma_table_update(items@, i as int, item);
                }
                items.set(i, item);
                self.items = items;
                Ok(())
            },
            None => Ok(()),
        }
    }

    fn list(&self) -> (r: Result<Vec<AnyContainer>, Error>)
        ensures
            r is Ok,
    {
        proof {
            use_type_invariant(self);
        }
        let mut all: Vec<AnyContainer> = Vec::new();
        let mut i: usize = 0;
        while i < self.items.len()
            invariant
                i <= self.items.len(),
                distinct_ids(self.items@),
                all.len() == i,
                forall|j: int|
                    0 <= j < i ==> is_restored(
                        #[trigger] all@[j],
                        self.items@[j].id@,
                        record_of(self.items@[j]),
                    ),
            decreases self.items.len() - i,
        {
            let item = &self.items[i];
            all.push(restore_phase(item.id.clone(), item.config.duplicate(), item.phase, item.pid));
            i += 1;
        }
        proof {
            assert forall|j: int| 0 <= j < all@.len() implies self.records().dom().contains(
                (#[trigger] all@[j]).id_view(),
            ) && is_restored(all@[j], all@[j].id_view(), self.records()[all@[j].id_view()]) by {
                assert(is_restored(all@[j], self.items@[j].id@, record_of(self.items@[j])));
                lemma_table_at(self.items@, j);
            }
            assert forall|a: int, b: int| 0 <= a < b < all@.len() implies (
            #[trigger] all@[a]).id_view() != (#[trigger] all@[b]).id_view() by {
                assert(is_restored(all@[a], self.items@[a].id@, record_of(self.items@[a])));
                assert(is_restored(all@[b], self.items@[b].id@, record_of(self.items@[b])));
            }
            assert forall|id: Seq<char>| self.records().dom().contains(id) implies exists|j: int|
                0 <= j < all@.len() && (#[trigger] all@[j]).id_view() == id by {
                let k = choose|k: int|
                    0 <= k < self.items@.len() && (#[trigger] self.items@[k]).id@ == id;
                assert(is_restored(all@[k], self.items@[k].id@, record_of(self.items@[k])));
                assert(all@[k].id_view() == id);
            }
            assert(lists_all(all@, self.records()));
        }
        Ok(all)
    }

    fn get(&self, id: &str) -> (r: Result<Option<Container<Created>>, Error>)
        ensures
            r is Ok,
    {
        match self.position(id) {
            Some(i) => {
                match self.items[i].phase {
                    Phase::Created => Ok(
                        Some(Container::new(id.to_owned(), self.items[i].config.duplicate())),
                    ),
                    _ => Ok(None),
                }
            },
            None => Ok(None),
        }
    }

    fn get_running(&self, id: &str) -> (r: Result<Option<Container<Running>>, Error>)
        ensures
            r is Err <==> self.records().dom().contains(id@) && self.records()[id@].phase
                == Phase::Running && self.records()[id@].pid is None,
    {
        match self.position(id) {
            Some(i) => {
                match self.items[i].phase {
                    Phase::Running => match self.items[i].pid {
                        Some(pid) => Ok(
                            Some(
                                Container::<Running>::restore(
                                    id.to_owned(),
                                    self.items[i].config.duplicate(),
                                    Running { pid, started_at: now_utc() },
                                ),
                            ),
                        ),
                        None => Err(Error::new(DbError(owned("no process id is recorded")))),
                    },
                    _ => Ok(None),
                }
            },
            None => Ok(None),
        }
    }

    fn get_any(&self, id: &str) -> (r: Result<Option<AnyContainer>, Error>)
        ensures
            r is Ok,
    {
        match self.position(id) {
            Some(i) => {
                let item = &self.items[i];
                Ok(
                    Some(
                        restore_phase(
                            id.to_owned(),
                            item.config.duplicate(),
                            item.phase,
                            item.pid,
                        ),
                    ),
                )
            },
            None => Ok(None),
        }
    }

    fn delete(&mut self, id: &str) -> (r: Result<(), Error>)
        ensures
            r is Ok,
    {
        proof {
            use_type_invariant(&*self);
        }
        match self.position(id) {
            Some(i) => {
                let mut items = copy_items(&self.items);
                proof {
                    lemma_same_items(self.items@, items@);
                    lemma_table_remove(items@, i as int);
                }
                items.remove(i);
                self.items = items;
                Ok(())
            },
            None => {
                proof {
                    assert(self.records().remove(id@) =~= self.records());
                }
                Ok(())
            },
        }
    }

    fn get_status(&self, id: &str) -> (r: Result<Option<String>, Error>)
        ensures
            r is Ok,
    {
        match self.position(id) {
            Some(i) => Ok(Some(self.items[i].phase.as_str().to_owned())),
            None => Ok(None),
        }
    }
}

} // verus!
