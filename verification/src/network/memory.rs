//! A network store that keeps its records in memory.

use crate::diagnostic::Error;
use crate::network::{
    copy_labels, lists_networks, saved_network, NetworkRecord, NetworkStore, NetworkView, Networks,
};
use crate::text::str_eq;
use vstd::prelude::*;

verus! {

/// Whether no two records have the same id.
pub open spec fn distinct_networks(items: Seq<NetworkRecord>) -> bool {
    forall|i: int, j: int| 0 <= i < j < items.len() ==> items[i].id@ != items[j].id@
}

/// The records of a list, by id.
pub open spec fn network_table(items: Seq<NetworkRecord>) -> Networks {
    Map::new(
        |id: Seq<char>| exists|i: int| 0 <= i < items.len() && (#[trigger] items[i]).id@ == id,
        |id: Seq<char>|
            items[choose|i: int| 0 <= i < items.len() && (#[trigger] items[i]).id@ == id]@,
    )
}

/// Where no two records have the same id, the table has each record under
/// its id.
proof fn lemma_network_at(items: Seq<NetworkRecord>, i: int)
    requires
        distinct_networks(items),
        0 <= i < items.len(),
    ensures
        network_table(items).dom().contains(items[i].id@),
        network_table(items)[items[i].id@] == items[i]@,
{
    let id = items[i].id@;
    let k = choose|k: int| 0 <= k < items.len() && (#[trigger] items[k]).id@ == id;
    if k < i {
        assert(items[k].id@ != items[i].id@);
    } else if i < k {
        assert(items[i].id@ != items[k].id@);
    }
}

/// Whether a record stays when `n` is saved: it has neither the id nor the
/// name of `n`.
pub open spec fn stays(item: NetworkRecord, n: NetworkView) -> bool {
    item.id@ != n.id && item.name@ != n.name
}

/// Whether `kept` holds the records among the first `k` of `items` that
/// stay when `n` is saved, and `from` says where each of them stood.
pub open spec fn keeps(
    kept: Seq<NetworkRecord>,
    from: Seq<int>,
    items: Seq<NetworkRecord>,
    n: NetworkView,
    k: int,
) -> bool {
    &&& from.len() == kept.len()
    &&& forall|a: int|
        0 <= a < kept.len() ==> 0 <= #[trigger] from[a] < k && kept[a]@ == items[from[a]]@ && stays(
            items[from[a]],
            n,
        )
    &&& forall|a: int, b: int| 0 <= a < b < kept.len() ==> from[a] < from[b]
    &&& forall|j: int|
        0 <= j < k && stays(#[trigger] items[j], n) ==> exists|a: int|
            0 <= a < kept.len() && from[a] == j
}

fn copy_network(n: &NetworkRecord) -> (out: NetworkRecord)
    ensures
        out@ == n@,
{
    let out = NetworkRecord {
        id: n.id.clone(),
        name: n.name.clone(),
        driver: n.driver.clone(),
        labels: copy_labels(&n.labels),
    };
    proof {
        assert(out@.labels =~= n@.labels);
    }
    out
}

/// A network store in memory: the double of the durable store. Its
/// statements never fail.
#[derive(Debug)]
pub struct MemoryNetworks {
    items: Vec<NetworkRecord>,
}

impl MemoryNetworks {
    #[verifier::type_invariant]
    closed spec fn well_formed(self) -> bool {
        distinct_networks(self.items@)
    }

    /// A store without records.
    pub fn new() -> (out: MemoryNetworks)
        ensures
            out.networks() == Map::<Seq<char>, NetworkView>::empty(),
    {
        let out = MemoryNetworks { items: Vec::new() };
        proof {
            assert(out.networks() =~= Map::<Seq<char>, NetworkView>::empty());
        }
        out
    }

    fn position(&self, id: &str) -> (r: Option<usize>)
        ensures
            match r {
                Some(i) => i < self.items@.len() && self.items@[i as int].id@ == id@
                    && self.networks().dom().contains(id@) && self.networks()[id@]
                    == self.items@[i as int]@,
                None => !self.networks().dom().contains(id@),
            },
    {
        proof {
            use_type_invariant(self);
        }
        let mut i: usize = 0;
        while i < self.items.len()
            invariant
                i <= self.items.len(),
                distinct_networks(self.items@),
                forall|j: int| 0 <= j < i ==> (#[trigger] self.items@[j]).id@ != id@,
            decreases self.items.len() - i,
        {
            if str_eq(self.items[i].id.as_str(), id) {
                proof {
                    lemma_network_at(self.items@, i as int);
                }
                return Some(i);
            }
            i += 1;
        }
        None
    }
}

/// The table of what stays, with `n` added, is the table after `n` is saved.
proof fn lemma_kept_table(
    kept: Seq<NetworkRecord>,
    from: Seq<int>,
    items: Seq<NetworkRecord>,
    record: NetworkRecord,
)
    requires
        distinct_networks(items),
        keeps(kept, from, items, record@, items.len() as int),
    ensures
        distinct_networks(kept.push(record)),
        network_table(kept.push(record)) == saved_network(network_table(items), record@),
{
    let n = record@;
    let all = kept.push(record);
    assert(distinct_networks(all)) by {
        assert forall|a: int, b: int| 0 <= a < b < all.len() implies all[a].id@ != all[b].id@ by {
            if b < kept.len() {
                assert(all[a] == kept[a]);
                assert(all[b] == kept[b]);
                assert(from[a] < from[b]);
                assert(items[from[a]].id@ != items[from[b]].id@);
            } else {
                assert(all[a] == kept[a]);
                assert(stays(items[from[a]], n));
            }
        }
    }
    let after = network_table(all);
    let wanted = saved_network(network_table(items), n);
    assert forall|id: Seq<char>| after.dom().contains(id) <==> wanted.dom().contains(id) by {
        if after.dom().contains(id) {
            let a = choose|a: int| 0 <= a < all.len() && (#[trigger] all[a]).id@ == id;
            if a < kept.len() {
                assert(all[a] == kept[a]);
                let j = from[a];
                assert(items[j].id@ == id);
                lemma_network_at(items, j);
            }
        }
        if wanted.dom().contains(id) {
            if id == n.id {
                assert(all[kept.len() as int].id@ == id);
            } else {
                let j = choose|j: int| 0 <= j < items.len() && (#[trigger] items[j]).id@ == id;
                lemma_network_at(items, j);
                assert(stays(items[j], n));
                let a = choose|a: int| 0 <= a < kept.len() && from[a] == j;
                assert(all[a] == kept[a]);
                assert(all[a].id@ == id);
            }
        }
    }
    assert forall|id: Seq<char>| after.dom().contains(id) implies after[id] == wanted[id] by {
        let a = choose|a: int| 0 <= a < all.len() && (#[trigger] all[a]).id@ == id;
        lemma_network_at(all, a);
        if a < kept.len() {
            assert(all[a] == kept[a]);
            lemma_network_at(items, from[a]);
        }
    }
    assert(after =~= wanted);
}

impl NetworkStore for MemoryNetworks {
    closed spec fn networks(&self) -> Networks {
        network_table(self.items@)
    }

    fn save(&mut self, network: &NetworkRecord) -> (r: Result<(), Error>)
        ensures
            r is Ok,
    {
        proof {
            use_type_invariant(&*self);
        }
        let ghost old_items = self.items@;
        let ghost n = network@;
        let mut kept: Vec<NetworkRecord> = Vec::new();
        let ghost mut from: Seq<int> = Seq::empty();
        let mut i: usize = 0;
        while i < self.items.len()
            invariant
                i <= self.items.len(),
                self.items@ == old_items,
                n == network@,
                keeps(kept@, from, old_items, n, i as int),
            decreases self.items.len() - i,
        {
            let item = &self.items[i];
            let ghost before = kept@;
            let ghost before_from = from;
            if !str_eq(item.id.as_str(), network.id.as_str()) && !str_eq(
                item.name.as_str(),
                network.name.as_str(),
            ) {
                kept.push(copy_network(item));
                proof {
                    from = from.push(i as int);
                    assert forall|a: int| 0 <= a < kept@.len() implies 0 <= #[trigger] from[a] < i
                        + 1 && kept@[a]@ == old_items[from[a]]@ && stays(old_items[from[a]], n) by {
                        if a < before.len() {
                            assert(from[a] == before_from[a]);
                            assert(kept@[a] == before[a]);
                        }
                    }
                    assert forall|a: int, b: int| 0 <= a < b < kept@.len() implies from[a]
                        < from[b] by {
                        assert(from[a] == before_from[a]);
                        if b < before.len() {
                            assert(from[b] == before_from[b]);
                        }
                    }
                    assert forall|j: int|
                        0 <= j < i + 1 && stays(#[trigger] old_items[j], n) implies exists|a: int|
                        0 <= a < kept@.len() && from[a] == j by {
                        if j < i {
                            let a = choose|a: int| 0 <= a < before.len() && before_from[a] == j;
                            assert(from[a] == j);
                        } else {
                            assert(from[before.len() as int] == j);
                        }
                    }
                }
            } else {
                proof {
                    assert(!stays(old_items[i as int], n));
                    assert forall|j: int|
                        0 <= j < i + 1 && stays(#[trigger] old_items[j], n) implies exists|a: int|
                        0 <= a < kept@.len() && from[a] == j by {
                        let a = choose|a: int| 0 <= a < before.len() && before_from[a] == j;
                        assert(from[a] == j);
                    }
                }
            }
            i += 1;
        }
        let record = copy_network(network);
        proof {
            lemma_kept_table(kept@, from, old_items, record);
        }
        kept.push(record);
        self.items = kept;
        Ok(())
    }

    fn list(&self) -> (r: Result<Vec<NetworkRecord>, Error>)
        ensures
            r is Ok,
    {
        proof {
            use_type_invariant(self);
        }
        let mut all: Vec<NetworkRecord> = Vec::new();
        let mut i: usize = 0;
        while i < self.items.len()
            invariant
                i <= self.items.len(),
                distinct_networks(self.items@),
                all.len() == i,
                forall|j: int| 0 <= j < i ==> (#[trigger] all@[j])@ == self.items@[j]@,
            decreases self.items.len() - i,
        {
            all.push(copy_network(&self.items[i]));
            i += 1;
        }
        proof {
            assert forall|j: int| 0 <= j < all@.len() implies self.networks().dom().contains(
                (#[trigger] all@[j]).id@,
            ) && all@[j]@ == self.networks()[all@[j].id@] by {
                assert(all@[j]@ == self.items@[j]@);
                lemma_network_at(self.items@, j);
            }
            assert forall|a: int, b: int| 0 <= a < b < all@.len() implies (#[trigger] all@[a]).id@
                != (#[trigger] all@[b]).id@ by {
                assert(all@[a]@ == self.items@[a]@);
                assert(all@[b]@ == self.items@[b]@);
            }
            assert forall|id: Seq<char>| #[trigger]
                self.networks().dom().contains(id) implies exists|j: int|
                0 <= j < all@.len() && (#[trigger] all@[j]).id@ == id by {
                let k = choose|k: int|
                    0 <= k < self.items@.len() && (#[trigger] self.items@[k]).id@ == id;
                assert(all@[k]@ == self.items@[k]@);
                assert(all@[k].id@ == id);
            }
            assert(lists_networks(all@, self.networks()));
        }
        Ok(all)
    }

    fn get(&self, id: &str) -> (r: Result<Option<NetworkRecord>, Error>)
        ensures
            r is Ok,
    {
        match self.position(id) {
            Some(i) => Ok(Some(copy_network(&self.items[i]))),
            None => Ok(None),
        }
    }

    fn delete(&mut self, id: &str) -> (r: Result<(), Error>)
        ensures
            r is Ok,
    {
        proof {
            use_type_invariant(&*self);
        }
        let ghost old_items = self.items@;
        match self.position(id) {
            None => {
                proof {
                    assert(self.networks().remove(id@) =~= self.networks());
                }
                Ok(())
            },
            Some(at) => {
                let mut kept: Vec<NetworkRecord> = Vec::new();
                let mut i: usize = 0;
                while i < self.items.len()
                    invariant
                        i <= self.items.len(),
                        at < self.items.len(),
                        self.items@ == old_items,
                        kept.len() == if i <= at {
                            i as int
                        } else {
                            i - 1
                        },
                        forall|a: int|
                            0 <= a < kept.len() ==> (#[trigger] kept@[a])@ == old_items[if a < at {
                                a
                            } else {
                                a + 1
                            }]@,
                    decreases self.items.len() - i,
                {
                    if i != at {
                        kept.push(copy_network(&self.items[i]));
                    }
                    i += 1;
                }
                proof {
                    let less = old_items.remove(at as int);
                    assert(kept@.len() == less.len());
                    assert forall|a: int| 0 <= a < kept@.len() implies (#[trigger] kept@[a])@
                        == less[a]@ by {}
                    lemma_removed_table(kept@, old_items, at as int);
                }
                self.items = kept;
                Ok(())
            },
        }
    }
}

/// The table of the records without the one at the place `at` is the table
/// without the id of that record.
proof fn lemma_removed_table(kept: Seq<NetworkRecord>, items: Seq<NetworkRecord>, at: int)
    requires
        distinct_networks(items),
        0 <= at < items.len(),
        kept.len() == items.len() - 1,
        forall|a: int|
            0 <= a < kept.len() ==> (#[trigger] kept[a])@ == items[if a < at {
                a
            } else {
                a + 1
            }]@,
    ensures
        distinct_networks(kept),
        network_table(kept) == network_table(items).remove(items[at].id@),
{
    assert(distinct_networks(kept)) by {
        assert forall|a: int, b: int| 0 <= a < b < kept.len() implies kept[a].id@ != kept[b].id@ by {
            let a0 = if a < at {
                a
            } else {
                a + 1
            };
            let b0 = if b < at {
                b
            } else {
                b + 1
            };
            assert(kept[a]@ == items[a0]@);
            assert(kept[b]@ == items[b0]@);
            assert(items[a0].id@ != items[b0].id@);
        }
    }
    let x = network_table(kept);
    let y = network_table(items).remove(items[at].id@);
    assert forall|id: Seq<char>| x.dom().contains(id) <==> y.dom().contains(id) by {
        if x.dom().contains(id) {
            let k = choose|k: int| 0 <= k < kept.len() && (#[trigger] kept[k]).id@ == id;
            let k0 = if k < at {
                k
            } else {
                k + 1
            };
            assert(kept[k]@ == items[k0]@);
            assert(items[k0].id@ == id);
            if k0 < at {
                assert(items[k0].id@ != items[at].id@);
            } else {
                assert(items[at].id@ != items[k0].id@);
            }
        }
        if y.dom().contains(id) {
            let k = choose|k: int| 0 <= k < items.len() && (#[trigger] items[k]).id@ == id;
            assert(k != at);
            let k1 = if k < at {
                k
            } else {
                k - 1
            };
            assert(kept[k1]@ == items[k]@);
            assert(kept[k1].id@ == id);
        }
    }
    assert forall|id: Seq<char>| x.dom().contains(id) implies x[id] == y[id] by {
        let k = choose|k: int| 0 <= k < kept.len() && (#[trigger] kept[k]).id@ == id;
        let k0 = if k < at {
            k
        } else {
            k + 1
        };
        assert(kept[k]@ == items[k0]@);
        lemma_network_at(kept, k);
        lemma_network_at(items, k0);
    }
    assert(x =~= y);
}

} // verus!
