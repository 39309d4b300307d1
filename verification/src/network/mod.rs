//! Networks: the three that are built in, and those that are recorded.

pub mod memory;

use crate::diagnostic::Error;
use crate::docker::Label;
use crate::text::{concat2, concat3, owned, str_eq};
use vstd::prelude::*;

verus! {

/// What is recorded of a network.
#[derive(Debug, Clone)]
pub struct NetworkRecord {
    pub id: String,
    pub name: String,
    pub driver: String,
    pub labels: Vec<Label>,
}

/// What a [`NetworkRecord`] holds, as mathematical values.
pub struct NetworkView {
    pub id: Seq<char>,
    pub name: Seq<char>,
    pub driver: Seq<char>,
    pub labels: Seq<(Seq<char>, Seq<char>)>,
}

impl View for NetworkRecord {
    type V = NetworkView;

    open spec fn view(&self) -> NetworkView {
        NetworkView {
            id: self.id@,
            name: self.name@,
            driver: self.driver@,
            labels: Seq::new(
                self.labels@.len(),
                |i: int| (self.labels@[i].key@, self.labels@[i].value@),
            ),
        }
    }
}

/// The records of the networks, by network id.
pub type Networks = Map<Seq<char>, NetworkView>;

/// Whether every record stands under its own id, and no two records have
/// the same name.
pub open spec fn names_are_unique(networks: Networks) -> bool {
    &&& forall|id: Seq<char>| #[trigger] networks.dom().contains(id) ==> networks[id].id == id
    &&& forall|a: Seq<char>, b: Seq<char>|
        networks.dom().contains(a) && networks.dom().contains(b) && a != b ==> (
        #[trigger] networks[a]).name != (#[trigger] networks[b]).name
}

/// The records after `n` is saved: `n` stands under its id, in place of
/// what stood there and of what had its name.
pub open spec fn saved_network(networks: Networks, n: NetworkView) -> Networks {
    Map::new(
        |id: Seq<char>| id == n.id || (networks.dom().contains(id) && networks[id].name != n.name),
        |id: Seq<char>|
            if id == n.id {
                n
            } else {
                networks[id]
            },
    )
}

/// Whether `all` holds each recorded network once, as it is recorded, and
/// nothing else.
pub open spec fn lists_networks(all: Seq<NetworkRecord>, networks: Networks) -> bool {
    &&& forall|i: int|
        0 <= i < all.len() ==> networks.dom().contains((#[trigger] all[i]).id@) && all[i]@
            == networks[all[i].id@]
    &&& forall|i: int, j: int|
        0 <= i < j < all.len() ==> (#[trigger] all[i]).id@ != (#[trigger] all[j]).id@
    &&& forall|id: Seq<char>| #[trigger]
        networks.dom().contains(id) ==> exists|i: int|
            0 <= i < all.len() && (#[trigger] all[i]).id@ == id
}

/// The durable record of the networks. No two networks have the same name.
pub trait NetworkStore {
    /// The records, by network id.
    spec fn networks(&self) -> Networks;

    /// Records a network, in place of the one recorded under its id and of
    /// the one recorded with its name.
    fn save(&mut self, network: &NetworkRecord) -> (r: Result<(), Error>)
        ensures
            r is Ok ==> final(self).networks() == saved_network(old(self).networks(), network@),
            r is Err ==> final(self).networks() == old(self).networks(),
    ;

    /// Every recorded network.
    fn list(&self) -> (r: Result<Vec<NetworkRecord>, Error>)
        ensures
            r matches Ok(all) ==> lists_networks(all@, self.networks()),
    ;

    /// The network `id`.
    fn get(&self, id: &str) -> (r: Result<Option<NetworkRecord>, Error>)
        ensures
            r matches Ok(found) ==> match found {
                Some(n) => self.networks().dom().contains(id@) && n@ == self.networks()[id@],
                None => !self.networks().dom().contains(id@),
            },
    ;

    /// Removes the record of the network `id`, if there is one.
    fn delete(&mut self, id: &str) -> (r: Result<(), Error>)
        ensures
            r is Ok ==> final(self).networks() == old(self).networks().remove(id@),
            r is Err ==> final(self).networks() == old(self).networks(),
    ;
}

/// Saving a network keeps the names unique.
pub proof fn lemma_saved_names_are_unique(networks: Networks, n: NetworkView)
    requires
        names_are_unique(networks),
    ensures
        names_are_unique(saved_network(networks, n)),
        saved_network(networks, n).dom().contains(n.id),
        saved_network(networks, n)[n.id] == n,
{
    let after = saved_network(networks, n);
    assert forall|a: Seq<char>, b: Seq<char>|
        after.dom().contains(a) && after.dom().contains(b) && a != b implies (
    #[trigger] after[a]).name != (#[trigger] after[b]).name by {
        if a != n.id && b != n.id {
            assert(networks[a].name != networks[b].name);
        }
    }
}


/// A network as the Engine API describes it.
#[derive(Debug, Clone)]
pub struct Network {
    pub id: String,
    pub name: String,
    pub driver: String,
    pub scope: String,
    pub enable_i_pv6: bool,
    pub internal: bool,
    pub attachable: bool,
    pub ingress: bool,
    pub labels: Vec<Label>,
}

/// The request to create a network.
#[derive(Debug, Clone)]
pub struct CreateNetworkRequest {
    pub name: String,
    pub driver: Option<String>,
    pub labels: Option<Vec<Label>>,
}

/// The answer to a request to create a network.
#[derive(Debug, Clone)]
pub struct CreateNetworkResponse {
    pub id: String,
}

/// Whether a network with these texts is a local network without labels
/// and with all switches off.
pub open spec fn is_plain_local(n: Network, id: Seq<char>, name: Seq<char>, driver: Seq<char>)
    -> bool {
    &&& n.id@ == id
    &&& n.name@ == name
    &&& n.driver@ == driver
    &&& n.scope@ == "local"@
    &&& !n.enable_i_pv6
    &&& !n.internal
    &&& !n.attachable
    &&& !n.ingress
    &&& n.labels@.len() == 0
}

/// Whether a network is one of the three that are built in: `bridge`;
/// `host`, with the id `hosthost`; `none`, with the id `nonenone` and the
/// driver `null`.
pub open spec fn is_builtin(n: Network) -> bool {
    ||| is_plain_local(n, "bridge"@, "bridge"@, "bridge"@)
    ||| is_plain_local(n, "host"@ + "host"@, "host"@, "host"@)
    ||| is_plain_local(n, "none"@ + "none"@, "none"@, "null"@)
}

/// Whether the labels of `a` are those of `b`, in order.
pub open spec fn same_labels(a: Seq<Label>, b: Seq<Label>) -> bool {
    a.len() == b.len() && forall|i: int|
        0 <= i < a.len() ==> (#[trigger] a[i]).key@ == b[i].key@ && a[i].value@ == b[i].value@
}

/// Whether `n` describes the recorded network `record`: a local network
/// with the record's id, name, driver and labels, and all switches off.
pub open spec fn describes(n: Network, record: NetworkRecord) -> bool {
    &&& n.id@ == record.id@
    &&& n.name@ == record.name@
    &&& n.driver@ == record.driver@
    &&& n.scope@ == "local"@
    &&& !n.enable_i_pv6
    &&& !n.internal
    &&& !n.attachable
    &&& !n.ingress
    &&& same_labels(n.labels@, record.labels@)
}

/// Whether `id` is one of the names of the built-in networks, which are
/// `bridge`, `host` and `none`.
pub open spec fn is_builtin_name(id: Seq<char>) -> bool {
    id == "bridge"@ || id == "host"@ || id == "none"@
}

fn plain_local(id: String, name: &str, driver: &str) -> (out: Network)
    ensures
        is_plain_local(out, id@, name@, driver@),
{
    Network {
        id,
        name: owned(name),
        driver: owned(driver),
        scope: owned("local"),
        enable_i_pv6: false,
        internal: false,
        attachable: false,
        ingress: false,
        labels: Vec::new(),
    }
}

impl Network {
    /// The built-in network `bridge`.
    pub fn bridge() -> (out: Network)
        ensures
            is_plain_local(out, "bridge"@, "bridge"@, "bridge"@),
    {
        plain_local(owned("bridge"), "bridge", "bridge")
    }

    /// The built-in network `host`; its id is `hosthost`.
    pub fn host() -> (out: Network)
        ensures
            is_plain_local(out, "host"@ + "host"@, "host"@, "host"@),
    {
        plain_local(concat2("host", "host"), "host", "host")
    }

    /// The built-in network `none`; its id is `nonenone` and its driver is
    /// `null`.
    pub fn none() -> (out: Network)
        ensures
            is_plain_local(out, "none"@ + "none"@, "none"@, "null"@),
    {
        plain_local(concat2("none", "none"), "none", "null")
    }

    /// The built-in network that is asked for under `id`, if `id` is the
    /// name of one.
    pub fn builtin(id: &str) -> (out: Option<Network>)
        ensures
            out is Some <==> is_builtin_name(id@),
            out matches Some(n) ==> is_builtin(n) && n.name@ == id@,
    {
        if str_eq(id, "bridge") {
            Some(Network::bridge())
        } else if str_eq(id, "host") {
            Some(Network::host())
        } else if str_eq(id, "none") {
            Some(Network::none())
        } else {
            None
        }
    }

    /// The network that a record describes: local, with all switches off.
    pub fn from_record(record: &NetworkRecord) -> (out: Network)
        ensures
            describes(out, *record),
    {
        Network {
            id: record.id.clone(),
            name: record.name.clone(),
            driver: record.driver.clone(),
            scope: owned("local"),
            enable_i_pv6: false,
            internal: false,
            attachable: false,
            ingress: false,
            labels: copy_labels(&record.labels),
        }
    }
}

/// A copy of a list of labels.
pub fn copy_labels(labels: &Vec<Label>) -> (out: Vec<Label>)
    ensures
        same_labels(out@, labels@),
{
    let mut out: Vec<Label> = Vec::new();
    let mut i: usize = 0;
    while i < labels.len()
        invariant
            i <= labels.len(),
            out.len() == i,
            forall|j: int|
                0 <= j < i ==> out@[j].key@ == labels@[j].key@ && out@[j].value@
                    == labels@[j].value@,
        decreases labels.len() - i,
    {
        out.push(Label { key: labels[i].key.clone(), value: labels[i].value.clone() });
        i += 1;
    }
    out
}

/// The record of the network that a request asks for, under the id `id`:
/// the driver is `bridge` where none is given, and there are no labels
/// where none are given.
pub fn network_record(id: String, request: &CreateNetworkRequest) -> (out: NetworkRecord)
    ensures
        out.id@ == id@,
        out.name@ == request.name@,
        out.driver@ == match request.driver {
            Some(d) => d@,
            None => "bridge"@,
        },
        match request.labels {
            Some(l) => same_labels(out.labels@, l@),
            None => out.labels@.len() == 0,
        },
{
    NetworkRecord {
        id,
        name: request.name.clone(),
        driver: match &request.driver {
            Some(d) => d.clone(),
            None => owned("bridge"),
        },
        labels: match &request.labels {
            Some(l) => copy_labels(l),
            None => Vec::new(),
        },
    }
}

/// All networks: the three built-in ones, then the recorded ones that the
/// store gave, or none of those where the store failed.
pub fn all_networks(recorded: Result<Vec<NetworkRecord>, Error>) -> (out: Vec<Network>)
    ensures
        out@.len() == 3 + match recorded {
            Ok(list) => list@.len(),
            Err(_) => 0,
        },
        is_plain_local(out@[0], "bridge"@, "bridge"@, "bridge"@),
        is_plain_local(out@[1], "host"@ + "host"@, "host"@, "host"@),
        is_plain_local(out@[2], "none"@ + "none"@, "none"@, "null"@),
        recorded matches Ok(list) ==> forall|i: int|
            0 <= i < list@.len() ==> describes(#[trigger] out@[3 + i], list@[i]),
{
    let mut out: Vec<Network> = Vec::new();
    out.push(Network::bridge());
    out.push(Network::host());
    out.push(Network::none());
    match recorded {
        Ok(list) => {
            let mut i: usize = 0;
            while i < list.len()
                invariant
                    i <= list.len(),
                    out@.len() == 3 + i,
                    is_plain_local(out@[0], "bridge"@, "bridge"@, "bridge"@),
                    is_plain_local(out@[1], "host"@ + "host"@, "host"@, "host"@),
                    is_plain_local(out@[2], "none"@ + "none"@, "none"@, "null"@),
                    forall|j: int| 0 <= j < i ==> describes(#[trigger] out@[3 + j], list@[j]),
                decreases list.len() - i,
            {
                out.push(Network::from_record(&list[i]));
                i += 1;
            }
        },
        Err(_) => {},
    }
    out
}

/// The status that answers a request to delete the network `id`: 403 for
/// a built-in network, which is never deleted; else 204 where the store
/// removed the record, and 404 where it failed.
pub open spec fn network_delete_status(id: Seq<char>, removed: bool) -> u16 {
    if is_builtin_name(id) {
        403
    } else if removed {
        204
    } else {
        404
    }
}

/// The status that answers a request to delete the network `id`, given
/// whether the store removed its record.
pub fn network_delete_code(id: &str, removed: bool) -> (status: u16)
    ensures
        status == network_delete_status(id@, removed),
{
    if str_eq(id, "bridge") || str_eq(id, "host") || str_eq(id, "none") {
        403
    } else if removed {
        204
    } else {
        404
    }
}

/// Deletes the network `id` from `store`, unless it is built in. A
/// built-in network is never deleted.
pub fn delete_network<S: NetworkStore>(store: &mut S, id: &str) -> (status: u16)
    ensures
        status == 403 || status == 204 || status == 404,
        is_builtin_name(id@) <==> status == 403,
        status == 204 ==> final(store).networks() == old(store).networks().remove(id@),
        status != 204 ==> final(store).networks() == old(store).networks(),
{
    if str_eq(id, "bridge") || str_eq(id, "host") || str_eq(id, "none") {
        return 403;
    }
    let removed = store.delete(id).is_ok();
    network_delete_code(id, removed)
}

/// Whether `n` is the network that is shown for `id`: the built-in network
/// of that name, or else the network that is recorded under `id`.
pub open spec fn is_shown_for(n: Network, networks: Networks, id: Seq<char>) -> bool {
    if is_builtin_name(id) {
        is_builtin(n) && n.name@ == id
    } else {
        networks.dom().contains(id) && exists|record: NetworkRecord|
            record@ == networks[id] && #[trigger] describes(n, record)
    }
}

/// The network `id`: a built-in one, or the one that the store records;
/// else the message that it is not found.
pub fn inspect_network<S: NetworkStore>(store: &S, id: &str) -> (out: Result<Network, String>)
    ensures
        out matches Ok(n) ==> is_shown_for(n, store.networks(), id@),
        out matches Err(message) ==> !is_builtin_name(id@) && message@ == "network "@ + id@
            + " not found"@,
{
    match Network::builtin(id) {
        Some(n) => Ok(n),
        None => match store.get(id) {
            Ok(Some(record)) => {
                let n = Network::from_record(&record);
                proof {
                    assert(record@ == store.networks()[id@] && describes(n, record));
                    assert(is_shown_for(n, store.networks(), id@));
                }
                Ok(n)
            },
            _ => Err(concat3("network ", id, " not found")),
        },
    }
}

} // verus!
