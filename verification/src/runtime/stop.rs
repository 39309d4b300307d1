//! Stopping a container: the bind mounts go, the forwarded ports go, and
//! then the process.

use crate::command::{command_views, CommandView, HostCommand};
use crate::container::config::{Config, ConfigView};
use crate::runtime::{
    make_proxy_delete_command, make_unmount_command, proxy_delete_command, unmount_command,
    WslRuntime,
};
use crate::text::concat2;
use vstd::prelude::*;

verus! {

/// The commands that remove the bind mounts of the declared volumes, in
/// order. The mount point of a volume is the root filesystem's directory,
/// as the guest writes it, followed by the path inside the container: the
/// place at which the volume was mounted.
pub open spec fn unmount_commands(distro: Seq<char>, wsl_rootfs: Seq<char>, cfg: ConfigView)
    -> Seq<CommandView> {
    Seq::new(
        cfg.volumes.len(),
        |i: int| unmount_command(distro, wsl_rootfs + cfg.volumes[i].container_path),
    )
}

/// The commands that end the forwarding of the declared host ports, in order.
pub open spec fn proxy_delete_commands(cfg: ConfigView) -> Seq<CommandView> {
    Seq::new(
        cfg.port_mappings.len(),
        |k: int| proxy_delete_command(cfg.port_mappings[k].host_port),
    )
}

/// The commands of a stop, in the order in which the host runs them: first
/// the unmounts, then the deletions of the forwarded ports. The host passes
/// over a command that fails, and ends the process when all have run.
pub open spec fn stop_commands(distro: Seq<char>, wsl_rootfs: Seq<char>, cfg: ConfigView) -> Seq<
    CommandView,
> {
    unmount_commands(distro, wsl_rootfs, cfg) + proxy_delete_commands(cfg)
}

impl WslRuntime {
    /// The commands that the host runs to stop a container with the
    /// configuration `cfg` whose root filesystem the guest sees at
    /// `wsl_rootfs`, before it ends the process.
    pub fn stop_plan(&self, wsl_rootfs: &str, cfg: &Config) -> (plan: Vec<HostCommand>)
        ensures
            command_views(plan@) == stop_commands(self.distro@, wsl_rootfs@, cfg@),
    {
        let distro = self.distro.as_str();
        let ghost unmounts = unmount_commands(self.distro@, wsl_rootfs@, cfg@);
        let ghost deletes = proxy_delete_commands(cfg@);
        let mut plan: Vec<HostCommand> = Vec::new();
        let mut i: usize = 0;
        while i < cfg.volumes.len()
            invariant
                i <= cfg.volumes.len(),
                distro@ == self.distro@,
                unmounts == unmount_commands(self.distro@, wsl_rootfs@, cfg@),
                plan.len() == i,
                forall|j: int| 0 <= j < i ==> (#[trigger] plan[j])@ == unmounts[j],
            decreases cfg.volumes.len() - i,
        {
            let mountpoint = concat2(wsl_rootfs, cfg.volumes[i].container_path.as_str());
            plan.push(make_unmount_command(distro, mountpoint.as_str()));
            i += 1;
        }
        let mut k: usize = 0;
        while k < cfg.port_mappings.len()
            invariant
                k <= cfg.port_mappings.len(),
                unmounts == unmount_commands(self.distro@, wsl_rootfs@, cfg@),
                deletes == proxy_delete_commands(cfg@),
                plan.len() == unmounts.len() + k,
                forall|j: int| 0 <= j < unmounts.len() ==> (#[trigger] plan[j])@ == unmounts[j],
                forall|j: int|
                    0 <= j < k ==> (#[trigger] plan[unmounts.len() + j])@ == deletes[j],
            decreases cfg.port_mappings.len() - k,
        {
            plan.push(make_proxy_delete_command(cfg.port_mappings[k].host_port));
            k += 1;
        }
        proof {
            assert forall|j: int| 0 <= j < plan.len() implies command_views(plan@)[j] == (unmounts
                + deletes)[j] by {
                if j >= unmounts.len() {
                    assert(plan[unmounts.len() + (j - unmounts.len())]@ == deletes[j
                        - unmounts.len()]);
                }
            }
            assert(command_views(plan@) =~= unmounts + deletes);
        }
        plan
    }
}

// ---------------------------------------------------------------------------
// The host's table of forwarded ports
// ---------------------------------------------------------------------------

/// A change to the host's table of forwarded ports.
pub enum ProxyChange {
    /// Forward the host port `listen` to `connect` at `address`.
    Add { listen: u16, connect: u16, address: Seq<char> },
    /// End the forwarding of the host port `listen`.
    Delete { listen: u16 },
}

/// The host's table of forwarded ports: for each host port that is
/// forwarded, where it goes.
pub type ProxyTable = Map<u16, (Seq<char>, u16)>;

/// The table after one change.
pub open spec fn changed(table: ProxyTable, change: ProxyChange) -> ProxyTable {
    match change {
        ProxyChange::Add { listen, connect, address } => table.insert(listen, (address, connect)),
        ProxyChange::Delete { listen } => table.remove(listen),
    }
}

/// The table after a list of changes, applied in order.
pub open spec fn changed_by(table: ProxyTable, changes: Seq<ProxyChange>) -> ProxyTable
    decreases changes.len(),
{
    if changes.len() == 0 {
        table
    } else {
        changed(changed_by(table, changes.drop_last()), changes.last())
    }
}

/// The changes that a stop makes to the table: one deletion for each
/// declared port, in order. Each is what [`proxy_delete_command`] asks of
/// `netsh`.
pub open spec fn stop_changes(cfg: ConfigView) -> Seq<ProxyChange> {
    Seq::new(
        cfg.port_mappings.len(),
        |k: int| ProxyChange::Delete { listen: cfg.port_mappings[k].host_port },
    )
}

proof fn lemma_deleted_stays_deleted(table: ProxyTable, changes: Seq<ProxyChange>, port: u16, k: int)
    requires
        0 <= k < changes.len(),
        changes[k] == (ProxyChange::Delete { listen: port }),
        forall|j: int| 0 <= j < changes.len() ==> #[trigger] changes[j] is Delete,
    ensures
        !changed_by(table, changes).dom().contains(port),
    decreases changes.len(),
{
    let before = changes.drop_last();
    if k < changes.len() - 1 {
        assert(before[k] == changes[k]);
        assert forall|j: int| 0 <= j < before.len() implies #[trigger] before[j] is Delete by {
            assert(before[j] == changes[j]);
        }
        lemma_deleted_stays_deleted(table, before, port, k);
        assert(changes.last() is Delete);
    }
}

/// After a stop whose commands have all taken effect, the host forwards
/// none of the ports that the container's configuration declares,
/// whatever the table held before.
pub proof fn lemma_stop_clears_declared_ports(table: ProxyTable, cfg: ConfigView, k: int)
    requires
        0 <= k < cfg.port_mappings.len(),
    ensures
        !changed_by(table, stop_changes(cfg)).dom().contains(cfg.port_mappings[k].host_port),
        proxy_delete_commands(cfg)[k] == proxy_delete_command(cfg.port_mappings[k].host_port),
        stop_changes(cfg)[k] == (ProxyChange::Delete { listen: cfg.port_mappings[k].host_port }),
{
    lemma_deleted_stays_deleted(table, stop_changes(cfg), cfg.port_mappings[k].host_port, k);
}

} // verus!
