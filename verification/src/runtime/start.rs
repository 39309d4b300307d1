//! Starting a container in the WSL distribution, one request to the host at
//! a time.
//!
//! The host asks [`WslRuntime::start_action`] what to do, does it, and hands
//! the reply to [`WslRuntime::start_advance`]; this goes on until the action
//! is [`StartAction::Finish`].

use crate::command::{CommandView, HostCommand};
use crate::container::config::{Config, ConfigView};
use crate::container::{now_utc, Running};
use crate::hostpath::{HostPath, HostPathView};
use crate::runtime::{
    bind_mount_command, chroot_command, guest_ip, guest_ip_of, guest_ip_query, log_dir,
    log_file_of, make_bind_mount_command, make_chroot_command, make_guest_ip_query,
    make_mount_point_command, make_path_query, make_proxy_add_command, mount_point_command,
    path_query, proxy_add_command, rootfs_dir_of, RuntimeError, RuntimeErrorView, WslRuntime,
};
use crate::text::{clone_strings, concat2, owned, string_views};
use crate::wslpath::{guest_path, resolve_guest_path};
use vstd::prelude::*;

verus! {

/// Where the start of a container stands: what the host was last asked.
#[derive(Debug, Clone, Copy, PartialEq, Eq, Structural)]
pub enum StartStage {
    /// The image's record is looked up.
    LookUpImage,
    /// The host looks whether the root filesystem is there.
    ProbeRootfs,
    /// The root filesystem is composed from the layers.
    ComposeRootfs,
    /// The guest is asked for its name of the root filesystem.
    TranslateRootfs,
    /// The guest is asked for its name of the host directory of a volume.
    TranslateVolume(usize),
    /// The mount point of a volume is created.
    MakeMountPoint(usize),
    /// A volume is bound to its mount point.
    BindMount(usize),
    /// The log file is opened.
    OpenLog,
    /// The process is spawned.
    Spawn,
    /// The guest is asked for its address.
    FindGuestIp,
    /// A host port is forwarded.
    AddProxy(usize),
    /// Nothing is left to do.
    Finished,
}

/// The start of a container in progress.
#[derive(Debug, Clone)]
pub struct WslStart {
    stage: StartStage,
    layers: Vec<String>,
    rootfs_path: String,
    wsl_rootfs: String,
    wsl_source: String,
    pid: u32,
    guest_ip: String,
    failure: Option<RuntimeError>,
}

/// What a [`WslStart`] holds, as mathematical values.
pub struct StartView {
    pub stage: StartStage,
    /// The digests of the image's layers, base layer first.
    pub layers: Seq<Seq<char>>,
    /// The root filesystem's directory, as the host writes it.
    pub rootfs_path: Seq<char>,
    /// The root filesystem's directory, as the guest writes it.
    pub wsl_rootfs: Seq<char>,
    /// The host directory of the volume at hand, as the guest writes it.
    pub wsl_source: Seq<char>,
    /// The id of the spawned process.
    pub pid: u32,
    /// The guest's address.
    pub guest_ip: Seq<char>,
    /// Why the start failed, if it did.
    pub failure: Option<RuntimeErrorView>,
}

impl View for WslStart {
    type V = StartView;

    closed spec fn view(&self) -> StartView {
        StartView {
            stage: self.stage,
            layers: string_views(self.layers@),
            rootfs_path: self.rootfs_path@,
            wsl_rootfs: self.wsl_rootfs@,
            wsl_source: self.wsl_source@,
            pid: self.pid,
            guest_ip: self.guest_ip@,
            failure: match self.failure {
                Some(e) => Some(e@),
                None => None,
            },
        }
    }
}

/// What the host reports after it has done what it was asked.
#[derive(Debug, Clone)]
pub enum HostReply {
    /// The layers of the image's record; `None` where no record is kept.
    Image(Option<Vec<String>>),
    /// Whether the root filesystem is there, and its directory as the host
    /// writes it.
    Rootfs { present: bool, path: String },
    /// The request was carried out.
    Done,
    /// The request could not be carried out; the text is the reason.
    Failed(String),
    /// The command ran; whether it reported success, and what it printed.
    Exited { success: bool, stdout: String },
    /// The process was spawned; its id, if it has one.
    Spawned(Option<u32>),
}

/// What a [`HostReply`] holds, as mathematical values.
pub enum ReplyView {
    Image(Option<Seq<Seq<char>>>),
    Rootfs { present: bool, path: Seq<char> },
    Done,
    Failed(Seq<char>),
    Exited { success: bool, stdout: Seq<char> },
    Spawned(Option<u32>),
}

impl View for HostReply {
    type V = ReplyView;

    open spec fn view(&self) -> ReplyView {
        match *self {
            HostReply::Image(Some(layers)) => ReplyView::Image(Some(string_views(layers@))),
            HostReply::Image(None) => ReplyView::Image(None),
            HostReply::Rootfs { present, path } => ReplyView::Rootfs { present, path: path@ },
            HostReply::Done => ReplyView::Done,
            HostReply::Failed(e) => ReplyView::Failed(e@),
            HostReply::Exited { success, stdout } => ReplyView::Exited {
                success,
                stdout: stdout@,
            },
            HostReply::Spawned(pid) => ReplyView::Spawned(pid),
        }
    }
}

/// What the host is asked to do next.
#[derive(Debug)]
pub enum StartAction {
    /// Look up the record of this image and reply with
    /// [`HostReply::Image`] or [`HostReply::Failed`].
    LookUpImage(String),
    /// Look whether this directory exists and reply with
    /// [`HostReply::Rootfs`].
    ProbeRootfs(HostPath),
    /// Compose the root filesystem from these layers in this directory and
    /// reply with [`HostReply::Done`] or [`HostReply::Failed`].
    ComposeRootfs { layers: Vec<String>, target: HostPath },
    /// Run this command to its end and reply with [`HostReply::Exited`], or
    /// with [`HostReply::Failed`] where it could not be run.
    Run(HostCommand),
    /// Create this directory if it is missing and this file in it, and reply
    /// with [`HostReply::Done`] or [`HostReply::Failed`].
    OpenLog { dir: String, file: String },
    /// Spawn this command with its output going to the log file and reply
    /// with [`HostReply::Spawned`] or [`HostReply::Failed`].
    Spawn(HostCommand),
    /// The start is over: the id of the container's process, or the error.
    Finish(Result<u32, RuntimeError>),
}

/// What a [`StartAction`] holds, as mathematical values.
pub enum ActionView {
    LookUpImage(Seq<char>),
    ProbeRootfs(HostPathView),
    ComposeRootfs { layers: Seq<Seq<char>>, target: HostPathView },
    Run(CommandView),
    OpenLog { dir: Seq<char>, file: Seq<char> },
    Spawn(CommandView),
    Finish(Result<u32, RuntimeErrorView>),
}

impl View for StartAction {
    type V = ActionView;

    open spec fn view(&self) -> ActionView {
        match *self {
            StartAction::LookUpImage(image) => ActionView::LookUpImage(image@),
            StartAction::ProbeRootfs(path) => ActionView::ProbeRootfs(path@),
            StartAction::ComposeRootfs { layers, target } => ActionView::ComposeRootfs {
                layers: string_views(layers@),
                target: target@,
            },
            StartAction::Run(command) => ActionView::Run(command@),
            StartAction::OpenLog { dir, file } => ActionView::OpenLog { dir: dir@, file: file@ },
            StartAction::Spawn(command) => ActionView::Spawn(command@),
            StartAction::Finish(Ok(pid)) => ActionView::Finish(Ok(pid)),
            StartAction::Finish(Err(e)) => ActionView::Finish(Err(e@)),
        }
    }
}

/// The state in which every start begins.
pub open spec fn initial_start() -> StartView {
    StartView {
        stage: StartStage::LookUpImage,
        layers: Seq::empty(),
        rootfs_path: Seq::empty(),
        wsl_rootfs: Seq::empty(),
        wsl_source: Seq::empty(),
        pid: 0,
        guest_ip: Seq::empty(),
        failure: None,
    }
}

/// The state of a start that has failed with `e`.
pub open spec fn failed_with(st: StartView, e: RuntimeErrorView) -> StartView {
    StartView { stage: StartStage::Finished, failure: Some(e), ..st }
}

/// The stage that deals with the volume `i`, or with the log where no
/// volume `i` is declared.
pub open spec fn volume_stage(cfg: ConfigView, i: int) -> StartStage {
    if 0 <= i < cfg.volumes.len() {
        StartStage::TranslateVolume(i as usize)
    } else {
        StartStage::OpenLog
    }
}

/// The stage that forwards the port `k`, or the end where no port `k` is
/// declared.
pub open spec fn proxy_stage(cfg: ConfigView, k: int) -> StartStage {
    if 0 <= k < cfg.port_mappings.len() {
        StartStage::AddProxy(k as usize)
    } else {
        StartStage::Finished
    }
}

/// What the guest printed for a path, where it ran and reported success.
pub open spec fn tool_output(reply: ReplyView) -> Option<Seq<char>> {
    match reply {
        ReplyView::Exited { success: true, stdout } => Some(stdout),
        _ => None,
    }
}

/// Whether `reply` reports the end of a command: it ran to its end, or it
/// could not be run.
pub open spec fn is_command_end(reply: ReplyView) -> bool {
    reply is Exited || reply is Failed
}

/// The mount point of a volume inside the root filesystem, as the guest
/// writes it.
pub open spec fn mount_point_of(wsl_rootfs: Seq<char>, container_path: Seq<char>) -> Seq<char> {
    wsl_rootfs + container_path
}

/// What the host is asked to do in the state `st`.
pub open spec fn action_of(
    containers_root: Seq<char>,
    distro: Seq<char>,
    id: Seq<char>,
    cfg: ConfigView,
    st: StartView,
) -> ActionView {
    match st.stage {
        StartStage::LookUpImage => ActionView::LookUpImage(cfg.image),
        StartStage::ProbeRootfs => ActionView::ProbeRootfs(rootfs_dir_of(containers_root, id)),
        StartStage::ComposeRootfs => ActionView::ComposeRootfs {
            layers: st.layers,
            target: rootfs_dir_of(containers_root, id),
        },
        StartStage::TranslateRootfs => ActionView::Run(path_query(distro, st.rootfs_path)),
        StartStage::TranslateVolume(i) => if i < cfg.volumes.len() {
            ActionView::Run(path_query(distro, cfg.volumes[i as int].host_path))
        } else {
            ActionView::OpenLog { dir: log_dir(), file: log_file_of(id) }
        },
        StartStage::MakeMountPoint(i) => if i < cfg.volumes.len() {
            ActionView::Run(
                mount_point_command(
                    distro,
                    mount_point_of(st.wsl_rootfs, cfg.volumes[i as int].container_path),
                ),
            )
        } else {
            ActionView::OpenLog { dir: log_dir(), file: log_file_of(id) }
        },
        StartStage::BindMount(i) => if i < cfg.volumes.len() {
            ActionView::Run(
                bind_mount_command(
                    distro,
                    st.wsl_source,
                    mount_point_of(st.wsl_rootfs, cfg.volumes[i as int].container_path),
                    cfg.volumes[i as int].readonly,
                ),
            )
        } else {
            ActionView::OpenLog { dir: log_dir(), file: log_file_of(id) }
        },
        StartStage::OpenLog => ActionView::OpenLog { dir: log_dir(), file: log_file_of(id) },
        StartStage::Spawn => ActionView::Spawn(
            chroot_command(distro, cfg.env, st.wsl_rootfs, cfg.cmd),
        ),
        StartStage::FindGuestIp => ActionView::Run(guest_ip_query(distro)),
        StartStage::AddProxy(k) => if k < cfg.port_mappings.len() {
            ActionView::Run(
                proxy_add_command(
                    cfg.port_mappings[k as int].host_port,
                    cfg.port_mappings[k as int].container_port,
                    st.guest_ip,
                ),
            )
        } else {
            ActionView::Finish(Ok(st.pid))
        },
        StartStage::Finished => ActionView::Finish(
            match st.failure {
                Some(e) => Err(e),
                None => Ok(st.pid),
            },
        ),
    }
}

/// The state after the host has replied to what it was asked in `st`. A
/// reply that does not answer the request leaves the state as it is.
///
/// A volume that cannot be mounted and a port that `netsh` refuses to
/// forward do not stop the start. It fails where the image is not
/// recorded, the root filesystem cannot be composed, the log cannot be
/// opened, the process cannot be spawned or has no id, the guest's address
/// cannot be found, or `netsh` cannot be run.
pub open spec fn next_of(distro: Seq<char>, cfg: ConfigView, st: StartView, reply: ReplyView)
    -> StartView {
    match st.stage {
        StartStage::LookUpImage => match reply {
            ReplyView::Image(Some(layers)) => StartView {
                stage: StartStage::ProbeRootfs,
                layers,
                ..st
            },
            ReplyView::Image(None) => failed_with(
                st,
                RuntimeErrorView::ImageResolutionFailed("Image not found"@),
            ),
            ReplyView::Failed(e) => failed_with(st, RuntimeErrorView::ImageResolutionFailed(e)),
            _ => st,
        },
        StartStage::ProbeRootfs => match reply {
            ReplyView::Rootfs { present, path } => StartView {
                stage: if present {
                    StartStage::TranslateRootfs
                } else {
                    StartStage::ComposeRootfs
                },
                rootfs_path: path,
                ..st
            },
            _ => st,
        },
        StartStage::ComposeRootfs => match reply {
            ReplyView::Done => StartView { stage: StartStage::TranslateRootfs, ..st },
            ReplyView::Failed(e) => failed_with(st, RuntimeErrorView::RootfsCompositionFailed(e)),
            _ => st,
        },
        StartStage::TranslateRootfs => if is_command_end(reply) {
            StartView {
                stage: volume_stage(cfg, 0),
                wsl_rootfs: guest_path(tool_output(reply), st.rootfs_path),
                ..st
            }
        } else {
            st
        },
        StartStage::TranslateVolume(i) => if i >= cfg.volumes.len() {
            StartView { stage: StartStage::OpenLog, ..st }
        } else if is_command_end(reply) {
            StartView {
                stage: StartStage::MakeMountPoint(i),
                wsl_source: guest_path(tool_output(reply), cfg.volumes[i as int].host_path),
                ..st
            }
        } else {
            st
        },
        StartStage::MakeMountPoint(i) => if i >= cfg.volumes.len() {
            StartView { stage: StartStage::OpenLog, ..st }
        } else if is_command_end(reply) {
            StartView { stage: StartStage::BindMount(i), ..st }
        } else {
            st
        },
        StartStage::BindMount(i) => if i >= cfg.volumes.len() {
            StartView { stage: StartStage::OpenLog, ..st }
        } else if is_command_end(reply) {
            StartView { stage: volume_stage(cfg, i + 1), ..st }
        } else {
            st
        },
        StartStage::OpenLog => match reply {
            ReplyView::Done => StartView { stage: StartStage::Spawn, ..st },
            ReplyView::Failed(e) => failed_with(st, RuntimeErrorView::LogSetupFailed(e)),
            _ => st,
        },
        StartStage::Spawn => match reply {
            ReplyView::Spawned(Some(pid)) => StartView {
                stage: if cfg.port_mappings.len() > 0 {
                    StartStage::FindGuestIp
                } else {
                    StartStage::Finished
                },
                pid,
                ..st
            },
            ReplyView::Spawned(None) => failed_with(st, RuntimeErrorView::NoPid),
            ReplyView::Failed(e) => failed_with(st, RuntimeErrorView::SpawnFailed(e)),
            _ => st,
        },
        StartStage::FindGuestIp => match reply {
            ReplyView::Exited { stdout, .. } => match guest_ip_of(stdout) {
                Some(ip) => StartView { stage: proxy_stage(cfg, 0), guest_ip: ip, ..st },
                None => failed_with(
                    st,
                    RuntimeErrorView::PortForwardingFailed("No WSL IP found"@),
                ),
            },
            ReplyView::Failed(e) => failed_with(
                st,
                RuntimeErrorView::PortForwardingFailed("Failed to get WSL IP: "@ + e),
            ),
            _ => st,
        },
        StartStage::AddProxy(k) => if k >= cfg.port_mappings.len() {
            StartView { stage: StartStage::Finished, ..st }
        } else {
            match reply {
                ReplyView::Exited { .. } => StartView { stage: proxy_stage(cfg, k + 1), ..st },
                ReplyView::Failed(e) => failed_with(
                    st,
                    RuntimeErrorView::PortForwardingFailed("Netsh failed: "@ + e),
                ),
                _ => st,
            }
        },
        StartStage::Finished => st,
    }
}

impl WslStart {
    /// Where the start stands.
    pub fn stage(&self) -> (out: StartStage)
        ensures
            out == self@.stage,
    {
        self.stage
    }

    fn fail(self, e: RuntimeError) -> (out: WslStart)
        ensures
            out@ == failed_with(self@, e@),
    {
        WslStart {
            stage: StartStage::Finished,
            layers: self.layers,
            rootfs_path: self.rootfs_path,
            wsl_rootfs: self.wsl_rootfs,
            wsl_source: self.wsl_source,
            pid: self.pid,
            guest_ip: self.guest_ip,
            failure: Some(e),
        }
    }

    fn at(self, stage: StartStage) -> (out: WslStart)
        ensures
            out@ == (StartView { stage, ..self@ }),
    {
        WslStart {
            stage,
            layers: self.layers,
            rootfs_path: self.rootfs_path,
            wsl_rootfs: self.wsl_rootfs,
            wsl_source: self.wsl_source,
            pid: self.pid,
            guest_ip: self.guest_ip,
            failure: self.failure,
        }
    }
}

fn stage_of_volume(cfg: &Config, i: usize) -> (out: StartStage)
    ensures
        out == volume_stage(cfg@, i as int),
{
    if i < cfg.volumes.len() {
        StartStage::TranslateVolume(i)
    } else {
        StartStage::OpenLog
    }
}

fn stage_of_proxy(cfg: &Config, k: usize) -> (out: StartStage)
    ensures
        out == proxy_stage(cfg@, k as int),
{
    if k < cfg.port_mappings.len() {
        StartStage::AddProxy(k)
    } else {
        StartStage::Finished
    }
}

fn translated(reply: &HostReply, windows_path: &str) -> (out: String)
    ensures
        out@ == guest_path(tool_output(reply@), windows_path@),
{
    match reply {
        HostReply::Exited { success, stdout } => {
            if *success {
                resolve_guest_path(Some(stdout.as_str()), windows_path)
            } else {
                resolve_guest_path(None, windows_path)
            }
        },
        _ => resolve_guest_path(None, windows_path),
    }
}

fn log_action(id: &str) -> (out: StartAction)
    ensures
        out@ == (ActionView::OpenLog { dir: log_dir(), file: log_file_of(id@) }),
{
    StartAction::OpenLog { dir: owned("furukawa_logs"), file: concat2(id, ".log") }
}

impl WslRuntime {
    /// The state in which every start begins.
    pub fn begin_start(&self) -> (st: WslStart)
        ensures
            st@ == initial_start(),
    {
        let st = WslStart {
            stage: StartStage::LookUpImage,
            layers: Vec::new(),
            rootfs_path: String::new(),
            wsl_rootfs: String::new(),
            wsl_source: String::new(),
            pid: 0,
            guest_ip: String::new(),
            failure: None,
        };
        proof {
            assert(string_views(st.layers@) =~= Seq::<Seq<char>>::empty());
        }
        st
    }

    /// What the host is to do next for the start `st` of the container `id`
    /// with the configuration `cfg`.
    pub fn start_action(&self, id: &str, cfg: &Config, st: &WslStart) -> (out: StartAction)
        ensures
            out@ == action_of(self.containers_root@, self.distro@, id@, cfg@, st@),
    {
        let distro = self.distro.as_str();
        match st.stage {
            StartStage::LookUpImage => StartAction::LookUpImage(cfg.image.clone()),
            StartStage::ProbeRootfs => StartAction::ProbeRootfs(self.rootfs_dir(id)),
            StartStage::ComposeRootfs => StartAction::ComposeRootfs {
                layers: clone_strings(&st.layers),
                target: self.rootfs_dir(id),
            },
            StartStage::TranslateRootfs => StartAction::Run(
                make_path_query(distro, st.rootfs_path.as_str()),
            ),
            StartStage::TranslateVolume(i) => {
                if i < cfg.volumes.len() {
                    StartAction::Run(make_path_query(distro, cfg.volumes[i].host_path.as_str()))
                } else {
                    log_action(id)
                }
            },
            StartStage::MakeMountPoint(i) => {
                if i < cfg.volumes.len() {
                    let mountpoint = concat2(
                        st.wsl_rootfs.as_str(),
                        cfg.volumes[i].container_path.as_str(),
                    );
                    StartAction::Run(make_mount_point_command(distro, mountpoint.as_str()))
                } else {
                    log_action(id)
                }
            },
            StartStage::BindMount(i) => {
                if i < cfg.volumes.len() {
                    let mountpoint = concat2(
                        st.wsl_rootfs.as_str(),
                        cfg.volumes[i].container_path.as_str(),
                    );
                    StartAction::Run(
                        make_bind_mount_command(
                            distro,
                            st.wsl_source.as_str(),
                            mountpoint.as_str(),
                            cfg.volumes[i].readonly,
                        ),
                    )
                } else {
                    log_action(id)
                }
            },
            StartStage::OpenLog => log_action(id),
            StartStage::Spawn => StartAction::Spawn(
                make_chroot_command(distro, &cfg.env, st.wsl_rootfs.as_str(), &cfg.cmd),
            ),
            StartStage::FindGuestIp => StartAction::Run(make_guest_ip_query(distro)),
            StartStage::AddProxy(k) => {
                if k < cfg.port_mappings.len() {
                    StartAction::Run(
                        make_proxy_add_command(
                            cfg.port_mappings[k].host_port,
                            cfg.port_mappings[k].container_port,
                            st.guest_ip.as_str(),
                        ),
                    )
                } else {
                    StartAction::Finish(Ok(st.pid))
                }
            },
            StartStage::Finished => StartAction::Finish(
                match &st.failure {
                    Some(e) => Err(e.duplicate()),
                    None => Ok(st.pid),
                },
            ),
        }
    }

    /// The start after the host has replied to what it was last asked.
    pub fn start_advance(&self, cfg: &Config, st: WslStart, reply: HostReply) -> (out: WslStart)
        ensures
            out@ == next_of(self.distro@, cfg@, st@, reply@),
    {
        match st.stage {
            StartStage::LookUpImage => match reply {
                HostReply::Image(Some(layers)) => WslStart {
                    stage: StartStage::ProbeRootfs,
                    layers,
                    rootfs_path: st.rootfs_path,
                    wsl_rootfs: st.wsl_rootfs,
                    wsl_source: st.wsl_source,
                    pid: st.pid,
                    guest_ip: st.guest_ip,
                    failure: st.failure,
                },
                HostReply::Image(None) => st.fail(
                    RuntimeError::ImageResolutionFailed(owned("Image not found")),
                ),
                HostReply::Failed(e) => st.fail(RuntimeError::ImageResolutionFailed(e)),
                _ => st,
            },
            StartStage::ProbeRootfs => match reply {
                HostReply::Rootfs { present, path } => WslStart {
                    stage: if present {
                        StartStage::TranslateRootfs
                    } else {
                        StartStage::ComposeRootfs
                    },
                    layers: st.layers,
                    rootfs_path: path,
                    wsl_rootfs: st.wsl_rootfs,
                    wsl_source: st.wsl_source,
                    pid: st.pid,
                    guest_ip: st.guest_ip,
                    failure: st.failure,
                },
                _ => st,
            },
            StartStage::ComposeRootfs => match reply {
                HostReply::Done => st.at(StartStage::TranslateRootfs),
                HostReply::Failed(e) => st.fail(RuntimeError::RootfsCompositionFailed(e)),
                _ => st,
            },
            StartStage::TranslateRootfs => match reply {
                HostReply::Exited { .. } | HostReply::Failed(_) => {
                    let wsl_rootfs = translated(&reply, st.rootfs_path.as_str());
                    WslStart {
                        stage: stage_of_volume(cfg, 0),
                        layers: st.layers,
                        rootfs_path: st.rootfs_path,
                        wsl_rootfs,
                        wsl_source: st.wsl_source,
                        pid: st.pid,
                        guest_ip: st.guest_ip,
                        failure: st.failure,
                    }
                },
                _ => st,
            },
            StartStage::TranslateVolume(i) => {
                if i >= cfg.volumes.len() {
                    st.at(StartStage::OpenLog)
                } else {
                    match reply {
                        HostReply::Exited { .. } | HostReply::Failed(_) => {
                            let wsl_source = translated(&reply, cfg.volumes[i].host_path.as_str());
                            WslStart {
                                stage: StartStage::MakeMountPoint(i),
                                layers: st.layers,
                                rootfs_path: st.rootfs_path,
                                wsl_rootfs: st.wsl_rootfs,
                                wsl_source,
                                pid: st.pid,
                                guest_ip: st.guest_ip,
                                failure: st.failure,
                            }
                        },
                        _ => st,
                    }
                }
            },
            StartStage::MakeMountPoint(i) => {
                if i >= cfg.volumes.len() {
                    st.at(StartStage::OpenLog)
                } else {
                    match reply {
                        HostReply::Exited { .. } | HostReply::Failed(_) => st.at(
                            StartStage::BindMount(i),
                        ),
                        _ => st,
                    }
                }
            },
            StartStage::BindMount(i) => {
                if i >= cfg.volumes.len() {
                    st.at(StartStage::OpenLog)
                } else {
                    match reply {
                        HostReply::Exited { .. } | HostReply::Failed(_) => {
                            let next = stage_of_volume(cfg, i + 1);
                            st.at(next)
                        },
                        _ => st,
                    }
                }
            },
            StartStage::OpenLog => match reply {
                HostReply::Done => st.at(StartStage::Spawn),
                HostReply::Failed(e) => st.fail(RuntimeError::LogSetupFailed(e)),
                _ => st,
            },
            StartStage::Spawn => match reply {
                HostReply::Spawned(Some(pid)) => WslStart {
                    stage: if cfg.port_mappings.len() > 0 {
                        StartStage::FindGuestIp
                    } else {
                        StartStage::Finished
                    },
                    layers: st.layers,
                    rootfs_path: st.rootfs_path,
                    wsl_rootfs: st.wsl_rootfs,
                    wsl_source: st.wsl_source,
                    pid,
                    guest_ip: st.guest_ip,
                    failure: st.failure,
                },
                HostReply::Spawned(None) => st.fail(RuntimeError::NoPid),
                HostReply::Failed(e) => st.fail(RuntimeError::SpawnFailed(e)),
                _ => st,
            },
            StartStage::FindGuestIp => match reply {
                HostReply::Exited { success, stdout } => match guest_ip(stdout.as_str()) {
                    Some(ip) => WslStart {
                        stage: stage_of_proxy(cfg, 0),
                        layers: st.layers,
                        rootfs_path: st.rootfs_path,
                        wsl_rootfs: st.wsl_rootfs,
                        wsl_source: st.wsl_source,
                        pid: st.pid,
                        guest_ip: ip,
                        failure: st.failure,
                    },
                    None => st.fail(RuntimeError::PortForwardingFailed(owned("No WSL IP found"))),
                },
                HostReply::Failed(e) => st.fail(
                    RuntimeError::PortForwardingFailed(
                        concat2("Failed to get WSL IP: ", e.as_str()),
                    ),
                ),
                _ => st,
            },
            StartStage::AddProxy(k) => {
                if k >= cfg.port_mappings.len() {
                    st.at(StartStage::Finished)
                } else {
                    match reply {
                        HostReply::Exited { .. } => {
                            let next = stage_of_proxy(cfg, k + 1);
                            st.at(next)
                        },
                        HostReply::Failed(e) => st.fail(
                            RuntimeError::PortForwardingFailed(
                                concat2("Netsh failed: ", e.as_str()),
                            ),
                        ),
                        _ => st,
                    }
                }
            },
            StartStage::Finished => st,
        }
    }
}

/// The running state of a process that was spawned just now.
pub fn running_state(pid: u32) -> (out: Running)
    ensures
        out.pid == pid,
{
    Running { pid, started_at: now_utc() }
}

// ---------------------------------------------------------------------------
// What holds of every start
// ---------------------------------------------------------------------------

/// How far a stage is from the beginning: the stages in the order in which
/// a start goes through them.
pub open spec fn rank(cfg: ConfigView, stage: StartStage) -> int {
    let v = cfg.volumes.len() as int;
    let p = cfg.port_mappings.len() as int;
    match stage {
        StartStage::LookUpImage => 0,
        StartStage::ProbeRootfs => 1,
        StartStage::ComposeRootfs => 2,
        StartStage::TranslateRootfs => 3,
        StartStage::TranslateVolume(i) => if i < v {
            4 + 3 * i
        } else {
            3 + 3 * v
        },
        StartStage::MakeMountPoint(i) => if i < v {
            5 + 3 * i
        } else {
            3 + 3 * v
        },
        StartStage::BindMount(i) => if i < v {
            6 + 3 * i
        } else {
            3 + 3 * v
        },
        StartStage::OpenLog => 4 + 3 * v,
        StartStage::Spawn => 5 + 3 * v,
        StartStage::FindGuestIp => 6 + 3 * v,
        StartStage::AddProxy(k) => if k < p {
            7 + 3 * v + k
        } else {
            7 + 3 * v + p
        },
        StartStage::Finished => 7 + 3 * v + p,
    }
}

/// Whether `reply` answers what the host is asked at `stage`.
pub open spec fn answers(cfg: ConfigView, stage: StartStage, reply: ReplyView) -> bool {
    match stage {
        StartStage::LookUpImage => reply is Image || reply is Failed,
        StartStage::ProbeRootfs => reply is Rootfs,
        StartStage::ComposeRootfs => reply is Done || reply is Failed,
        StartStage::TranslateRootfs => is_command_end(reply),
        StartStage::TranslateVolume(i) => i >= cfg.volumes.len() || is_command_end(reply),
        StartStage::MakeMountPoint(i) => i >= cfg.volumes.len() || is_command_end(reply),
        StartStage::BindMount(i) => i >= cfg.volumes.len() || is_command_end(reply),
        StartStage::OpenLog => reply is Done || reply is Failed,
        StartStage::Spawn => reply is Spawned || reply is Failed,
        StartStage::FindGuestIp => is_command_end(reply),
        StartStage::AddProxy(k) => k >= cfg.port_mappings.len() || is_command_end(reply),
        StartStage::Finished => false,
    }
}

/// A start never goes back: no reply takes it to an earlier stage, and a
/// reply that answers the request takes it to a later stage or, from the
/// last port, to the end. So a start ends after at most as many answers as
/// there are stages.
pub proof fn lemma_start_goes_forward(
    distro: Seq<char>,
    cfg: ConfigView,
    st: StartView,
    reply: ReplyView,
)
    requires
        cfg.volumes.len() <= usize::MAX,
        cfg.port_mappings.len() <= usize::MAX,
    ensures
        rank(cfg, next_of(distro, cfg, st, reply).stage) >= rank(cfg, st.stage),
        !answers(cfg, st.stage, reply) ==> next_of(distro, cfg, st, reply) == st,
        answers(cfg, st.stage, reply) ==> next_of(distro, cfg, st, reply).stage
            == StartStage::Finished || rank(cfg, next_of(distro, cfg, st, reply).stage) > rank(
            cfg,
            st.stage,
        ),
        rank(cfg, st.stage) <= rank(cfg, StartStage::Finished),
{
}

/// A start that has not failed has not lost what it learnt: a reply changes
/// the process id only at the stage that spawns the process, and a start
/// that has failed stays failed.
pub proof fn lemma_start_keeps_pid_and_failure(
    distro: Seq<char>,
    cfg: ConfigView,
    st: StartView,
    reply: ReplyView,
)
    ensures
        st.stage != StartStage::Spawn ==> next_of(distro, cfg, st, reply).pid == st.pid,
        st.failure is Some ==> next_of(distro, cfg, st, reply).failure is Some,
        next_of(distro, cfg, st, reply).failure is Some && st.failure is None ==> next_of(
            distro,
            cfg,
            st,
            reply,
        ).stage == StartStage::Finished,
{
}

} // verus!
