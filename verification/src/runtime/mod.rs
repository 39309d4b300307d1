//! Running containers inside the managed WSL distribution: the errors, the
//! commands handed to the host, and the order in which they are issued.

pub mod process_control;
pub mod start;
pub mod stop;

use crate::command::{netsh_command, wsl_command, CommandView, HostCommand};

use crate::diagnostic::Diagnosable;
use crate::hostpath::{HostPath, HostPathView};
use crate::number::{decimal, decimal_of};
use crate::text::{concat2, from_chars, option_view, owned, string_views, to_chars};
use crate::words::{split_whitespace, words_of};

use vstd::prelude::*;
use vstd::string::StringExecFns;

verus! {

/// What goes wrong when a container is started or stopped.
#[derive(Debug, Clone)]
pub enum RuntimeError {
    /// The process could not be spawned; the text is the system's reason.
    SpawnFailed(String),
    /// The spawned process has no id.
    NoPid,
    /// The log file could not be set up; the text is the system's reason.
    LogSetupFailed(String),
    ImageResolutionFailed(String),
    RootfsCompositionFailed(String),
    PortForwardingFailed(String),
    WslSetupFailed(String),
}

/// What a [`RuntimeError`] holds, as mathematical values.
pub enum RuntimeErrorView {
    SpawnFailed(Seq<char>),
    NoPid,
    LogSetupFailed(Seq<char>),
    ImageResolutionFailed(Seq<char>),
    RootfsCompositionFailed(Seq<char>),
    PortForwardingFailed(Seq<char>),
    WslSetupFailed(Seq<char>),
}

impl View for RuntimeError {
    type V = RuntimeErrorView;

    open spec fn view(&self) -> RuntimeErrorView {
        match *self {
            RuntimeError::SpawnFailed(s) => RuntimeErrorView::SpawnFailed(s@),
            RuntimeError::NoPid => RuntimeErrorView::NoPid,
            RuntimeError::LogSetupFailed(s) => RuntimeErrorView::LogSetupFailed(s@),
            RuntimeError::ImageResolutionFailed(s) => RuntimeErrorView::ImageResolutionFailed(s@),
            RuntimeError::RootfsCompositionFailed(s) => RuntimeErrorView::RootfsCompositionFailed(
                s@,
            ),
            RuntimeError::PortForwardingFailed(s) => RuntimeErrorView::PortForwardingFailed(s@),
            RuntimeError::WslSetupFailed(s) => RuntimeErrorView::WslSetupFailed(s@),
        }
    }
}

impl RuntimeError {
    /// A copy of this error.
    pub fn duplicate(&self) -> (out: RuntimeError)
        ensures
            out@ == self@,
    {
        match self {
            RuntimeError::SpawnFailed(s) => RuntimeError::SpawnFailed(s.clone()),
            RuntimeError::NoPid => RuntimeError::NoPid,
            RuntimeError::LogSetupFailed(s) => RuntimeError::LogSetupFailed(s.clone()),
            RuntimeError::ImageResolutionFailed(s) => RuntimeError::ImageResolutionFailed(
                s.clone(),
            ),
            RuntimeError::RootfsCompositionFailed(s) => RuntimeError::RootfsCompositionFailed(
                s.clone(),
            ),
            RuntimeError::PortForwardingFailed(s) => RuntimeError::PortForwardingFailed(s.clone()),
            RuntimeError::WslSetupFailed(s) => RuntimeError::WslSetupFailed(s.clone()),
        }
    }
}

impl Diagnosable for RuntimeError {
    open spec fn message_of(&self) -> Seq<char> {
        match *self {
            RuntimeError::SpawnFailed(s) => "Failed to spawn process: "@ + s@,
            RuntimeError::NoPid => "Failed to get PID"@,
            RuntimeError::LogSetupFailed(s) => "Failed to setup logs: "@ + s@,
            RuntimeError::ImageResolutionFailed(s) => "Image resolution failed: "@ + s@,
            RuntimeError::RootfsCompositionFailed(s) => "RootFS composition failed: "@ + s@,
            RuntimeError::PortForwardingFailed(s) => "Port forwarding failed: "@ + s@,
            RuntimeError::WslSetupFailed(s) => "WSL setup failed: "@ + s@,
        }
    }

    open spec fn code_of(&self) -> Seq<char> {
        match *self {
            RuntimeError::SpawnFailed(_) => "RUNTIME_SPAWN_FAILED"@,
            RuntimeError::NoPid => "RUNTIME_NO_PID"@,
            RuntimeError::LogSetupFailed(_) => "RUNTIME_LOG_SETUP_FAILED"@,
            RuntimeError::ImageResolutionFailed(_) => "RUNTIME_IMAGE_RESOLUTION_FAILED"@,
            RuntimeError::RootfsCompositionFailed(_) => "RUNTIME_ROOTFS_COMPOSITION_FAILED"@,
            RuntimeError::PortForwardingFailed(_) => "RUNTIME_PORT_FORWARDING_FAILED"@,
            RuntimeError::WslSetupFailed(_) => "RUNTIME_WSL_SETUP_FAILED"@,
        }
    }

    open spec fn suggestion_of(&self) -> Option<Seq<char>> {
        Some(
            match *self {
                RuntimeError::SpawnFailed(_) => "Check if the binary exists and has execution permissions"@,
                RuntimeError::NoPid => "Process might have exited immediately"@,
                RuntimeError::LogSetupFailed(_) => "Check disk permissions"@,
                RuntimeError::ImageResolutionFailed(_) => "Verify if the image exists in the store"@,
                RuntimeError::RootfsCompositionFailed(_) => "Check for enough disk space and file permissions"@,
                RuntimeError::PortForwardingFailed(_) => "Check if firewall or another process is blocking the port, and ensure Admin privileges"@,
                RuntimeError::WslSetupFailed(_) => "Ensure WSL2 is installed (wsl --install) and enabled"@,
            },
        )
    }

    fn message(&self) -> (out: String) {
        match self {
            RuntimeError::SpawnFailed(s) => concat2("Failed to spawn process: ", s.as_str()),
            RuntimeError::NoPid => owned("Failed to get PID"),
            RuntimeError::LogSetupFailed(s) => concat2("Failed to setup logs: ", s.as_str()),
            RuntimeError::ImageResolutionFailed(s) => concat2(
                "Image resolution failed: ",
                s.as_str(),
            ),
            RuntimeError::RootfsCompositionFailed(s) => concat2(
                "RootFS composition failed: ",
                s.as_str(),
            ),
            RuntimeError::PortForwardingFailed(s) => concat2(
                "Port forwarding failed: ",
                s.as_str(),
            ),
            RuntimeError::WslSetupFailed(s) => concat2("WSL setup failed: ", s.as_str()),
        }
    }

    fn code(&self) -> (out: String) {
        match self {
            RuntimeError::SpawnFailed(_) => owned("RUNTIME_SPAWN_FAILED"),
            RuntimeError::NoPid => owned("RUNTIME_NO_PID"),
            RuntimeError::LogSetupFailed(_) => owned("RUNTIME_LOG_SETUP_FAILED"),
            RuntimeError::ImageResolutionFailed(_) => owned("RUNTIME_IMAGE_RESOLUTION_FAILED"),
            RuntimeError::RootfsCompositionFailed(_) => owned("RUNTIME_ROOTFS_COMPOSITION_FAILED"),
            RuntimeError::PortForwardingFailed(_) => owned("RUNTIME_PORT_FORWARDING_FAILED"),
            RuntimeError::WslSetupFailed(_) => owned("RUNTIME_WSL_SETUP_FAILED"),
        }
    }

    fn suggestion(&self) -> (out: Option<String>) {
        Some(
            match self {
                RuntimeError::SpawnFailed(_) => owned(
                    "Check if the binary exists and has execution permissions",
                ),
                RuntimeError::NoPid => owned("Process might have exited immediately"),
                RuntimeError::LogSetupFailed(_) => owned("Check disk permissions"),
                RuntimeError::ImageResolutionFailed(_) => owned(
                    "Verify if the image exists in the store",
                ),
                RuntimeError::RootfsCompositionFailed(_) => owned(
                    "Check for enough disk space and file permissions",
                ),
                RuntimeError::PortForwardingFailed(_) => owned(
                    "Check if firewall or another process is blocking the port, and ensure Admin privileges",
                ),
                RuntimeError::WslSetupFailed(_) => owned(
                    "Ensure WSL2 is installed (wsl --install) and enabled",
                ),
            },
        )
    }
}

/// The runtime that runs a container's program directly on the host.
#[derive(Debug, Default, Clone)]
pub struct ProcessRuntime;

/// The runtime that runs a container's program inside the managed WSL
/// distribution, in a root filesystem composed from the image's layers.
#[derive(Debug, Clone)]
pub struct WslRuntime {
    /// The host directory below which each container has its own directory.
    pub containers_root: String,
    /// The name of the managed distribution.
    pub distro: String,
}

/// The host directory of the logs, relative to the engine's working directory.
pub open spec fn log_dir() -> Seq<char> {
    "furukawa_logs"@
}

/// The name of the log file of the container `id`.
pub open spec fn log_file_of(id: Seq<char>) -> Seq<char> {
    id + ".log"@
}

/// The root filesystem of the container `id`: `<root>/<id>/rootfs`.
pub open spec fn rootfs_dir_of(containers_root: Seq<char>, id: Seq<char>) -> HostPathView {
    HostPathView { base: containers_root, parts: seq![id, "rootfs"@] }
}

impl ProcessRuntime {
    /// The command that runs the program of a container with the command
    /// `cmd` directly on the host: its first word with the others as
    /// arguments, or `sh` where it has no word.
    pub fn command(&self, cmd: &Vec<String>) -> (out: HostCommand)
        ensures
            out@ == direct_command(string_views(cmd@)),
    {
        make_direct_command(cmd)
    }

    /// The name of the log file of the container `id`, in the directory
    /// `furukawa_logs`.
    pub fn log_file(&self, id: &str) -> (out: String)
        ensures
            out@ == log_file_of(id@),
    {
        concat2(id, ".log")
    }

    /// The process id of a spawned process, or the error that it has none.
    pub fn pid_of(&self, spawned: Option<u32>) -> (r: Result<u32, RuntimeError>)
        ensures
            match spawned {
                Some(pid) => r == Ok::<u32, RuntimeError>(pid),
                None => r matches Err(e) && e@ == RuntimeErrorView::NoPid,
            },
    {
        match spawned {
            Some(pid) => Ok(pid),
            None => Err(RuntimeError::NoPid),
        }
    }
}

impl WslRuntime {
    /// Where the root filesystem of the container `id` is kept.
    pub fn rootfs_dir(&self, id: &str) -> (out: HostPath)
        ensures
            out@ == rootfs_dir_of(self.containers_root@, id@),
    {
        let mut parts: Vec<String> = Vec::new();
        parts.push(owned(id));
        parts.push(owned("rootfs"));
        proof {
            assert(string_views(parts@) =~= seq![id@, "rootfs"@]);
        }
        HostPath { base: self.containers_root.clone(), parts }
    }
}

// ---------------------------------------------------------------------------
// The commands
// ---------------------------------------------------------------------------

/// The program of a container: the first word of its command, or `sh`.
pub open spec fn program_of(cmd: Seq<Seq<char>>) -> Seq<char> {
    if cmd.len() == 0 {
        "sh"@
    } else {
        cmd[0]
    }
}

/// The arguments of a container's program: its command without the first
/// word.
pub open spec fn arguments_of(cmd: Seq<Seq<char>>) -> Seq<Seq<char>> {
    if cmd.len() > 1 {
        cmd.skip(1)
    } else {
        Seq::empty()
    }
}

/// The command that runs a container's program directly on the host.
pub open spec fn direct_command(cmd: Seq<Seq<char>>) -> CommandView {
    CommandView { program: program_of(cmd), args: arguments_of(cmd) }
}

/// `wsl.exe -d <distro> -- wslpath -u <windows_path>`: asks the guest for
/// its name of a Windows path.
pub open spec fn path_query(distro: Seq<char>, windows_path: Seq<char>) -> CommandView {
    wsl_command(seq!["-d"@, distro, "--"@, "wslpath"@, "-u"@, windows_path])
}

/// `wsl.exe -d <distro> -u root -- mkdir -p <mountpoint>`.
pub open spec fn mount_point_command(distro: Seq<char>, mountpoint: Seq<char>) -> CommandView {
    wsl_command(seq!["-d"@, distro, "-u"@, "root"@, "--"@, "mkdir"@, "-p"@, mountpoint])
}

/// `wsl.exe -d <distro> -u root -- mount --bind <source> <mountpoint>`, with
/// `-o ro` appended for a read-only mount.
pub open spec fn bind_mount_command(
    distro: Seq<char>,
    source: Seq<char>,
    mountpoint: Seq<char>,
    readonly: bool,
) -> CommandView {
    let base = seq!["-d"@, distro, "-u"@, "root"@, "--"@, "mount"@, "--bind"@, source, mountpoint];
    wsl_command(
        if readonly {
            base + seq!["-o"@, "ro"@]
        } else {
            base
        },
    )
}

/// `wsl.exe -d <distro> -u root -- umount <mountpoint>`.
pub open spec fn unmount_command(distro: Seq<char>, mountpoint: Seq<char>) -> CommandView {
    wsl_command(seq!["-d"@, distro, "-u"@, "root"@, "--"@, "umount"@, mountpoint])
}

/// `wsl.exe -d <distro> -u root -- env <K=V>... chroot <rootfs> <program>
/// <arguments>...`.
pub open spec fn chroot_command(
    distro: Seq<char>,
    env: Seq<Seq<char>>,
    rootfs: Seq<char>,
    cmd: Seq<Seq<char>>,
) -> CommandView {
    wsl_command(
        seq!["-d"@, distro, "-u"@, "root"@, "--"@, "env"@] + env + seq![
            "chroot"@,
            rootfs,
            program_of(cmd),
        ] + arguments_of(cmd),
    )
}

/// `wsl.exe -d <distro> hostname -I`: asks the guest for its addresses.
pub open spec fn guest_ip_query(distro: Seq<char>) -> CommandView {
    wsl_command(seq!["-d"@, distro, "hostname"@, "-I"@])
}

/// The guest's primary address: the first word of what `hostname -I`
/// printed, if it printed one.
pub open spec fn guest_ip_of(output: Seq<char>) -> Option<Seq<char>> {
    let words = words_of(output);
    if words.len() > 0 {
        Some(words[0])
    } else {
        None
    }
}

/// `netsh interface portproxy add v4tov4 listenport=<host>
/// listenaddress=0.0.0.0 connectport=<container> connectaddress=<ip>`.
pub open spec fn proxy_add_command(
    host_port: u16,
    container_port: u16,
    guest_ip: Seq<char>,
) -> CommandView {
    netsh_command(
        seq![
            "interface"@,
            "portproxy"@,
            "add"@,
            "v4tov4"@,
            "listenport="@ + decimal_of(host_port as nat),
            "listenaddress=0.0.0.0"@,
            "connectport="@ + decimal_of(container_port as nat),
            "connectaddress="@ + guest_ip,
        ],
    )
}

/// `netsh interface portproxy delete v4tov4 listenport=<host>
/// listenaddress=0.0.0.0`.
pub open spec fn proxy_delete_command(host_port: u16) -> CommandView {
    netsh_command(
        seq![
            "interface"@,
            "portproxy"@,
            "delete"@,
            "v4tov4"@,
            "listenport="@ + decimal_of(host_port as nat),
            "listenaddress=0.0.0.0"@,
        ],
    )
}

fn wsl(args: Vec<String>) -> (out: HostCommand)
    ensures
        out@ == wsl_command(string_views(args@)),
{
    HostCommand { program: owned("wsl.exe"), args }
}

fn netsh(args: Vec<String>) -> (out: HostCommand)
    ensures
        out@ == netsh_command(string_views(args@)),
{
    HostCommand { program: owned("netsh"), args }
}

fn with_port(label: &str, port: u16) -> (out: String)
    ensures
        out@ == label@ + decimal_of(port as nat),
{
    let digits = from_chars(&decimal(port as u32));
    concat2(label, digits.as_str())
}

/// The words of `cmd` after the first.
fn rest_of_command(cmd: &Vec<String>) -> (args: Vec<String>)
    ensures
        string_views(args@) == arguments_of(string_views(cmd@)),
{
    let mut args: Vec<String> = Vec::new();
    if cmd.len() > 1 {
        let mut i: usize = 1;
        while i < cmd.len()
            invariant
                1 <= i <= cmd.len(),
                args.len() == i - 1,
                forall|j: int| 0 <= j < args.len() ==> (#[trigger] args[j])@ == cmd[j + 1]@,
            decreases cmd.len() - i,
        {
            args.push(cmd[i].clone());
            i += 1;
        }
        proof {
            let c = string_views(cmd@);
            assert forall|k: int| 0 <= k < args.len() implies string_views(args@)[k] == c.skip(
                1,
            )[k] by {
                assert(args[k]@ == cmd[k + 1]@);
            }
            assert(string_views(args@) =~= c.skip(1));
        }
    } else {
        proof {
            assert(string_views(args@) =~= Seq::<Seq<char>>::empty());
        }
    }
    args
}

/// The command that runs the program of `cmd` directly on the host.
pub fn make_direct_command(cmd: &Vec<String>) -> (out: HostCommand)
    ensures
        out@ == direct_command(string_views(cmd@)),
{
    let program = if cmd.len() == 0 {
        owned("sh")
    } else {
        cmd[0].clone()
    };
    HostCommand { program, args: rest_of_command(cmd) }
}

/// The command that asks the guest for its name of `windows_path`.
pub fn make_path_query(distro: &str, windows_path: &str) -> (out: HostCommand)
    ensures
        out@ == path_query(distro@, windows_path@),
{
    let mut args: Vec<String> = Vec::new();
    args.push(owned("-d"));
    args.push(owned(distro));
    args.push(owned("--"));
    args.push(owned("wslpath"));
    args.push(owned("-u"));
    args.push(owned(windows_path));
    proof {
        assert(string_views(args@) =~= seq![
            "-d"@,
            distro@,
            "--"@,
            "wslpath"@,
            "-u"@,
            windows_path@,
        ]);
    }
    wsl(args)
}

/// The command that creates a mount point inside the root filesystem.
pub fn make_mount_point_command(distro: &str, mountpoint: &str) -> (out: HostCommand)
    ensures
        out@ == mount_point_command(distro@, mountpoint@),
{
    let mut args: Vec<String> = Vec::new();
    args.push(owned("-d"));
    args.push(owned(distro));
    args.push(owned("-u"));
    args.push(owned("root"));
    args.push(owned("--"));
    args.push(owned("mkdir"));
    args.push(owned("-p"));
    args.push(owned(mountpoint));
    proof {
        assert(string_views(args@) =~= seq![
            "-d"@,
            distro@,
            "-u"@,
            "root"@,
            "--"@,
            "mkdir"@,
            "-p"@,
            mountpoint@,
        ]);
    }
    wsl(args)
}

/// The command that binds a host directory to a mount point.
pub fn make_bind_mount_command(distro: &str, source: &str, mountpoint: &str, readonly: bool) -> (out:
    HostCommand)
    ensures
        out@ == bind_mount_command(distro@, source@, mountpoint@, readonly),
{
    let mut args: Vec<String> = Vec::new();
    args.push(owned("-d"));
    args.push(owned(distro));
    args.push(owned("-u"));
    args.push(owned("root"));
    args.push(owned("--"));
    args.push(owned("mount"));
    args.push(owned("--bind"));
    args.push(owned(source));
    args.push(owned(mountpoint));
    if readonly {
        args.push(owned("-o"));
        args.push(owned("ro"));
    }
    proof {
        let base = seq![
            "-d"@,
            distro@,
            "-u"@,
            "root"@,
            "--"@,
            "mount"@,
            "--bind"@,
            source@,
            mountpoint@,
        ];
        if readonly {
            assert(string_views(args@) =~= base + seq!["-o"@, "ro"@]);
        } else {
            assert(string_views(args@) =~= base);
        }
    }
    wsl(args)
}

/// The command that removes a bind mount.
pub fn make_unmount_command(distro: &str, mountpoint: &str) -> (out: HostCommand)
    ensures
        out@ == unmount_command(distro@, mountpoint@),
{
    let mut args: Vec<String> = Vec::new();
    args.push(owned("-d"));
    args.push(owned(distro));
    args.push(owned("-u"));
    args.push(owned("root"));
    args.push(owned("--"));
    args.push(owned("umount"));
    args.push(owned(mountpoint));
    proof {
        assert(string_views(args@) =~= seq![
            "-d"@,
            distro@,
            "-u"@,
            "root"@,
            "--"@,
            "umount"@,
            mountpoint@,
        ]);
    }
    wsl(args)
}

/// The command that runs the container's program inside its root
/// filesystem, with its environment.
pub fn make_chroot_command(distro: &str, env: &Vec<String>, rootfs: &str, cmd: &Vec<String>) -> (out:
    HostCommand)
    ensures
        out@ == chroot_command(distro@, string_views(env@), rootfs@, string_views(cmd@)),
{
    let ghost head = seq!["-d"@, distro@, "-u"@, "root"@, "--"@, "env"@];
    let ghost middle = seq!["chroot"@, rootfs@, program_of(string_views(cmd@))];
    let mut args: Vec<String> = Vec::new();
    args.push(owned("-d"));
    args.push(owned(distro));
    args.push(owned("-u"));
    args.push(owned("root"));
    args.push(owned("--"));
    args.push(owned("env"));
    proof {
        assert(string_views(args@) =~= head);
    }
    let mut i: usize = 0;
    while i < env.len()
        invariant
            i <= env.len(),
            string_views(args@) == head + string_views(env@).take(i as int),
        decreases env.len() - i,
    {
        let ghost before = string_views(args@);
        args.push(env[i].clone());
        proof {
            assert(string_views(args@) =~= before.push(env[i as int]@));
            assert(head + string_views(env@).take(i + 1) =~= (head + string_views(env@).take(
                i as int,
            )).push(env[i as int]@));
        }
        i += 1;
    }
    proof {
        assert(string_views(env@).take(env.len() as int) =~= string_views(env@));
    }
    let ghost with_env = string_views(args@);
    args.push(owned("chroot"));
    args.push(owned(rootfs));
    if cmd.len() == 0 {
        args.push(owned("sh"));
    } else {
        args.push(cmd[0].clone());
    }
    proof {
        assert(string_views(args@) =~= with_env + middle);
    }
    let mut rest = rest_of_command(cmd);
    let ghost tail = string_views(rest@);
    let ghost before = string_views(args@);
    args.append(&mut rest);
    proof {
        assert(string_views(args@) =~= before + tail);
    }
    wsl(args)
}

/// The command that asks the guest for its addresses.
pub fn make_guest_ip_query(distro: &str) -> (out: HostCommand)
    ensures
        out@ == guest_ip_query(distro@),
{
    let mut args: Vec<String> = Vec::new();
    args.push(owned("-d"));
    args.push(owned(distro));
    args.push(owned("hostname"));
    args.push(owned("-I"));
    proof {
        assert(string_views(args@) =~= seq!["-d"@, distro@, "hostname"@, "-I"@]);
    }
    wsl(args)
}

/// The guest's primary address in what `hostname -I` printed.
pub fn guest_ip(output: &str) -> (r: Option<String>)
    ensures
        option_view(r) == guest_ip_of(output@),
{
    let words = split_whitespace(&to_chars(output));
    if words.len() > 0 {
        Some(from_chars(&words[0]))
    } else {
        None
    }
}

/// The command that forwards a host port to a port of the guest.
pub fn make_proxy_add_command(host_port: u16, container_port: u16, guest_ip: &str) -> (out:
    HostCommand)
    ensures
        out@ == proxy_add_command(host_port, container_port, guest_ip@),
{
    let mut args: Vec<String> = Vec::new();
    args.push(owned("interface"));
    args.push(owned("portproxy"));
    args.push(owned("add"));
    args.push(owned("v4tov4"));
    args.push(with_port("listenport=", host_port));
    args.push(owned("listenaddress=0.0.0.0"));
    args.push(with_port("connectport=", container_port));
    args.push(concat2("connectaddress=", guest_ip));
    proof {
        assert(string_views(args@) =~= seq![
            "interface"@,
            "portproxy"@,
            "add"@,
            "v4tov4"@,
            "listenport="@ + decimal_of(host_port as nat),
            "listenaddress=0.0.0.0"@,
            "connectport="@ + decimal_of(container_port as nat),
            "connectaddress="@ + guest_ip@,
        ]);
    }
    netsh(args)
}

/// The command that ends the forwarding of a host port.
pub fn make_proxy_delete_command(host_port: u16) -> (out: HostCommand)
    ensures
        out@ == proxy_delete_command(host_port),
{
    let mut args: Vec<String> = Vec::new();
    args.push(owned("interface"));
    args.push(owned("portproxy"));
    args.push(owned("delete"));
    args.push(owned("v4tov4"));
    args.push(with_port("listenport=", host_port));
    args.push(owned("listenaddress=0.0.0.0"));
    proof {
        assert(string_views(args@) =~= seq![
            "interface"@,
            "portproxy"@,
            "delete"@,
            "v4tov4"@,
            "listenport="@ + decimal_of(host_port as nat),
            "listenaddress=0.0.0.0"@,
        ]);
    }
    netsh(args)
}

} // verus!
