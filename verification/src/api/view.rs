//! What the engine shows of its containers and images, and of itself.

use crate::container::{AnyContainer, Phase};
use crate::docker::{
    Component, ContainerSummary, HostConfigSummary, ImageSummary, Platform, PluginsInfo,
    SummaryNetworkSettings, SystemInfo, Version,
};
use crate::image::store::ImageMetadata;
use crate::number::{parse_i64, parsed_i64};
use crate::text::{
    clone_strings, concat2, from_chars, has_prefix, owned, slice, starts_with, string_views,
    to_chars, views,
};
use crate::words::{join, joined, lines, lines_of, split_whitespace, words_of};
use vstd::prelude::*;

verus! {

/// The parameters of a request to list the containers.
#[derive(Debug, Clone)]
pub struct ListQueryParams {
    pub all: Option<bool>,
    pub limit: Option<isize>,
    pub size: Option<bool>,
    pub filters: Option<String>,
}

/// The first eight characters of `id`, or all of it where it has fewer.
pub open spec fn short_id(id: Seq<char>) -> Seq<char> {
    if id.len() >= 8 {
        id.take(8)
    } else {
        id
    }
}

/// The name under which a container is listed: `/furukawa-` and the first
/// eight characters of its id.
pub open spec fn listed_name(id: Seq<char>) -> Seq<char> {
    "/furukawa-"@ + short_id(id)
}

/// The name under which the container `id` is listed.
pub fn summary_name(id: &str) -> (out: String)
    ensures
        out@ == listed_name(id@),
{
    let v = to_chars(id);
    let short = if v.len() >= 8 {
        proof {
            assert(v@.subrange(0, 8) =~= v@.take(8));
        }
        slice(&v, 0, 8)
    } else {
        v
    };
    concat2("/furukawa-", from_chars(&short).as_str())
}

/// Whether `out` is the summary of the container `c` in a listing: its id,
/// its listed name, its image, and its command as one line. Every container
/// is listed as `created`, in the network mode `default`, without ports,
/// labels or mounts.
pub open spec fn summarizes(out: ContainerSummary, c: AnyContainer) -> bool {
    &&& out.id@ == c.id_view()
    &&& string_views(out.names@) == seq![listed_name(c.id_view())]
    &&& out.image@ == c.config_value()@.image
    &&& out.image_id@ == "sha256:placeholder"@
    &&& out.command@ == joined(c.config_value()@.cmd, " "@)
    &&& out.created == 1700000000
    &&& out.ports@.len() == 0
    &&& out.labels@.len() == 0
    &&& out.state@ == "created"@
    &&& out.status@ == "Created"@
    &&& out.host_config.network_mode@ == "default"@
    &&& out.network_settings.networks@.len() == 0
    &&& out.mounts@.len() == 0
}

/// The summary of a container in a listing.
pub fn container_summary(c: &AnyContainer) -> (out: ContainerSummary)
    ensures
        summarizes(out, *c),
{
    let mut names: Vec<String> = Vec::new();
    names.push(summary_name(c.id()));
    proof {
        assert(string_views(names@) =~= seq![listed_name(c.id_view())]);
    }
    ContainerSummary {
        id: owned(c.id()),
        names,
        image: c.config().image.clone(),
        image_id: owned("sha256:placeholder"),
        command: join(&c.config().cmd, " "),
        created: 1700000000,
        ports: Vec::new(),
        labels: Vec::new(),
        state: owned("created"),
        status: owned("Created"),
        host_config: HostConfigSummary { network_mode: owned("default") },
        network_settings: SummaryNetworkSettings { networks: Vec::new() },
        mounts: Vec::new(),
    }
}

/// The summaries of all of `containers`, in order.
pub fn container_summaries(containers: &Vec<AnyContainer>) -> (out: Vec<ContainerSummary>)
    ensures
        out@.len() == containers@.len(),
        forall|i: int| 0 <= i < out@.len() ==> summarizes(#[trigger] out@[i], containers@[i]),
{
    let mut out: Vec<ContainerSummary> = Vec::new();
    let mut i: usize = 0;
    while i < containers.len()
        invariant
            i <= containers.len(),
            out@.len() == i,
            forall|j: int| 0 <= j < i ==> summarizes(#[trigger] out@[j], containers@[j]),
        decreases containers.len() - i,
    {
        out.push(container_summary(&containers[i]));
        i += 1;
    }
    out
}

/// The state of a container as an inspection shows it.
#[derive(Debug, Clone)]
pub struct ContainerState {
    pub status: String,
    pub running: bool,
    pub paused: bool,
    pub restarting: bool,
    pub o_o_m_killed: bool,
    pub dead: bool,
    pub pid: u32,
    pub exit_code: i32,
    pub error: String,
    pub started_at: String,
    pub finished_at: String,
}

/// What an inspection shows of a container.
#[derive(Debug, Clone)]
pub struct ContainerInspect {
    pub id: String,
    pub created: String,
    pub path: String,
    pub args: Vec<String>,
    pub state: ContainerState,
    pub image: String,
    pub name: String,
    pub restart_count: u32,
    pub driver: String,
    pub platform: String,
    pub mount_label: String,
    pub process_label: String,
    pub app_armor_profile: String,
    pub exec_i_ds: Option<Vec<String>>,
    pub size_rw: Option<i64>,
    pub size_root_fs: Option<i64>,
}

/// The time that stands for "never".
pub open spec fn zero_time() -> Seq<char> {
    "0001-01-01T00:00:00Z"@
}

/// The text of a point in time, as `time::OffsetDateTime` writes itself.
/// Nothing is said of it but that it is made from the value.
#[verifier::external_body]
fn time_text(t: &time::OffsetDateTime) -> (out: String) {
    t.to_string()
}

/// The status of a container as clients see it.
pub open spec fn status_of(phase: Phase) -> Seq<char> {
    match phase {
        Phase::Created => "created"@,
        Phase::Running => "running"@,
        Phase::Stopped => "exited"@,
    }
}

/// Whether `out` is the state of the container `c` as an inspection shows
/// it: the status; whether it runs; the process id of a running container,
/// else 0; the exit code of a stopped container, else 0; and the time that
/// stands for "never" as the start of a container that does not run and as
/// the end of one that has not stopped.
pub open spec fn shows_state(out: ContainerState, c: AnyContainer) -> bool {
    &&& out.status@ == status_of(c.phase_of())
    &&& out.running == (c.phase_of() == Phase::Running)
    &&& !out.paused && !out.restarting && !out.o_o_m_killed && !out.dead
    &&& out.error@.len() == 0
    &&& out.pid == match c {
        AnyContainer::Running(r) => r.state_value().pid,
        _ => 0,
    }
    &&& out.exit_code == match c {
        AnyContainer::Stopped(s) => s.state_value().exit_code,
        _ => 0,
    }
    &&& !(c is Running) ==> out.started_at@ == zero_time()
    &&& !(c is Stopped) ==> out.finished_at@ == zero_time()
}

/// The state of a container as an inspection shows it.
pub fn container_state(c: &AnyContainer) -> (out: ContainerState)
    ensures
        shows_state(out, *c),
{
    let status = owned(c.status());
    let running = match c {
        AnyContainer::Running(_) => true,
        _ => false,
    };
    let (pid, started_at, finished_at, exit_code) = match c {
        AnyContainer::Running(r) => (
            r.state().pid,
            time_text(&r.state().started_at),
            owned("0001-01-01T00:00:00Z"),
            0,
        ),
        AnyContainer::Stopped(s) => (
            0,
            owned("0001-01-01T00:00:00Z"),
            time_text(&s.state().finished_at),
            s.state().exit_code,
        ),
        AnyContainer::Created(_) => (
            0,
            owned("0001-01-01T00:00:00Z"),
            owned("0001-01-01T00:00:00Z"),
            0,
        ),
    };
    ContainerState {
        status,
        running,
        paused: false,
        restarting: false,
        o_o_m_killed: false,
        dead: false,
        pid,
        exit_code,
        error: String::new(),
        started_at,
        finished_at,
    }
}

/// The program of a command: its first word, or the empty text.
pub open spec fn path_of(cmd: Seq<Seq<char>>) -> Seq<char> {
    if cmd.len() > 0 {
        cmd[0]
    } else {
        Seq::empty()
    }
}

/// The arguments of a command: its words after the first.
pub open spec fn args_of(cmd: Seq<Seq<char>>) -> Seq<Seq<char>> {
    if cmd.len() > 1 {
        cmd.skip(1)
    } else {
        Seq::empty()
    }
}

/// What an inspection shows of a container.
pub fn inspect_container(c: &AnyContainer) -> (out: ContainerInspect)
    ensures
        out.id@ == c.id_view(),
        out.created@ == "2024-01-01T00:00:00Z"@,
        out.path@ == path_of(c.config_value()@.cmd),
        string_views(out.args@) == args_of(c.config_value()@.cmd),
        shows_state(out.state, *c),
        out.image@ == c.config_value()@.image,
        out.name@ == "/"@ + c.id_view(),
        out.restart_count == 0,
        out.driver@ == "furukawa-fs"@,
        out.platform@ == "windows"@,
        out.mount_label@.len() == 0 && out.process_label@.len() == 0
            && out.app_armor_profile@.len() == 0,
        out.exec_i_ds is None && out.size_rw is None && out.size_root_fs is None,
{
    let config = c.config();
    let path = if config.cmd.len() > 0 {
        config.cmd[0].clone()
    } else {
        String::new()
    };
    let mut args: Vec<String> = Vec::new();
    if config.cmd.len() > 1 {
        let mut i: usize = 1;
        while i < config.cmd.len()
            invariant
                1 <= i <= config.cmd.len(),
                args.len() == i - 1,
                forall|j: int| 0 <= j < args.len() ==> (#[trigger] args[j])@ == config.cmd[j + 1]@,
            decreases config.cmd.len() - i,
        {
            args.push(config.cmd[i].clone());
            i += 1;
        }
        proof {
            let cmd = string_views(config.cmd@);
            assert forall|k: int| 0 <= k < args.len() implies string_views(args@)[k] == cmd.skip(
                1,
            )[k] by {
                assert(args[k]@ == config.cmd[k + 1]@);
            }
            assert(string_views(args@) =~= cmd.skip(1));
        }
    } else {
        proof {
            assert(string_views(args@) =~= Seq::<Seq<char>>::empty());
        }
    }
    ContainerInspect {
        id: owned(c.id()),
        created: owned("2024-01-01T00:00:00Z"),
        path,
        args,
        state: container_state(c),
        image: config.image.clone(),
        name: concat2("/", c.id()),
        restart_count: 0,
        driver: owned("furukawa-fs"),
        platform: owned("windows"),
        mount_label: String::new(),
        process_label: String::new(),
        app_armor_profile: String::new(),
        exec_i_ds: None,
        size_rw: None,
        size_root_fs: None,
    }
}

/// Whether `out` is the summary of the image `meta` in a listing: its id
/// with `sha256:` before it, the id of its parent or the empty text, its
/// tags, and its size, which is also its virtual size.
pub open spec fn summarizes_image(out: ImageSummary, meta: ImageMetadata) -> bool {
    &&& out.id@ == "sha256:"@ + meta.id@
    &&& out.parent_id@ == match meta.parent_id {
        Some(p) => p@,
        None => Seq::<char>::empty(),
    }
    &&& out.repo_tags matches Some(tags) && string_views(tags@) == string_views(meta.repo_tags@)
    &&& out.repo_digests is None
    &&& out.created == meta.created
    &&& out.size == meta.size
    &&& out.shared_size == -1
    &&& out.virtual_size == meta.size
    &&& out.labels is None
    &&& out.containers == -1
}

/// The summary of an image in a listing.
pub fn image_summary(meta: &ImageMetadata) -> (out: ImageSummary)
    ensures
        summarizes_image(out, *meta),
{
    ImageSummary {
        id: concat2("sha256:", meta.id.as_str()),
        parent_id: match &meta.parent_id {
            Some(p) => p.clone(),
            None => String::new(),
        },
        repo_tags: Some(clone_strings(&meta.repo_tags)),
        repo_digests: None,
        created: meta.created,
        size: meta.size,
        shared_size: -1,
        virtual_size: meta.size,
        labels: None,
        containers: -1,
    }
}

/// The summaries of all of `images`, in order.
pub fn image_summaries(images: &Vec<ImageMetadata>) -> (out: Vec<ImageSummary>)
    ensures
        out@.len() == images@.len(),
        forall|i: int| 0 <= i < out@.len() ==> summarizes_image(#[trigger] out@[i], images@[i]),
{
    let mut out: Vec<ImageSummary> = Vec::new();
    let mut i: usize = 0;
    while i < images.len()
        invariant
            i <= images.len(),
            out@.len() == i,
            forall|j: int| 0 <= j < i ==> summarizes_image(#[trigger] out@[j], images@[j]),
        decreases images.len() - i,
    {
        out.push(image_summary(&images[i]));
        i += 1;
    }
    out
}

/// How many of the first `n` containers are in the state `phase`.
pub open spec fn count_in(all: Seq<AnyContainer>, phase: Phase, n: int) -> int
    decreases n,
{
    if n <= 0 {
        0
    } else if all[n - 1].phase_of() == phase {
        count_in(all, phase, n - 1) + 1
    } else {
        count_in(all, phase, n - 1)
    }
}

/// How many of `all` are in the state `phase`.
pub fn count_phase(all: &Vec<AnyContainer>, phase: Phase) -> (out: usize)
    ensures
        out == count_in(all@, phase, all@.len() as int),
{
    let mut out: usize = 0;
    let mut i: usize = 0;
    while i < all.len()
        invariant
            i <= all.len(),
            out <= i,
            out == count_in(all@, phase, i as int),
        decreases all.len() - i,
    {
        if all[i].phase() == phase {
            out += 1;
        }
        i += 1;
    }
    out
}

/// The place of the first line that begins with `MemTotal:`, among the
/// first `n` lines, or `n` where there is none.
pub open spec fn first_total_line(all: Seq<Seq<char>>, n: int) -> int
    decreases n,
{
    if n <= 0 {
        0
    } else {
        let before = first_total_line(all, n - 1);
        if before < n - 1 {
            before
        } else if has_prefix(all[n - 1], "MemTotal:"@) {
            n - 1
        } else {
            n
        }
    }
}

/// The product of `kilobytes` and 1024, or the `i64` nearest to it.
pub open spec fn to_bytes(kilobytes: i64) -> i64 {
    if kilobytes * 1024 > i64::MAX {
        i64::MAX
    } else if kilobytes * 1024 < i64::MIN {
        i64::MIN
    } else {
        (kilobytes * 1024) as i64
    }
}

/// The memory of the host in bytes, as `/proc/meminfo` states it: 1024
/// times the number that is the second word of the first line that begins
/// with `MemTotal:`; 0 where there is no such line, word or number.
pub open spec fn mem_total_of(meminfo: Seq<char>) -> i64 {
    let all = lines_of(meminfo);
    let at = first_total_line(all, all.len() as int);
    if 0 <= at < all.len() {
        let words = words_of(all[at]);
        if words.len() > 1 {
            match parsed_i64(words[1]) {
                Some(kilobytes) => to_bytes(kilobytes),
                None => 0,
            }
        } else {
            0
        }
    } else {
        0
    }
}

/// The memory of the host in bytes, from the text of `/proc/meminfo`.
pub fn mem_total(meminfo: &str) -> (out: i64)
    ensures
        out == mem_total_of(meminfo@),
{
    let all = lines(&to_chars(meminfo));
    let prefix = to_chars("MemTotal:");
    let mut i: usize = 0;
    while i < all.len()
        invariant
            i <= all.len(),
            prefix@ == "MemTotal:"@,
            views(all@) == lines_of(meminfo@),
            first_total_line(views(all@), i as int) == i,
        decreases all.len() - i,
    {
        proof {
            assert(views(all@)[i as int] == all[i as int]@);
        }
        if starts_with(&all[i], &prefix) {
            proof {
                lemma_first_total_line_stays(views(all@), i as int, all.len() as int);
            }
            let words = split_whitespace(&all[i]);
            if words.len() > 1 {
                proof {
                    assert(views(words@)[1] == words[1]@);
                }
                return match parse_i64(&words[1]) {
                    Some(kilobytes) => {
                        match kilobytes.checked_mul(1024) {
                            Some(bytes) => bytes,
                            None => if kilobytes > 0 {
                                i64::MAX
                            } else {
                                i64::MIN
                            },
                        }
                    },
                    None => 0,
                };
            }
            return 0;
        }
        i += 1;
    }
    0
}

/// Once a line that begins with `MemTotal:` is found, it stays the first.
pub proof fn lemma_first_total_line_stays(all: Seq<Seq<char>>, at: int, n: int)
    requires
        0 <= at < n <= all.len(),
        first_total_line(all, at) == at,
        has_prefix(all[at], "MemTotal:"@),
    ensures
        first_total_line(all, n) == at,
    decreases n - at,
{
    if n > at + 1 {
        lemma_first_total_line_stays(all, at, n - 1);
    }
}

/// What the engine says of itself: how many containers there are, run and
/// have stopped; the memory and the processors of the host; and what never
/// changes.
pub fn system_info(
    containers: &Vec<AnyContainer>,
    mem_total: i64,
    n_cpu: usize,
    architecture: &str,
) -> (out: SystemInfo)
    ensures
        out.containers == containers@.len(),
        out.containers_running == count_in(
            containers@,
            Phase::Running,
            containers@.len() as int,
        ),
        out.containers_stopped == count_in(
            containers@,
            Phase::Stopped,
            containers@.len() as int,
        ),
        out.containers_paused == 0,
        out.images == 0,
        out.mem_total == mem_total,
        out.n_c_p_u == n_cpu,
        out.architecture@ == architecture@,
        out.id@ == "furukawa-engine-id"@,
        out.driver@ == "furukawa-fs"@,
        out.o_s_type@ == "linux"@,
        out.name@ == "furukawa-engine"@,
        out.server_version@ == "0.1.0"@,
{
    let mut volume: Vec<String> = Vec::new();
    volume.push(owned("local"));
    let mut network: Vec<String> = Vec::new();
    network.push(owned("bridge"));
    network.push(owned("host"));
    let mut log: Vec<String> = Vec::new();
    log.push(owned("json-file"));
    SystemInfo {
        id: owned("furukawa-engine-id"),
        containers: containers.len(),
        containers_running: count_phase(containers, Phase::Running),
        containers_paused: 0,
        containers_stopped: count_phase(containers, Phase::Stopped),
        images: 0,
        driver: owned("furukawa-fs"),
        system_status: None,
        plugins: PluginsInfo {
            volume: Some(volume),
            network: Some(network),
            authorization: None,
            log: Some(log),
        },
        memory_limit: true,
        swap_limit: true,
        kernel_memory: true,
        kernel_memory_t_c_p: true,
        cpu_cfs_period: true,
        cpu_cfs_quota: true,
        c_p_u_shares: true,
        c_p_u_set: true,
        pids_limit: true,
        oom_kill_disable: true,
        i_pv4_forwarding: true,
        bridge_nf_iptables: true,
        bridge_nf_ip6tables: true,
        debug: true,
        n_fd: 0,
        o_o_m_score_adj: 0,
        n_e_vents_listener: 0,
        kernel_version: owned("5.15.90.1-microsoft-standard-WSL2"),
        operating_system: owned("Docker Desktop"),
        o_s_type: owned("linux"),
        architecture: owned(architecture),
        n_c_p_u: n_cpu,
        mem_total,
        name: owned("furukawa-engine"),
        server_version: owned("0.1.0"),
    }
}

/// The version document of the engine on the operating system `os` and the
/// architecture `arch`: version 0.1.0, API version 1.45.
pub fn version(os: &str, arch: &str) -> (out: Version)
    ensures
        out.platform.name@ == "Furukawa Engine"@,
        out.version@ == "0.1.0"@,
        out.api_version@ == "1.45"@,
        out.min_a_p_i_version@ == "1.45"@,
        out.os@ == os@,
        out.arch@ == arch@,
        !out.experimental,
        out.components matches Some(list) && list@.len() == 1 && list@[0].name@ == "Engine"@
            && list@[0].version@ == "0.1.0"@,
{
    let mut components: Vec<Component> = Vec::new();
    components.push(Component { name: owned("Engine"), version: owned("0.1.0") });
    Version {
        platform: Platform { name: owned("Furukawa Engine") },
        components: Some(components),
        version: owned("0.1.0"),
        api_version: owned("1.45"),
        min_a_p_i_version: owned("1.45"),
        git_commit: owned("HEAD"),
        go_version: owned("rust"),
        os: owned(os),
        arch: owned(arch),
        kernel_version: owned("unknown"),
        experimental: false,
        build_time: None,
    }
}

} // verus!
