//! The plan of a build: which commands turn a list of Dockerfile
//! instructions into a layer archive, and what becomes of the build when one
//! of them fails.

use crate::command::{wsl_command, CommandOutcome, CommandView, HostCommand};
use crate::dockerfile::{
    dockerfile_of, instruction_views, parse_dockerfile, BuildError, Instruction, InstructionView,
};
use crate::text::{concat2, from_chars, owned, rsplit_once, split_at_last, string_views, to_chars};
use crate::words::{join, joined};
use crate::wslpath::{mounted_path, to_mounted_path};
use vstd::prelude::*;
use vstd::string::StringExecFns;

verus! {

/// What a build works on: the directory that holds the Dockerfile and the
/// files it names, the instructions, the tag of the image, and the distro
/// in which the commands run.
pub struct BuildContext {
    pub context_dir: String,
    pub instructions: Vec<Instruction>,
    pub tag: String,
    pub distro: String,
}

impl BuildContext {
    /// Reads the Dockerfile and keeps its instructions with the rest.
    pub fn new(context_dir: String, dockerfile_content: &str, tag: &str, distro: &str) -> (r:
        Result<BuildContext, BuildError>)
        ensures
            match r {
                Ok(ctx) => {
                    &&& dockerfile_of(dockerfile_content@) == Ok::<
                        Seq<InstructionView>,
                        BuildError,
                    >(instruction_views(ctx.instructions@))
                    &&& ctx.context_dir == context_dir
                    &&& ctx.tag@ == tag@
                    &&& ctx.distro@ == distro@
                },
                Err(e) => dockerfile_of(dockerfile_content@) == Err::<
                    Seq<InstructionView>,
                    BuildError,
                >(e),
            },
    {
        match parse_dockerfile(dockerfile_content) {
            Ok(instructions) => Ok(
                BuildContext { context_dir, instructions, tag: owned(tag), distro: owned(distro) },
            ),
            Err(e) => Err(e),
        }
    }
}

/// What a step of a build is for; it decides what a failure means.
#[derive(Debug, Clone, Copy, PartialEq, Eq, Structural)]
pub enum StepKind {
    /// A `RUN` instruction: the build fails with it.
    Run,
    /// Preparing the root filesystem: a failure is passed over.
    Prepare,
    /// Packing the layer archive: the build fails with it.
    Pack,
}

/// One step of a build.
#[derive(Debug, Clone)]
pub enum BuildStep {
    /// Run a command in the distro.
    Command { kind: StepKind, command: HostCommand },
    /// Copy `source`, a path relative to the context directory, to the guest
    /// path `dest`. The host joins `source` to the context directory; then
    /// [`copy_command`] gives the command. A failure is passed over.
    Copy { source: String, dest: String },
    /// Stop: the build has failed.
    Fail(BuildError),
}

/// What a [`BuildStep`] holds, as mathematical values.
pub enum BuildStepView {
    Command { kind: StepKind, command: CommandView },
    Copy { source: Seq<char>, dest: Seq<char> },
    Fail(BuildError),
}

impl View for BuildStep {
    type V = BuildStepView;

    open spec fn view(&self) -> BuildStepView {
        match *self {
            BuildStep::Command { kind, command } => BuildStepView::Command {
                kind,
                command: command@,
            },
            BuildStep::Copy { source, dest } => BuildStepView::Copy {
                source: source@,
                dest: dest@,
            },
            BuildStep::Fail(e) => BuildStepView::Fail(e),
        }
    }
}

/// The views of a list of steps.
pub open spec fn step_views(v: Seq<BuildStep>) -> Seq<BuildStepView> {
    Seq::new(v.len(), |i: int| v[i]@)
}

/// `wsl.exe -d <distro> -u root -- sh -c <the words, joined by blanks>`.
pub open spec fn run_step(distro: Seq<char>, words: Seq<Seq<char>>) -> BuildStepView {
    BuildStepView::Command {
        kind: StepKind::Run,
        command: wsl_command(
            seq!["-d"@, distro, "-u"@, "root"@, "--"@, "sh"@, "-c"@, joined(words, " "@)],
        ),
    }
}

/// `wsl.exe -d <distro> -- mkdir -p <path>`.
pub open spec fn mkdir_step(distro: Seq<char>, path: Seq<char>) -> BuildStepView {
    BuildStepView::Command {
        kind: StepKind::Prepare,
        command: wsl_command(seq!["-d"@, distro, "--"@, "mkdir"@, "-p"@, path]),
    }
}

/// `wsl.exe -d <distro> -- sh -c "echo '<key>=<value>' >> <rootfs>/etc/environment"`.
pub open spec fn env_step(
    distro: Seq<char>,
    rootfs: Seq<char>,
    key: Seq<char>,
    value: Seq<char>,
) -> BuildStepView {
    BuildStepView::Command {
        kind: StepKind::Prepare,
        command: wsl_command(
            seq![
                "-d"@,
                distro,
                "--"@,
                "sh"@,
                "-c"@,
                "echo '"@ + key + "="@ + value + "' >> "@ + rootfs + "/etc/environment"@,
            ],
        ),
    }
}

/// The guest directory that holds `rootfs`: what stands before its last
/// slash, or `.` where it has none.
pub open spec fn parent_of(rootfs: Seq<char>) -> Seq<char> {
    match split_at_last(rootfs, '/') {
        Some((dir, _)) => dir,
        None => "."@,
    }
}

/// `wsl.exe -d <distro> -- tar -czf <parent>/layer.tar -C <rootfs> .`.
pub open spec fn pack_step(distro: Seq<char>, rootfs: Seq<char>) -> BuildStepView {
    BuildStepView::Command {
        kind: StepKind::Pack,
        command: wsl_command(
            seq![
                "-d"@,
                distro,
                "--"@,
                "tar"@,
                "-czf"@,
                parent_of(rootfs) + "/layer.tar"@,
                "-C"@,
                rootfs,
                "."@,
            ],
        ),
    }
}

/// The steps for `instructions`, in order, then the packing of the layer.
/// `has_base` says whether a `FROM` came before. A `RUN` without one ends
/// the plan with a failure; `CMD`, `EXPOSE` and `LABEL` need no step.
pub open spec fn plan_from(
    instructions: Seq<InstructionView>,
    distro: Seq<char>,
    rootfs: Seq<char>,
    has_base: bool,
) -> Seq<BuildStepView>
    decreases instructions.len(),
{
    if instructions.len() == 0 {
        seq![pack_step(distro, rootfs)]
    } else {
        let rest = instructions.skip(1);
        match instructions[0] {
            InstructionView::From { .. } => plan_from(rest, distro, rootfs, true),
            InstructionView::Run(words) => if has_base {
                seq![run_step(distro, words)] + plan_from(rest, distro, rootfs, has_base)
            } else {
                seq![BuildStepView::Fail(BuildError::RunBeforeFrom)]
            },
            InstructionView::Copy { src, dest } => seq![
                mkdir_step(distro, rootfs + dest),
                BuildStepView::Copy { source: src, dest: rootfs + dest },
            ] + plan_from(rest, distro, rootfs, has_base),
            InstructionView::Workdir(dir) => seq![mkdir_step(distro, rootfs + dir)] + plan_from(
                rest,
                distro,
                rootfs,
                has_base,
            ),
            InstructionView::Env { key, value } => seq![env_step(distro, rootfs, key, value)]
                + plan_from(rest, distro, rootfs, has_base),
            _ => plan_from(rest, distro, rootfs, has_base),
        }
    }
}

/// The plan of a whole build.
pub open spec fn build_plan(
    instructions: Seq<InstructionView>,
    distro: Seq<char>,
    rootfs: Seq<char>,
) -> Seq<BuildStepView> {
    plan_from(instructions, distro, rootfs, false)
}

fn wsl(args: Vec<String>) -> (out: HostCommand)
    ensures
        out@ == wsl_command(string_views(args@)),
{
    HostCommand { program: owned("wsl.exe"), args }
}

fn make_run_step(distro: &str, words: &Vec<String>) -> (out: BuildStep)
    ensures
        out@ == run_step(distro@, string_views(words@)),
{
    let mut args: Vec<String> = Vec::new();
    args.push(owned("-d"));
    args.push(owned(distro));
    args.push(owned("-u"));
    args.push(owned("root"));
    args.push(owned("--"));
    args.push(owned("sh"));
    args.push(owned("-c"));
    args.push(join(words, " "));
    proof {
        assert(string_views(args@) =~= seq![
            "-d"@,
            distro@,
            "-u"@,
            "root"@,
            "--"@,
            "sh"@,
            "-c"@,
            joined(string_views(words@), " "@),
        ]);
    }
    BuildStep::Command { kind: StepKind::Run, command: wsl(args) }
}

fn make_mkdir_step(distro: &str, path: String) -> (out: BuildStep)
    ensures
        out@ == mkdir_step(distro@, path@),
{
    let mut args: Vec<String> = Vec::new();
    args.push(owned("-d"));
    args.push(owned(distro));
    args.push(owned("--"));
    args.push(owned("mkdir"));
    args.push(owned("-p"));
    args.push(path);
    proof {
        assert(string_views(args@) =~= seq!["-d"@, distro@, "--"@, "mkdir"@, "-p"@, path@]);
    }
    BuildStep::Command { kind: StepKind::Prepare, command: wsl(args) }
}

fn make_env_step(distro: &str, rootfs: &str, key: &str, value: &str) -> (out: BuildStep)
    ensures
        out@ == env_step(distro@, rootfs@, key@, value@),
{
    let mut script = owned("echo '");
    script.append(key);
    script.append("=");
    script.append(value);
    script.append("' >> ");
    script.append(rootfs);
    script.append("/etc/environment");
    let mut args: Vec<String> = Vec::new();
    args.push(owned("-d"));
    args.push(owned(distro));
    args.push(owned("--"));
    args.push(owned("sh"));
    args.push(owned("-c"));
    args.push(script);
    proof {
        assert(string_views(args@) =~= seq!["-d"@, distro@, "--"@, "sh"@, "-c"@, script@]);
    }
    BuildStep::Command { kind: StepKind::Prepare, command: wsl(args) }
}

fn make_pack_step(distro: &str, rootfs: &str) -> (out: BuildStep)
    ensures
        out@ == pack_step(distro@, rootfs@),
{
    let v = to_chars(rootfs);
    let parent = match rsplit_once(&v, '/') {
        Some((dir, _)) => from_chars(&dir),
        None => owned("."),
    };
    let archive = concat2(parent.as_str(), "/layer.tar");
    let mut args: Vec<String> = Vec::new();
    args.push(owned("-d"));
    args.push(owned(distro));
    args.push(owned("--"));
    args.push(owned("tar"));
    args.push(owned("-czf"));
    args.push(archive);
    args.push(owned("-C"));
    args.push(owned(rootfs));
    args.push(owned("."));
    proof {
        assert(string_views(args@) =~= seq![
            "-d"@,
            distro@,
            "--"@,
            "tar"@,
            "-czf"@,
            parent_of(rootfs@) + "/layer.tar"@,
            "-C"@,
            rootfs@,
            "."@,
        ]);
    }
    BuildStep::Command { kind: StepKind::Pack, command: wsl(args) }
}

/// Plans the build of `ctx` in the guest directory `wsl_rootfs`.
pub fn plan_build(ctx: &BuildContext, wsl_rootfs: &str) -> (plan: Vec<BuildStep>)
    ensures
        step_views(plan@) == build_plan(
            instruction_views(ctx.instructions@),
            ctx.distro@,
            wsl_rootfs@,
        ),
{
    let ghost all = instruction_views(ctx.instructions@);
    let ghost distro = ctx.distro@;
    let ghost rootfs = wsl_rootfs@;
    let mut plan: Vec<BuildStep> = Vec::new();
    let mut has_base = false;
    let mut i: usize = 0;
    proof {
        assert(all.skip(0) =~= all);
        assert(step_views(plan@) + plan_from(all, distro, rootfs, false) =~= plan_from(
            all,
            distro,
            rootfs,
            false,
        ));
    }
    while i < ctx.instructions.len()
        invariant
            i <= ctx.instructions.len(),
            all == instruction_views(ctx.instructions@),
            distro == ctx.distro@,
            rootfs == wsl_rootfs@,
            build_plan(all, distro, rootfs) == step_views(plan@) + plan_from(
                all.skip(i as int),
                distro,
                rootfs,
                has_base,
            ),
        decreases ctx.instructions.len() - i,
    {
        let ghost before = step_views(plan@);
        let ghost rest = all.skip(i as int);
        let ghost tail = plan_from(
            rest.skip(1),
            distro,
            rootfs,
            has_base || rest[0] is From,
        );
        proof {
            assert(rest[0] == ctx.instructions[i as int]@);
            assert(rest.skip(1) =~= all.skip(i + 1));
        }
        match &ctx.instructions[i] {
            Instruction::From { .. } => {
                has_base = true;
            },
            Instruction::Run(words) => {
                if !has_base {
                    plan.push(BuildStep::Fail(BuildError::RunBeforeFrom));
                    proof {
                        assert(step_views(plan@) =~= before + seq![
                            BuildStepView::Fail(BuildError::RunBeforeFrom),
                        ]);
                    }
                    return plan;
                }
                let step = make_run_step(ctx.distro.as_str(), words);
                plan.push(step);
                proof {
                    assert(step_views(plan@) =~= before.push(step@));
                    assert(before + (seq![step@] + tail) =~= before.push(step@) + tail);
                }
            },
            Instruction::Copy { src, dest } => {
                let target = concat2(wsl_rootfs, dest.as_str());
                let first = make_mkdir_step(ctx.distro.as_str(), target.clone());
                let second = BuildStep::Copy { source: src.clone(), dest: target };
                plan.push(first);
                plan.push(second);
                proof {
                    assert(step_views(plan@) =~= before.push(first@).push(second@));
                    assert(before + (seq![first@, second@] + tail) =~= before.push(first@).push(
                        second@,
                    ) + tail);
                }
            },
            Instruction::Workdir(dir) => {
                let step = make_mkdir_step(ctx.distro.as_str(), concat2(wsl_rootfs, dir.as_str()));
                plan.push(step);
                proof {
                    assert(step_views(plan@) =~= before.push(step@));
                    assert(before + (seq![step@] + tail) =~= before.push(step@) + tail);
                }
            },
            Instruction::Env { key, value } => {
                let step = make_env_step(
                    ctx.distro.as_str(),
                    wsl_rootfs,
                    key.as_str(),
                    value.as_str(),
                );
                plan.push(step);
                proof {
                    assert(step_views(plan@) =~= before.push(step@));
                    assert(before + (seq![step@] + tail) =~= before.push(step@) + tail);
                }
            },
            _ => {},
        }
        i += 1;
    }
    let last = make_pack_step(ctx.distro.as_str(), wsl_rootfs);
    proof {
        assert(all.skip(ctx.instructions.len() as int) =~= Seq::<InstructionView>::empty());
    }
    let ghost before = step_views(plan@);
    plan.push(last);
    proof {
        assert(step_views(plan@) =~= before + seq![last@]);
    }
    plan
}

/// `wsl.exe -d <distro> -- cp -r <source in the guest> <dest>`, where the
/// source is `host_source` translated by the drive rule.
pub open spec fn copy_command_of(
    distro: Seq<char>,
    host_source: Seq<char>,
    dest: Seq<char>,
) -> CommandView {
    wsl_command(seq!["-d"@, distro, "--"@, "cp"@, "-r"@, mounted_path(host_source), dest])
}

/// The command of a [`BuildStep::Copy`], once the host has joined the
/// step's source to the context directory: `host_source` is that path.
pub fn copy_command(distro: &str, host_source: &str, dest: &str) -> (out: HostCommand)
    ensures
        out@ == copy_command_of(distro@, host_source@, dest@),
{
    let mut args: Vec<String> = Vec::new();
    args.push(owned("-d"));
    args.push(owned(distro));
    args.push(owned("--"));
    args.push(owned("cp"));
    args.push(owned("-r"));
    args.push(to_mounted_path(host_source));
    args.push(owned(dest));
    proof {
        assert(string_views(args@) =~= seq![
            "-d"@,
            distro@,
            "--"@,
            "cp"@,
            "-r"@,
            mounted_path(host_source@),
            dest@,
        ]);
    }
    wsl(args)
}

/// Why a build stops after a step of the given kind ended as it did, if it
/// stops at all.
pub open spec fn failure_of(kind: StepKind, outcome: CommandOutcome) -> Option<StepFailure> {
    match (kind, outcome) {
        (StepKind::Run, CommandOutcome::NotStarted) => Some(StepFailure::RunNotStarted),
        (StepKind::Run, CommandOutcome::Failed) => Some(StepFailure::RunFailed),
        (StepKind::Pack, CommandOutcome::NotStarted) => Some(StepFailure::PackNotStarted),
        (StepKind::Pack, CommandOutcome::Failed) => Some(StepFailure::PackFailed),
        _ => None,
    }
}

/// Why a build stops at a step that was run.
#[derive(Debug, Clone, Copy, PartialEq, Eq, Structural)]
pub enum StepFailure {
    RunNotStarted,
    RunFailed,
    PackNotStarted,
    PackFailed,
}

impl StepFailure {
    /// The message of this failure.
    pub fn message(&self) -> (out: String)
        ensures
            out@ == match *self {
                StepFailure::RunNotStarted => "Failed to execute RUN command in WSL"@,
                StepFailure::RunFailed => "RUN command failed"@,
                StepFailure::PackNotStarted => "Failed to tar the build rootfs"@,
                StepFailure::PackFailed => "Failed to create layer tarball"@,
            },
    {
        match self {
            StepFailure::RunNotStarted => owned("Failed to execute RUN command in WSL"),
            StepFailure::RunFailed => owned("RUN command failed"),
            StepFailure::PackNotStarted => owned("Failed to tar the build rootfs"),
            StepFailure::PackFailed => owned("Failed to create layer tarball"),
        }
    }
}

/// Decides whether the build goes on after a step of the given kind.
pub fn after_step(kind: StepKind, outcome: CommandOutcome) -> (r: Option<StepFailure>)
    ensures
        r == failure_of(kind, outcome),
{
    match kind {
        StepKind::Run => match outcome {
            CommandOutcome::NotStarted => Some(StepFailure::RunNotStarted),
            CommandOutcome::Failed => Some(StepFailure::RunFailed),
            CommandOutcome::Succeeded => None,
        },
        StepKind::Pack => match outcome {
            CommandOutcome::NotStarted => Some(StepFailure::PackNotStarted),
            CommandOutcome::Failed => Some(StepFailure::PackFailed),
            CommandOutcome::Succeeded => None,
        },
        StepKind::Prepare => None,
    }
}

} // verus!
