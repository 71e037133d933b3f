//! The command model: one owned tagged union per issued command, and its
//! deterministic translation into the argument vector handed to the remote
//! executor.  The translation is a pure function of the command's content;
//! the vector never includes the executable name or a privilege-elevation
//! token, which the executor prepends itself.

use vstd::prelude::*;

use crate::flags::{
    bool_flag, list_flag, normalized, opt_flag, spec_exec_flags, ExecFlags, ImagesFlags, LogsFlags,
    PsFlags, RmFlags,
};
use crate::text::push_token;

verus! {

/// Grouping of the system-maintenance sub-commands.
#[derive(Debug)]
pub struct System {
    pub command: SystemCommand,
}

/// The system-maintenance sub-commands, broadcast to every node.
#[derive(Debug)]
pub enum SystemCommand {
    /// Disk usage.
    Df { format: Option<String>, verbose: bool },
    /// Event stream.
    Events {
        filter: Option<String>,
        format: Option<String>,
        since: Option<String>,
        until: Option<String>,
    },
    /// System-wide information.
    Info { format: Option<String> },
    /// Removal of unused data.
    Prune { all: bool, filter: Option<String>, force: bool, volumes: bool },
}

/// One issued command with the structured parameters the caller supplied.
/// Exactly one variant is active; absent optional fields are `None`, never an
/// empty string.
#[derive(Debug)]
#[allow(inconsistent_fields)]
pub enum InternalCommand {
    /// Run a command inside one container; single-target.
    Exec {
        container_id: String,
        command: Vec<String>,
        detach: bool,
        detach_keys: Option<String>,
        env: Option<Vec<String>>,
        env_file: Option<Vec<String>>,
        interactive: bool,
        privileged: bool,
        user: Option<String>,
        workdir: Option<String>,
    },
    /// List images; broadcast.
    Images {
        all: bool,
        digest: bool,
        filter: Option<String>,
        format: Option<String>,
        no_trunc: bool,
        quiet: bool,
    },
    /// Fetch the logs of one container; single-target.
    Logs {
        container_id: String,
        details: bool,
        follow: bool,
        since: Option<String>,
        tail: Option<String>,
        timestamps: bool,
        until: Option<String>,
    },
    /// List containers; broadcast.
    Ps {
        all: bool,
        filter: Option<String>,
        format: Option<String>,
        last: bool,
        latests: bool,
        no_trunc: bool,
        quiet: bool,
        size: bool,
    },
    /// Restart one or more containers; multi-target.
    Restart { time: Option<String>, container_id: Vec<String> },
    /// Remove one or more containers; multi-target.
    Rm { container_id: Vec<String>, force: bool, volumes: bool },
    /// Start one or more containers; multi-target.
    Start { attach: bool, container_id: Vec<String> },
    /// Stop one container; single-target.
    Stop { container_id: String },
    /// System maintenance; broadcast.
    System(System),
}

/// The items of a list-valued optional field, empty when absent.
pub open spec fn opt_items(v: Option<Vec<String>>) -> Seq<Seq<char>> {
    match v {
        Some(e) => e.deep_view(),
        None => Seq::empty(),
    }
}

/// Content equality on optional scalar fields.
pub open spec fn opt_eq(a: Option<String>, b: Option<String>) -> bool {
    match (a, b) {
        (Option::Some(x), Option::Some(y)) => x@ == y@,
        (Option::None, Option::None) => true,
        _ => false,
    }
}

/// Content equality on optional list fields.
pub open spec fn opt_list_eq(a: Option<Vec<String>>, b: Option<Vec<String>>) -> bool {
    match (a, b) {
        (Option::Some(x), Option::Some(y)) => x.deep_view() == y.deep_view(),
        (Option::None, Option::None) => true,
        _ => false,
    }
}

/// Content equality on system sub-commands.
pub open spec fn system_equiv(a: SystemCommand, b: SystemCommand) -> bool {
    match (a, b) {
        (
            SystemCommand::Df { format: fo0, verbose: v0 },
            SystemCommand::Df { format: fo1, verbose: v1 },
        ) => opt_eq(fo0, fo1) && v0 == v1,
        (
            SystemCommand::Events { filter: fi0, format: fo0, since: s0, until: u0 },
            SystemCommand::Events { filter: fi1, format: fo1, since: s1, until: u1 },
        ) => opt_eq(fi0, fi1) && opt_eq(fo0, fo1) && opt_eq(s0, s1) && opt_eq(u0, u1),
        (SystemCommand::Info { format: fo0 }, SystemCommand::Info { format: fo1 }) => opt_eq(
            fo0,
            fo1,
        ),
        (
            SystemCommand::Prune { all: a0, filter: fi0, force: f0, volumes: v0 },
            SystemCommand::Prune { all: a1, filter: fi1, force: f1, volumes: v1 },
        ) => a0 == a1 && opt_eq(fi0, fi1) && f0 == f1 && v0 == v1,
        _ => false,
    }
}

/// Content equality on commands: identical variant and identical structured
/// input, comparing strings and lists by their character sequences.
pub open spec fn cmd_equiv(a: InternalCommand, b: InternalCommand) -> bool {
    match (a, b) {
        (
            InternalCommand::Exec {
                container_id: c0,
                command: m0,
                detach: d0,
                detach_keys: k0,
                env: e0,
                env_file: ef0,
                interactive: i0,
                privileged: p0,
                user: us0,
                workdir: w0,
            },
            InternalCommand::Exec {
                container_id: c1,
                command: m1,
                detach: d1,
                detach_keys: k1,
                env: e1,
                env_file: ef1,
                interactive: i1,
                privileged: p1,
                user: us1,
                workdir: w1,
            },
        ) => c0@ == c1@ && m0.deep_view() == m1.deep_view() && d0 == d1 && opt_eq(k0, k1)
            && opt_list_eq(e0, e1) && opt_list_eq(ef0, ef1) && i0 == i1 && p0 == p1 && opt_eq(
            us0,
            us1,
        ) && opt_eq(w0, w1),
        (
            InternalCommand::Images { all: a0, digest: d0, filter: fi0, format: fo0, no_trunc: n0, quiet: q0 },
            InternalCommand::Images { all: a1, digest: d1, filter: fi1, format: fo1, no_trunc: n1, quiet: q1 },
        ) => a0 == a1 && d0 == d1 && opt_eq(fi0, fi1) && opt_eq(fo0, fo1) && n0 == n1 && q0 == q1,
        (
            InternalCommand::Logs {
                container_id: c0,
                details: d0,
                follow: f0,
                since: s0,
                tail: t0,
                timestamps: ts0,
                until: u0,
            },
            InternalCommand::Logs {
                container_id: c1,
                details: d1,
                follow: f1,
                since: s1,
                tail: t1,
                timestamps: ts1,
                until: u1,
            },
        ) => c0@ == c1@ && d0 == d1 && f0 == f1 && opt_eq(s0, s1) && opt_eq(t0, t1) && ts0 == ts1
            && opt_eq(u0, u1),
        (
            InternalCommand::Ps {
                all: a0,
                filter: fi0,
                format: fo0,
                last: l0,
                latests: la0,
                no_trunc: n0,
                quiet: q0,
                size: s0,
            },
            InternalCommand::Ps {
                all: a1,
                filter: fi1,
                format: fo1,
                last: l1,
                latests: la1,
                no_trunc: n1,
                quiet: q1,
                size: s1,
            },
        ) => a0 == a1 && opt_eq(fi0, fi1) && opt_eq(fo0, fo1) && l0 == l1 && la0 == la1 && n0 == n1
            && q0 == q1 && s0 == s1,
        (
            InternalCommand::Restart { time: t0, container_id: c0 },
            InternalCommand::Restart { time: t1, container_id: c1 },
        ) => opt_eq(t0, t1) && c0.deep_view() == c1.deep_view(),
        (
            InternalCommand::Rm { container_id: c0, force: f0, volumes: v0 },
            InternalCommand::Rm { container_id: c1, force: f1, volumes: v1 },
        ) => c0.deep_view() == c1.deep_view() && f0 == f1 && v0 == v1,
        (
            InternalCommand::Start { attach: a0, container_id: c0 },
            InternalCommand::Start { attach: a1, container_id: c1 },
        ) => a0 == a1 && c0.deep_view() == c1.deep_view(),
        (
            InternalCommand::Stop { container_id: c0 },
            InternalCommand::Stop { container_id: c1 },
        ) => c0@ == c1@,
        (InternalCommand::System(s0), InternalCommand::System(s1)) => system_equiv(
            s0.command,
            s1.command,
        ),
        _ => false,
    }
}

/// Rendered flags of an `Exec` command, from its raw optional fields.
pub open spec fn spec_exec_flag_args(
    detach: bool,
    detach_keys: Option<String>,
    env: Option<Vec<String>>,
    env_file: Option<Vec<String>>,
    interactive: bool,
    privileged: bool,
    user: Option<String>,
    workdir: Option<String>,
) -> Seq<Seq<char>> {
    bool_flag("-d"@, detach) + bool_flag("-i"@, interactive) + bool_flag(
        "--privileged"@,
        privileged,
    ) + opt_flag("--detach-keys"@, normalized(detach_keys)) + list_flag("-e"@, opt_items(env))
        + list_flag("--env-file"@, opt_items(env_file)) + opt_flag("--user"@, normalized(user))
        + opt_flag("--workdir"@, normalized(workdir))
}

/// Rendered flags of a `Logs` command, from its raw optional fields;
/// `follow` is rendered by the translator itself.
pub open spec fn spec_logs_flag_args(
    details: bool,
    since: Option<String>,
    tail: Option<String>,
    timestamps: bool,
    until: Option<String>,
) -> Seq<Seq<char>> {
    bool_flag("-d"@, details) + opt_flag("--since"@, normalized(since)) + opt_flag(
        "--tail"@,
        normalized(tail),
    ) + bool_flag("--timestamps"@, timestamps) + opt_flag("--until"@, normalized(until))
}

/// Rendered flags of an `Images` command, from its raw optional fields.
pub open spec fn spec_images_flag_args(
    all: bool,
    digest: bool,
    filter: Option<String>,
    format: Option<String>,
    no_trunc: bool,
    quiet: bool,
) -> Seq<Seq<char>> {
    bool_flag("-"@, all) + bool_flag("--digest"@, digest) + opt_flag(
        "--filter"@,
        normalized(filter),
    ) + opt_flag("--format"@, normalized(format)) + bool_flag("--no-trunc"@, no_trunc) + bool_flag(
        "--quiet"@,
        quiet,
    )
}

/// Rendered flags of a `Ps` command, from its raw optional fields.
pub open spec fn spec_ps_flag_args(
    all: bool,
    filter: Option<String>,
    format: Option<String>,
    last: bool,
    latests: bool,
    no_trunc: bool,
    quiet: bool,
    size: bool,
) -> Seq<Seq<char>> {
    bool_flag("-a"@, all) + opt_flag("--filter"@, normalized(filter)) + opt_flag(
        "--format"@,
        normalized(format),
    ) + bool_flag("--last"@, last) + bool_flag("--latests"@, latests) + bool_flag(
        "--no_trunc"@,
        no_trunc,
    ) + bool_flag("--quiet"@, quiet) + bool_flag("--size"@, size)
}

/// Rendered argument vector of a system sub-command.
pub open spec fn spec_system_args(sc: SystemCommand) -> Seq<Seq<char>> {
    match sc {
        SystemCommand::Df { format, verbose } => seq!["df"@] + opt_flag("--format"@, format)
            + bool_flag("-v"@, verbose),
        SystemCommand::Events { filter, format, since, until } => seq!["events"@] + opt_flag(
            "--filter"@,
            filter,
        ) + opt_flag("--format"@, format) + opt_flag("--since"@, since) + opt_flag(
            "--until"@,
            until,
        ),
        SystemCommand::Info { format } => seq!["info"@] + opt_flag("--format"@, format),
        SystemCommand::Prune { all, filter, force, volumes } => seq!["prune"@] + bool_flag(
            "--all"@,
            all,
        ) + opt_flag("--filter"@, filter) + bool_flag("--force"@, force) + bool_flag(
            "--volumes"@,
            volumes,
        ),
    }
}

/// The complete rendered argument vector of a command: sub-command word,
/// flags in their fixed order, target ids, and for `Exec` the body arguments
/// last, verbatim and in input order.
pub open spec fn spec_command_args(cmd: InternalCommand) -> Seq<Seq<char>> {
    match cmd {
        InternalCommand::Exec {
            container_id,
            command,
            detach,
            detach_keys,
            env,
            env_file,
            interactive,
            privileged,
            user,
            workdir,
        } => seq!["exec"@] + spec_exec_flag_args(
            detach,
            detach_keys,
            env,
            env_file,
            interactive,
            privileged,
            user,
            workdir,
        ) + seq![container_id@] + command.deep_view(),
        InternalCommand::Images { all, digest, filter, format, no_trunc, quiet } => seq!["images"@]
            + spec_images_flag_args(all, digest, filter, format, no_trunc, quiet),
        InternalCommand::Logs { container_id, details, follow, since, tail, timestamps, until } =>
            seq!["logs"@] + spec_logs_flag_args(details, since, tail, timestamps, until)
            + bool_flag("-f"@, follow) + seq![container_id@],
        InternalCommand::Ps { all, filter, format, last, latests, no_trunc, quiet, size } => seq![
            "ps"@,
        ] + spec_ps_flag_args(all, filter, format, last, latests, no_trunc, quiet, size),
        InternalCommand::Restart { time, container_id } => seq!["restart"@]
            + container_id.deep_view() + seq!["--time"@] + (match time {
            Option::Some(t) => seq![t@],
            Option::None => seq!["10"@],
        }),
        InternalCommand::Rm { container_id, force, volumes } => seq!["rm"@]
            + container_id.deep_view() + bool_flag("-f"@, force) + bool_flag("-v"@, volumes),
        InternalCommand::Start { attach, container_id } => seq!["start"@]
            + container_id.deep_view() + bool_flag("-a"@, attach),
        InternalCommand::Stop { container_id } => seq!["stop"@, container_id@],
        InternalCommand::System(s) => seq!["system"@] + spec_system_args(s.command),
    }
}

/// How a call must be executed: to completion with captured output, or
/// spawned as an unbounded stream that never reaches aggregation.
#[derive(PartialEq, Eq, Structural)]
pub enum ExecutionMode {
    Captured,
    Streaming,
}

/// Streaming is requested exactly by an interactive execution or a followed
/// log fetch.
pub open spec fn spec_execution_mode(cmd: InternalCommand) -> ExecutionMode {
    match cmd {
        InternalCommand::Exec { interactive, .. } => if interactive {
            ExecutionMode::Streaming
        } else {
            ExecutionMode::Captured
        },
        InternalCommand::Logs { follow, .. } => if follow {
            ExecutionMode::Streaming
        } else {
            ExecutionMode::Captured
        },
        _ => ExecutionMode::Captured,
    }
}

/// Whether the command's captured result text is taken from the standard
/// error stream regardless of the exit status: true exactly for log
/// fetching, whose remote tool writes the logs there.
pub open spec fn spec_reads_stderr(cmd: InternalCommand) -> bool {
    cmd matches InternalCommand::Logs { .. }
}

/// Appends the elements of an owned vector.
fn append_args(v: &mut Vec<String>, other: Vec<String>)
    ensures
        final(v).deep_view() == old(v).deep_view() + other.deep_view(),
{
    let mut other = other;
    let ghost o = other.deep_view();
    v.append(&mut other);
    proof {
        assert(v.deep_view() =~= old(v).deep_view() + o);
    }
}

/// Appends a copy of every element of `items`, in order.
fn push_all(v: &mut Vec<String>, items: &Vec<String>)
    ensures
        final(v).deep_view() == old(v).deep_view() + items.deep_view(),
{
    let ghost deep = items.deep_view();
    let mut i: usize = 0;
    while i < items.len()
        invariant
            i <= items@.len(),
            deep == items.deep_view(),
            v.deep_view() == old(v).deep_view() + deep.take(i as int),
        decreases items@.len() - i,
    {
        push_token(v, items[i].as_str());
        proof {
            assert(old(v).deep_view() + deep.take(i + 1) =~= (old(v).deep_view() + deep.take(
                i as int,
            )).push(deep[i as int]));
        }
        i = i + 1;
    }
    proof {
        assert(deep.take(items@.len() as int) =~= deep);
    }
}

/// Copies an optional scalar field.
pub(crate) fn clone_opt(v: &Option<String>) -> (r: Option<String>)
    ensures
        r == *v,
{
    match v {
        Some(s) => Some(s.clone()),
        None => None,
    }
}

/// Copies an optional list field.
pub(crate) fn clone_opt_list(v: &Option<Vec<String>>) -> (r: Option<Vec<String>>)
    ensures
        opt_list_eq(r, *v),
        r is Some <==> *v is Some,
{
    match v {
        Some(e) => {
            let c = e.clone();
            proof {
                assert(c@ =~= e@);
                assert(c.deep_view() =~= e.deep_view());
            }
            Some(c)
        },
        None => None,
    }
}

/// Copies a list of strings.
pub fn clone_strings(v: &Vec<String>) -> (r: Vec<String>)
    ensures
        r.deep_view() == v.deep_view(),
        r@.len() == v@.len(),
{
    let c = v.clone();
    proof {
        assert(c@ =~= v@);
        assert(c.deep_view() =~= v.deep_view());
    }
    c
}

impl Clone for SystemCommand {
    fn clone(&self) -> (r: Self)
        ensures
            r == *self,
    {
        match self {
            SystemCommand::Df { format, verbose } => SystemCommand::Df {
                format: clone_opt(format),
                verbose: *verbose,
            },
            SystemCommand::Events { filter, format, since, until } => SystemCommand::Events {
                filter: clone_opt(filter),
                format: clone_opt(format),
                since: clone_opt(since),
                until: clone_opt(until),
            },
            SystemCommand::Info { format } => SystemCommand::Info { format: clone_opt(format) },
            SystemCommand::Prune { all, filter, force, volumes } => SystemCommand::Prune {
                all: *all,
                filter: clone_opt(filter),
                force: *force,
                volumes: *volumes,
            },
        }
    }
}

impl Clone for System {
    fn clone(&self) -> (r: Self)
        ensures
            r == *self,
    {
        System { command: self.command.clone() }
    }
}

impl Clone for InternalCommand {
    /// A copy with identical content; the copy's lists are fresh vectors, so
    /// the relation is content equality, not value identity.
    fn clone(&self) -> (r: Self)
        ensures
            cmd_equiv(*self, r),
    {
        match self {
            InternalCommand::Exec {
                container_id,
                command,
                detach,
                detach_keys,
                env,
                env_file,
                interactive,
                privileged,
                user,
                workdir,
            } => InternalCommand::Exec {
                container_id: container_id.clone(),
                command: clone_strings(command),
                detach: *detach,
                detach_keys: clone_opt(detach_keys),
                env: clone_opt_list(env),
                env_file: clone_opt_list(env_file),
                interactive: *interactive,
                privileged: *privileged,
                user: clone_opt(user),
                workdir: clone_opt(workdir),
            },
            InternalCommand::Images { all, digest, filter, format, no_trunc, quiet } =>
                InternalCommand::Images {
                all: *all,
                digest: *digest,
                filter: clone_opt(filter),
                format: clone_opt(format),
                no_trunc: *no_trunc,
                quiet: *quiet,
            },
            InternalCommand::Logs {
                container_id,
                details,
                follow,
                since,
                tail,
                timestamps,
                until,
            } => InternalCommand::Logs {
                container_id: container_id.clone(),
                details: *details,
                follow: *follow,
                since: clone_opt(since),
                tail: clone_opt(tail),
                timestamps: *timestamps,
                until: clone_opt(until),
            },
            InternalCommand::Ps { all, filter, format, last, latests, no_trunc, quiet, size } =>
                InternalCommand::Ps {
                all: *all,
                filter: clone_opt(filter),
                format: clone_opt(format),
                last: *last,
                latests: *latests,
                no_trunc: *no_trunc,
                quiet: *quiet,
                size: *size,
            },
            InternalCommand::Restart { time, container_id } => InternalCommand::Restart {
                time: clone_opt(time),
                container_id: clone_strings(container_id),
            },
            InternalCommand::Rm { container_id, force, volumes } => InternalCommand::Rm {
                container_id: clone_strings(container_id),
                force: *force,
                volumes: *volumes,
            },
            InternalCommand::Start { attach, container_id } => InternalCommand::Start {
                attach: *attach,
                container_id: clone_strings(container_id),
            },
            InternalCommand::Stop { container_id } => InternalCommand::Stop {
                container_id: container_id.clone(),
            },
            InternalCommand::System(s) => InternalCommand::System(s.clone()),
        }
    }
}

impl InternalCommand {
    /// The execution mode the remote executor must select for this command.
    pub fn execution_mode(&self) -> (m: ExecutionMode)
        ensures
            m == spec_execution_mode(*self),
    {
        match self {
            InternalCommand::Exec { interactive, .. } => if *interactive {
                ExecutionMode::Streaming
            } else {
                ExecutionMode::Captured
            },
            InternalCommand::Logs { follow, .. } => if *follow {
                ExecutionMode::Streaming
            } else {
                ExecutionMode::Captured
            },
            _ => ExecutionMode::Captured,
        }
    }

    /// Whether the captured result text must be taken from standard error
    /// regardless of the exit status.
    pub fn reads_stderr(&self) -> (b: bool)
        ensures
            b == spec_reads_stderr(*self),
    {
        match self {
            InternalCommand::Logs { .. } => true,
            _ => false,
        }
    }
}

/// Renders the command's argument vector.  Deterministic and
/// order-preserving: identical content always renders to the identical
/// vector.
pub fn command_args(cmd: &InternalCommand) -> (v: Vec<String>)
    ensures
        v.deep_view() == spec_command_args(*cmd),
{
    let mut v: Vec<String> = Vec::new();
    match cmd {
        InternalCommand::Exec {
            container_id,
            command,
            detach,
            detach_keys,
            env,
            env_file,
            interactive,
            privileged,
            user,
            workdir,
        } => {
            let flags = ExecFlags::new(
                *detach,
                clone_opt(detach_keys),
                clone_opt_list(env),
                clone_opt_list(env_file),
                *interactive,
                *privileged,
                clone_opt(user),
                clone_opt(workdir),
            );
            push_token(&mut v, "exec");
            append_args(&mut v, flags.flags());
            push_token(&mut v, container_id.as_str());
            push_all(&mut v, command);
            proof {
                assert(spec_exec_flags(flags) == spec_exec_flag_args(
                    *detach,
                    *detach_keys,
                    *env,
                    *env_file,
                    *interactive,
                    *privileged,
                    *user,
                    *workdir,
                ));
                assert(v.deep_view() =~= spec_command_args(*cmd));
            }
        },
        InternalCommand::Images { all, digest, filter, format, no_trunc, quiet } => {
            let flags = ImagesFlags::new(
                *all,
                *digest,
                clone_opt(filter),
                clone_opt(format),
                *no_trunc,
                *quiet,
            );
            push_token(&mut v, "images");
            append_args(&mut v, flags.flags());
            proof {
                assert(v.deep_view() =~= spec_command_args(*cmd));
            }
        },
        InternalCommand::Logs { container_id, details, follow, since, tail, timestamps, until } => {
            let flags = LogsFlags::new(
                *details,
                *follow,
                clone_opt(since),
                clone_opt(tail),
                *timestamps,
                clone_opt(until),
            );
            push_token(&mut v, "logs");
            append_args(&mut v, flags.flags());
            if *follow {
                push_token(&mut v, "-f");
            }
            push_token(&mut v, container_id.as_str());
            proof {
                assert(v.deep_view() =~= spec_command_args(*cmd));
            }
        },
        InternalCommand::Ps { all, filter, format, last, latests, no_trunc, quiet, size } => {
            let flags = PsFlags::new(
                *all,
                clone_opt(filter),
                clone_opt(format),
                *last,
                *latests,
                *no_trunc,
                *quiet,
                *size,
            );
            push_token(&mut v, "ps");
            append_args(&mut v, flags.flags());
            proof {
                assert(v.deep_view() =~= spec_command_args(*cmd));
            }
        },
        InternalCommand::Restart { time, container_id } => {
            push_token(&mut v, "restart");
            push_all(&mut v, container_id);
            push_token(&mut v, "--time");
            match time {
                Some(t) => push_token(&mut v, t.as_str()),
                None => push_token(&mut v, "10"),
            }
            proof {
                assert(v.deep_view() =~= spec_command_args(*cmd));
            }
        },
        InternalCommand::Rm { container_id, force, volumes } => {
            let flags = RmFlags::new(*force, *volumes);
            push_token(&mut v, "rm");
            push_all(&mut v, container_id);
            append_args(&mut v, flags.flags());
            proof {
                assert(v.deep_view() =~= spec_command_args(*cmd));
            }
        },
        InternalCommand::Start { attach, container_id } => {
            push_token(&mut v, "start");
            push_all(&mut v, container_id);
            if *attach {
                push_token(&mut v, "-a");
            }
            proof {
                assert(v.deep_view() =~= spec_command_args(*cmd));
            }
        },
        InternalCommand::Stop { container_id } => {
            push_token(&mut v, "stop");
            push_token(&mut v, container_id.as_str());
            proof {
                assert(v.deep_view() =~= spec_command_args(*cmd));
            }
        },
        InternalCommand::System(s) => {
            push_token(&mut v, "system");
            match &s.command {
                SystemCommand::Df { format, verbose } => {
                    push_token(&mut v, "df");
                    push_opt_pair(&mut v, "--format", format);
                    if *verbose {
                        push_token(&mut v, "-v");
                    }
                },
                SystemCommand::Events { filter, format, since, until } => {
                    push_token(&mut v, "events");
                    push_opt_pair(&mut v, "--filter", filter);
                    push_opt_pair(&mut v, "--format", format);
                    push_opt_pair(&mut v, "--since", since);
                    push_opt_pair(&mut v, "--until", until);
                },
                SystemCommand::Info { format } => {
                    push_token(&mut v, "info");
                    push_opt_pair(&mut v, "--format", format);
                },
                SystemCommand::Prune { all, filter, force, volumes } => {
                    push_token(&mut v, "prune");
                    if *all {
                        push_token(&mut v, "--all");
                    }
                    push_opt_pair(&mut v, "--filter", filter);
                    if *force {
                        push_token(&mut v, "--force");
                    }
                    if *volumes {
                        push_token(&mut v, "--volumes");
                    }
                },
            }
            proof {
                assert(v.deep_view() =~= spec_command_args(*cmd));
            }
        },
    }
    v
}

/// Appends a flag token and value for a present optional field, nothing for
/// an absent one.
fn push_opt_pair(v: &mut Vec<String>, tok: &str, val: &Option<String>)
    ensures
        final(v).deep_view() == old(v).deep_view() + opt_flag(tok@, *val),
{
    match val {
        Some(s) => {
            push_token(v, tok);
            push_token(v, s.as_str());
            proof {
                assert(v.deep_view() =~= old(v).deep_view() + opt_flag(tok@, *val));
            }
        },
        None => {
            proof {
                assert(v.deep_view() =~= old(v).deep_view() + opt_flag(tok@, *val));
            }
        },
    }
}

/// The captured result text of one remote call: the originating node's
/// address, a newline, then the selected stream — standard error when the
/// command always reads it or the exit status was non-zero, standard output
/// otherwise.
pub open spec fn spec_captured_text(
    hostname: Seq<char>,
    exit_zero: bool,
    stdout: Seq<char>,
    stderr: Seq<char>,
    always_stderr: bool,
) -> Seq<char> {
    hostname + "\n"@ + (if always_stderr {
        stderr
    } else if exit_zero {
        stdout
    } else {
        stderr
    })
}

/// Builds the captured result text for one node's completed call.
pub fn captured_text(
    hostname: &str,
    exit_zero: bool,
    stdout: &str,
    stderr: &str,
    always_stderr: bool,
) -> (r: String)
    ensures
        r@ == spec_captured_text(hostname@, exit_zero, stdout@, stderr@, always_stderr),
{
    let mut r = hostname.to_owned();
    r.append("\n");
    if always_stderr {
        r.append(stderr);
    } else if exit_zero {
        r.append(stdout);
    } else {
        r.append(stderr);
    }
    r
}

/// Translation is deterministic: commands with identical structured content
/// render to identical argument vectors, whichever values carry that
/// content.
pub proof fn lemma_translation_deterministic(a: InternalCommand, b: InternalCommand)
    requires
        cmd_equiv(a, b),
    ensures
        spec_command_args(a) == spec_command_args(b),
{
}

} // verus!
