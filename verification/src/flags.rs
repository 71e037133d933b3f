//! Flag structures of the command model and their deterministic rendering
//! into argument vectors.  Every `flags` method is a pure function of the
//! structure: absent optional fields contribute nothing, present ones
//! contribute a fixed flag token followed by the value, boolean flags
//! contribute exactly one fixed token when set, and list-valued flags
//! contribute one flag/value pair per element in input order.

use vstd::prelude::*;

use crate::text::push_token;

verus! {

/// Argument-vector contribution of one boolean flag.
pub open spec fn bool_flag(tok: Seq<char>, set: bool) -> Seq<Seq<char>> {
    if set {
        seq![tok]
    } else {
        Seq::empty()
    }
}

/// Argument-vector contribution of one optional scalar flag.
pub open spec fn opt_flag(tok: Seq<char>, v: Option<String>) -> Seq<Seq<char>> {
    match v {
        Some(s) => seq![tok, s@],
        None => Seq::empty(),
    }
}

/// Argument-vector contribution of a list-valued flag: one token/value pair
/// per element, in input order.
pub open spec fn list_flag(tok: Seq<char>, items: Seq<Seq<char>>) -> Seq<Seq<char>>
    decreases items.len(),
{
    if items.len() == 0 {
        Seq::empty()
    } else {
        list_flag(tok, items.drop_last()) + seq![tok, items.last()]
    }
}

/// An optional value where the empty string means "absent".
pub open spec fn normalized(v: Option<String>) -> Option<String> {
    match v {
        Some(s) => if s@.len() == 0 {
            None
        } else {
            Some(s)
        },
        None => None,
    }
}

/// Turns an empty-string value into an absent one.
fn normalize(v: Option<String>) -> (r: Option<String>)
    ensures
        r == normalized(v),
{
    match v {
        Some(s) => if s.as_str().is_empty() {
            None
        } else {
            Some(s)
        },
        None => None,
    }
}

/// Appends a flag token followed by its value token.
fn push_pair(v: &mut Vec<String>, tok: &str, val: &str)
    ensures
        final(v).deep_view() == old(v).deep_view() + seq![tok@, val@],
{
    push_token(v, tok);
    push_token(v, val);
    proof {
        assert(v.deep_view() =~= old(v).deep_view() + seq![tok@, val@]);
    }
}

/// Appends the rendering of one boolean flag.
fn push_bool(v: &mut Vec<String>, tok: &str, set: bool)
    ensures
        final(v).deep_view() == old(v).deep_view() + bool_flag(tok@, set),
{
    if set {
        push_token(v, tok);
        proof {
            assert(v.deep_view() =~= old(v).deep_view() + bool_flag(tok@, set));
        }
    } else {
        proof {
            assert(v.deep_view() =~= old(v).deep_view() + bool_flag(tok@, set));
        }
    }
}

/// Appends the rendering of one optional scalar flag.
fn push_opt(v: &mut Vec<String>, tok: &str, val: &Option<String>)
    ensures
        final(v).deep_view() == old(v).deep_view() + opt_flag(tok@, *val),
{
    match val {
        Some(s) => {
            push_pair(v, tok, s.as_str());
        },
        None => {
            proof {
                assert(v.deep_view() =~= old(v).deep_view() + opt_flag(tok@, *val));
            }
        },
    }
}

/// Appends one flag/value pair per list element, in input order.
fn push_list(v: &mut Vec<String>, tok: &str, items: &Vec<String>)
    ensures
        final(v).deep_view() == old(v).deep_view() + list_flag(tok@, items.deep_view()),
{
    let ghost deep = items.deep_view();
    let mut i: usize = 0;
    while i < items.len()
        invariant
            i <= items@.len(),
            deep == items.deep_view(),
            v.deep_view() == old(v).deep_view() + list_flag(tok@, deep.take(i as int)),
        decreases items@.len() - i,
    {
        push_pair(v, tok, items[i].as_str());
        proof {
            let now = deep.take(i + 1);
            assert(now.drop_last() =~= deep.take(i as int));
            assert(now.last() == deep[i as int]);
            assert(v.deep_view() =~= old(v).deep_view() + list_flag(tok@, now));
        }
        i = i + 1;
    }
    proof {
        assert(deep.take(items@.len() as int) =~= deep);
    }
}

/// Flags of a log-fetching command.  `follow` is rendered separately by the
/// command translator because it switches the execution mode.
#[derive(Debug)]
pub struct LogsFlags {
    pub details: bool,
    pub follow: bool,
    pub since: Option<String>,
    pub tail: Option<String>,
    pub timestamps: bool,
    pub until: Option<String>,
}

/// The rendered argument vector of a `LogsFlags`.
pub open spec fn spec_logs_flags(f: LogsFlags) -> Seq<Seq<char>> {
    bool_flag("-d"@, f.details) + opt_flag("--since"@, f.since) + opt_flag("--tail"@, f.tail)
        + bool_flag("--timestamps"@, f.timestamps) + opt_flag("--until"@, f.until)
}

impl LogsFlags {
    pub fn new(
        details: bool,
        follow: bool,
        since: Option<String>,
        tail: Option<String>,
        timestamps: bool,
        until: Option<String>,
    ) -> (r: Self)
        ensures
            r.details == details,
            r.follow == follow,
            r.since == normalized(since),
            r.tail == normalized(tail),
            r.timestamps == timestamps,
            r.until == normalized(until),
    {
        Self {
            details,
            follow,
            since: normalize(since),
            tail: normalize(tail),
            timestamps,
            until: normalize(until),
        }
    }

    pub fn flags(&self) -> (v: Vec<String>)
        ensures
            v.deep_view() == spec_logs_flags(*self),
    {
        let mut v: Vec<String> = Vec::new();
        push_bool(&mut v, "-d", self.details);
        push_opt(&mut v, "--since", &self.since);
        push_opt(&mut v, "--tail", &self.tail);
        push_bool(&mut v, "--timestamps", self.timestamps);
        push_opt(&mut v, "--until", &self.until);
        proof {
            assert(v.deep_view() =~= spec_logs_flags(*self));
        }
        v
    }
}

/// Flags of a remote-execution command.  `interactive` switches the
/// execution mode in the command translator.
#[derive(Debug)]
pub struct ExecFlags {
    pub detach: bool,
    pub detach_keys: Option<String>,
    pub env: Vec<String>,
    pub env_file: Vec<String>,
    pub interactive: bool,
    pub privileged: bool,
    pub user: Option<String>,
    pub workdir: Option<String>,
}

/// The rendered argument vector of an `ExecFlags`.
pub open spec fn spec_exec_flags(f: ExecFlags) -> Seq<Seq<char>> {
    bool_flag("-d"@, f.detach) + bool_flag("-i"@, f.interactive) + bool_flag(
        "--privileged"@,
        f.privileged,
    ) + opt_flag("--detach-keys"@, f.detach_keys) + list_flag("-e"@, f.env.deep_view())
        + list_flag("--env-file"@, f.env_file.deep_view()) + opt_flag("--user"@, f.user)
        + opt_flag("--workdir"@, f.workdir)
}

impl ExecFlags {
    pub fn new(
        detach: bool,
        detach_keys: Option<String>,
        env: Option<Vec<String>>,
        env_file: Option<Vec<String>>,
        interactive: bool,
        privileged: bool,
        user: Option<String>,
        workdir: Option<String>,
    ) -> (r: Self)
        ensures
            r.detach == detach,
            r.detach_keys == normalized(detach_keys),
            r.env.deep_view() == match env {
                Some(e) => e.deep_view(),
                None => Seq::<Seq<char>>::empty(),
            },
            r.env_file.deep_view() == match env_file {
                Some(e) => e.deep_view(),
                None => Seq::<Seq<char>>::empty(),
            },
            r.interactive == interactive,
            r.privileged == privileged,
            r.user == normalized(user),
            r.workdir == normalized(workdir),
    {
        let env_v: Vec<String> = match env {
            Some(e) => e,
            None => Vec::new(),
        };
        let env_file_v: Vec<String> = match env_file {
            Some(e) => e,
            None => Vec::new(),
        };
        proof {
            if env_v@.len() == 0 {
                assert(env_v.deep_view() =~= Seq::<Seq<char>>::empty());
            }
            if env_file_v@.len() == 0 {
                assert(env_file_v.deep_view() =~= Seq::<Seq<char>>::empty());
            }
        }
        Self {
            detach,
            detach_keys: normalize(detach_keys),
            env: env_v,
            env_file: env_file_v,
            interactive,
            privileged,
            user: normalize(user),
            workdir: normalize(workdir),
        }
    }

    pub fn flags(&self) -> (v: Vec<String>)
        ensures
            v.deep_view() == spec_exec_flags(*self),
    {
        let mut v: Vec<String> = Vec::new();
        push_bool(&mut v, "-d", self.detach);
        push_bool(&mut v, "-i", self.interactive);
        push_bool(&mut v, "--privileged", self.privileged);
        push_opt(&mut v, "--detach-keys", &self.detach_keys);
        push_list(&mut v, "-e", &self.env);
        push_list(&mut v, "--env-file", &self.env_file);
        push_opt(&mut v, "--user", &self.user);
        push_opt(&mut v, "--workdir", &self.workdir);
        proof {
            assert(v.deep_view() =~= spec_exec_flags(*self));
        }
        v
    }
}

/// Flags of an image-listing command.
#[derive(Debug)]
pub struct ImagesFlags {
    pub all: bool,
    pub digest: bool,
    pub filter: Option<String>,
    pub format: Option<String>,
    pub no_trunc: bool,
    pub quiet: bool,
}

/// The rendered argument vector of an `ImagesFlags`.
pub open spec fn spec_images_flags(f: ImagesFlags) -> Seq<Seq<char>> {
    bool_flag("-"@, f.all) + bool_flag("--digest"@, f.digest) + opt_flag("--filter"@, f.filter)
        + opt_flag("--format"@, f.format) + bool_flag("--no-trunc"@, f.no_trunc) + bool_flag(
        "--quiet"@,
        f.quiet,
    )
}

impl ImagesFlags {
    pub fn new(
        all: bool,
        digest: bool,
        filter: Option<String>,
        format: Option<String>,
        no_trunc: bool,
        quiet: bool,
    ) -> (r: Self)
        ensures
            r.all == all,
            r.digest == digest,
            r.filter == normalized(filter),
            r.format == normalized(format),
            r.no_trunc == no_trunc,
            r.quiet == quiet,
    {
        Self {
            all,
            digest,
            filter: normalize(filter),
            format: normalize(format),
            no_trunc,
            quiet,
        }
    }

    pub fn flags(&self) -> (v: Vec<String>)
        ensures
            v.deep_view() == spec_images_flags(*self),
    {
        let mut v: Vec<String> = Vec::new();
        push_bool(&mut v, "-", self.all);
        push_bool(&mut v, "--digest", self.digest);
        push_opt(&mut v, "--filter", &self.filter);
        push_opt(&mut v, "--format", &self.format);
        push_bool(&mut v, "--no-trunc", self.no_trunc);
        push_bool(&mut v, "--quiet", self.quiet);
        proof {
            assert(v.deep_view() =~= spec_images_flags(*self));
        }
        v
    }
}

/// Flags of a container-listing command.
#[derive(Debug)]
pub struct PsFlags {
    pub all: bool,
    pub filter: Option<String>,
    pub format: Option<String>,
    pub last: bool,
    pub latests: bool,
    pub no_trunc: bool,
    pub quiet: bool,
    pub size: bool,
}

/// The rendered argument vector of a `PsFlags`.
pub open spec fn spec_ps_flags(f: PsFlags) -> Seq<Seq<char>> {
    bool_flag("-a"@, f.all) + opt_flag("--filter"@, f.filter) + opt_flag("--format"@, f.format)
        + bool_flag("--last"@, f.last) + bool_flag("--latests"@, f.latests) + bool_flag(
        "--no_trunc"@,
        f.no_trunc,
    ) + bool_flag("--quiet"@, f.quiet) + bool_flag("--size"@, f.size)
}

impl PsFlags {
    pub fn new(
        all: bool,
        filter: Option<String>,
        format: Option<String>,
        last: bool,
        latests: bool,
        no_trunc: bool,
        quiet: bool,
        size: bool,
    ) -> (r: Self)
        ensures
            r.all == all,
            r.filter == normalized(filter),
            r.format == normalized(format),
            r.last == last,
            r.latests == latests,
            r.no_trunc == no_trunc,
            r.quiet == quiet,
            r.size == size,
    {
        Self {
            all,
            filter: normalize(filter),
            format: normalize(format),
            last,
            latests,
            no_trunc,
            quiet,
            size,
        }
    }

    pub fn flags(&self) -> (v: Vec<String>)
        ensures
            v.deep_view() == spec_ps_flags(*self),
    {
        let mut v: Vec<String> = Vec::new();
        push_bool(&mut v, "-a", self.all);
        push_opt(&mut v, "--filter", &self.filter);
        push_opt(&mut v, "--format", &self.format);
        push_bool(&mut v, "--last", self.last);
        push_bool(&mut v, "--latests", self.latests);
        push_bool(&mut v, "--no_trunc", self.no_trunc);
        push_bool(&mut v, "--quiet", self.quiet);
        push_bool(&mut v, "--size", self.size);
        proof {
            assert(v.deep_view() =~= spec_ps_flags(*self));
        }
        v
    }
}

/// Flags of a container-removal command.
#[derive(Debug)]
pub struct RmFlags {
    pub force: bool,
    pub volume: bool,
}

/// The rendered argument vector of an `RmFlags`.
pub open spec fn spec_rm_flags(f: RmFlags) -> Seq<Seq<char>> {
    bool_flag("-f"@, f.force) + bool_flag("-v"@, f.volume)
}

impl RmFlags {
    pub fn new(force: bool, volume: bool) -> (r: Self)
        ensures
            r.force == force,
            r.volume == volume,
    {
        Self { force, volume }
    }

    pub fn flags(&self) -> (v: Vec<String>)
        ensures
            v.deep_view() == spec_rm_flags(*self),
    {
        let mut v: Vec<String> = Vec::new();
        push_bool(&mut v, "-f", self.force);
        push_bool(&mut v, "-v", self.volume);
        proof {
            assert(v.deep_view() =~= spec_rm_flags(*self));
        }
        v
    }
}

} // verus!
