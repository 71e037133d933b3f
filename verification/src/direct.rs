//! The directly-addressed command set: commands aimed at one named node,
//! with no resolution round.  This interface stands beside the fleet router
//! and keeps an empty-string convention for absent optional values; the
//! builders below render its argument vectors, and the deploy helpers read
//! per-node memory reports and pick the least-loaded node.

use vstd::prelude::*;

use crate::text::{
    contains_at, nonempty_ranges, push_token, range_contains_seq, range_starts_with, range_views,
    seq_contains, spec_split, spec_tokens, split_range, str_chars,
};

verus! {

/// Verbosity levels of the command line.
#[derive(Clone, Copy, Debug, PartialEq, Eq, Structural)]
pub enum Level {
    Debug,
    Info,
    Warning,
    Error,
}

/// The directly-addressed commands: each names the node it runs on.
#[derive(Debug)]
pub enum DockerCommand {
    /// List the containers of every node matching the pattern.
    Ps { regex: String },
    /// Run one command inside a container of a named node.
    Exec { node: String, container: String, command: String },
    /// Fetch a container's logs from a named node.
    Logs { node: String, container: String },
    /// Spin up a new container on a named node.
    Run {
        node: String,
        image: String,
        name: String,
        restart: String,
        port: String,
        env: Vec<String>,
    },
    /// Stop a container on a named node.
    Stop { node: String, container: String },
    /// Remove a stopped container on a named node.
    Rm { node: String, container: String },
    /// Inspect a container on a named node.
    Inspect { node: String, container: String },
}

/// The parsed invocation: one command and the output verbosity.
#[derive(Debug)]
pub struct MainParser {
    pub command: DockerCommand,
    pub level: Level,
}

/// The argument vector of a directly-addressed single-container command:
/// the command word, then the container.
pub fn direct_args(command: &str, container: &str) -> (v: Vec<String>)
    ensures
        v.deep_view() == seq![command@, container@],
{
    let mut v: Vec<String> = Vec::new();
    push_token(&mut v, command);
    push_token(&mut v, container);
    proof {
        assert(v.deep_view() =~= seq![command@, container@]);
    }
    v
}

/// The environment pairs of a run command: one `-e` pair per non-empty
/// element, in input order; empty-string placeholders contribute nothing.
pub open spec fn run_env_args(items: Seq<Seq<char>>) -> Seq<Seq<char>>
    decreases items.len(),
{
    if items.len() == 0 {
        Seq::empty()
    } else {
        run_env_args(items.drop_last()) + (if items.last().len() > 0 {
            seq!["-e"@, items.last()]
        } else {
            Seq::empty()
        })
    }
}

/// The rendered argument vector of a run command; an empty string means an
/// absent value and contributes nothing.
pub open spec fn spec_run_args(
    image: Seq<char>,
    name: Seq<char>,
    port: Seq<char>,
    restart: Seq<char>,
    env: Seq<Seq<char>>,
) -> Seq<Seq<char>> {
    seq!["run"@, "-d"@] + (if port.len() > 0 {
        seq!["-p"@, port]
    } else {
        Seq::empty()
    }) + (if name.len() > 0 {
        seq!["--name"@, name]
    } else {
        Seq::empty()
    }) + (if restart.len() > 0 {
        seq!["--restart"@, restart]
    } else {
        Seq::empty()
    }) + run_env_args(env) + seq![image]
}

/// Renders the argument vector of a run command: detached mode always, then
/// port, name and restart policy when non-empty, one `-e` pair per non-empty
/// environment element, and the image last.
pub fn run_args(image: &str, name: &str, port: &str, restart: &str, env: &Vec<String>) -> (v: Vec<
    String,
>)
    ensures
        v.deep_view() == spec_run_args(image@, name@, port@, restart@, env.deep_view()),
{
    let mut v: Vec<String> = Vec::new();
    push_token(&mut v, "run");
    push_token(&mut v, "-d");
    if !port.is_empty() {
        push_token(&mut v, "-p");
        push_token(&mut v, port);
    }
    if !name.is_empty() {
        push_token(&mut v, "--name");
        push_token(&mut v, name);
    }
    if !restart.is_empty() {
        push_token(&mut v, "--restart");
        push_token(&mut v, restart);
    }
    let ghost prefix = v.deep_view();
    let ghost deep = env.deep_view();
    let mut i: usize = 0;
    while i < env.len()
        invariant
            i <= env@.len(),
            deep == env.deep_view(),
            v.deep_view() == prefix + run_env_args(deep.take(i as int)),
        decreases env@.len() - i,
    {
        if !env[i].as_str().is_empty() {
            push_token(&mut v, "-e");
            push_token(&mut v, env[i].as_str());
        }
        proof {
            let now = deep.take(i + 1);
            assert(now.drop_last() =~= deep.take(i as int));
            assert(now.last() == deep[i as int]);
            assert(v.deep_view() =~= prefix + run_env_args(now));
        }
        i = i + 1;
    }
    proof {
        assert(deep.take(env@.len() as int) =~= deep);
    }
    push_token(&mut v, image);
    proof {
        assert(v.deep_view() =~= spec_run_args(image@, name@, port@, restart@, deep));
    }
    v
}

/// One node's memory report: total and free memory in kilobytes.
#[derive(Debug)]
pub struct NodeMemory {
    pub node: String,
    pub memtotal: u64,
    pub memfree: u64,
}

impl Default for NodeMemory {
    fn default() -> (r: Self)
        ensures
            r.node@ == Seq::<char>::empty(),
            r.memtotal == 0,
            r.memfree == 0,
    {
        Self { node: String::new(), memtotal: 0, memfree: 0 }
    }
}

impl Clone for NodeMemory {
    fn clone(&self) -> (r: Self)
        ensures
            r == *self,
    {
        Self { node: self.node.clone(), memtotal: self.memtotal, memfree: self.memfree }
    }
}

/// Whether `c` is a decimal digit.
pub open spec fn spec_is_digit(c: char) -> bool {
    '0' <= c && c <= '9'
}

/// The value of a digit sequence read in base ten.
pub open spec fn spec_decimal(s: Seq<char>) -> int
    decreases s.len(),
{
    if s.len() == 0 {
        0
    } else {
        spec_decimal(s.drop_last()) * 10 + (s.last() as int - '0' as int)
    }
}

/// The number a token denotes: defined exactly for a non-empty all-digit
/// token whose value fits the machine word.
pub open spec fn spec_decimal_u64(s: Seq<char>) -> Option<u64> {
    if s.len() > 0 && (forall|i: int| 0 <= i < s.len() ==> spec_is_digit(#[trigger] s[i]))
        && spec_decimal(s) <= u64::MAX {
        Some(spec_decimal(s) as u64)
    } else {
        None
    }
}

proof fn lemma_decimal_nonneg(s: Seq<char>)
    requires
        forall|i: int| 0 <= i < s.len() ==> spec_is_digit(#[trigger] s[i]),
    ensures
        spec_decimal(s) >= 0,
    decreases s.len(),
{
    if s.len() > 0 {
        lemma_decimal_nonneg(s.drop_last());
        let prev = spec_decimal(s.drop_last());
        assert(prev * 10 >= prev) by (nonlinear_arith)
            requires
                prev >= 0,
        ;
    }
}

/// Reads the decimal number spelled by `chars[from..to]`, refusing an empty
/// token, a non-digit, or a value over the machine word.
fn parse_u64(chars: &Vec<char>, from: usize, to: usize) -> (r: Option<u64>)
    requires
        from <= to <= chars@.len(),
    ensures
        r == spec_decimal_u64(chars@.subrange(from as int, to as int)),
{
    let ghost sub = chars@.subrange(from as int, to as int);
    if from == to {
        proof {
            assert(sub.len() == 0);
        }
        return None;
    }
    let mut val: u128 = 0;
    let mut too_big = false;
    let mut k: usize = from;
    while k < to
        invariant
            from <= k <= to,
            sub == chars@.subrange(from as int, to as int),
            forall|i: int| 0 <= i < k - from ==> spec_is_digit(#[trigger] sub[i]),
            !too_big ==> val == spec_decimal(sub.take(k - from)) && val <= u64::MAX,
            too_big ==> spec_decimal(sub.take(k - from)) > u64::MAX,
        decreases to - k,
    {
        let c = chars[k];
        proof {
            assert(sub[k - from] == chars@[k as int]);
        }
        if c < '0' || c > '9' {
            proof {
                assert(!spec_is_digit(sub[k - from]));
            }
            return None;
        }
        let d: u128 = (c as u32 - '0' as u32) as u128;
        let ghost prev = spec_decimal(sub.take(k - from));
        proof {
            assert(sub.take(k - from + 1).drop_last() =~= sub.take(k - from));
            assert(sub.take(k - from + 1).last() == sub[k - from]);
            lemma_decimal_nonneg(sub.take(k - from));
            assert(prev * 10 + (c as int - '0' as int) >= prev) by (nonlinear_arith)
                requires
                    prev >= 0,
                    '0' as int <= c as int,
            ;
        }
        if !too_big {
            val = val * 10 + d;
            if val > u64::MAX as u128 {
                too_big = true;
            }
        }
        k = k + 1;
    }
    proof {
        assert(sub.take(to - from) =~= sub);
    }
    if too_big {
        None
    } else {
        Some(val as u64)
    }
}

/// The number read from the second whitespace-delimited token of a line, as
/// the memory report lines carry their kilobyte counts.
pub open spec fn spec_mem_value(line: Seq<char>) -> Option<u64> {
    if spec_tokens(line).len() >= 2 {
        spec_decimal_u64(spec_tokens(line)[1])
    } else {
        None
    }
}

/// The last adjacent line pair reporting total and free memory: a line
/// containing the total-memory marker followed directly by one starting
/// with the free-memory marker.
pub open spec fn spec_meminfo_lines(lines: Seq<Seq<char>>) -> Option<(Seq<char>, Seq<char>)>
    decreases lines.len(),
{
    if lines.len() < 2 {
        None
    } else if seq_contains(lines[lines.len() - 2], "MemTotal"@) && contains_at(
        lines[lines.len() - 1],
        "MemFree"@,
        0,
    ) {
        Some((lines[lines.len() - 2], lines[lines.len() - 1]))
    } else {
        spec_meminfo_lines(lines.drop_last())
    }
}

/// The total and free kilobyte counts a memory report text carries, when its
/// last total/free line pair parses.
pub open spec fn spec_meminfo(text: Seq<char>) -> Option<(u64, u64)> {
    match spec_meminfo_lines(spec_split(text, '\n')) {
        Some(pair) => match (spec_mem_value(pair.0), spec_mem_value(pair.1)) {
            (Some(total), Some(free)) => Some((total, free)),
            _ => None,
        },
        None => None,
    }
}

/// Reads one node's memory report.  The values come from the last adjacent
/// pair of total/free lines; a report without such a pair, or whose counts
/// do not parse, yields nothing.
pub fn parse_meminfo(node: &str, text: &str) -> (r: Option<NodeMemory>)
    ensures
        match r {
            Some(m) => spec_meminfo(text@) == Some((m.memtotal, m.memfree)) && m.node@ == node@,
            None => spec_meminfo(text@) is None,
        },
{
    let chars = str_chars(text);
    let len = chars.len();
    let lines = split_range(&chars, 0, len, '\n');
    proof {
        assert(chars@.subrange(0, len as int) =~= text@);
    }
    let ghost line_views = range_views(text@, lines@);
    let total_marker = str_chars("MemTotal");

    let mut found: Option<(usize, usize, usize, usize)> = None;
    let mut i: usize = 1;
    proof {
        assert(line_views.take(1).len() < 2);
    }
    while i < lines.len()
        invariant
            1 <= i <= lines@.len() || (lines@.len() < 1 && i == 1),
            chars@ == text@,
            total_marker@ == "MemTotal"@,
            line_views == range_views(text@, lines@),
            forall|k: int|
                0 <= k < lines@.len() ==> ((#[trigger] lines@[k]).0 <= lines@[k].1
                    && lines@[k].1 <= text@.len()),
            match found {
                Some(t) => t.0 <= t.1 <= text@.len() && t.2 <= t.3 <= text@.len()
                    && spec_meminfo_lines(line_views.take(i as int)) == Some(
                    (
                        text@.subrange(t.0 as int, t.1 as int),
                        text@.subrange(t.2 as int, t.3 as int),
                    ),
                ),
                None => spec_meminfo_lines(line_views.take(i as int)) is None,
            },
        decreases lines@.len() - i,
    {
        let (a, b) = lines[i - 1];
        let (c, d) = lines[i];
        proof {
            let now = line_views.take(i + 1);
            assert(now[now.len() - 2] == text@.subrange(a as int, b as int));
            assert(now[now.len() - 1] == text@.subrange(c as int, d as int));
            assert(now.drop_last() =~= line_views.take(i as int));
        }
        if range_contains_seq(&chars, a, b, &total_marker) && range_starts_with(
            &chars,
            c,
            d,
            "MemFree",
        ) {
            found = Some((a, b, c, d));
        }
        i = i + 1;
    }
    proof {
        assert(line_views.take(lines@.len() as int) =~= line_views);
    }
    match found {
        Some(t) => {
            let (a, b, c, d) = t;
            let total = mem_value(&chars, a, b);
            let free = mem_value(&chars, c, d);
            match (total, free) {
                (Some(total), Some(free)) => Some(NodeMemory {
                    node: node.to_owned(),
                    memtotal: total,
                    memfree: free,
                }),
                _ => None,
            }
        },
        None => None,
    }
}

/// Reads the kilobyte count of one report line: its second token as a
/// decimal number.
fn mem_value(chars: &Vec<char>, from: usize, to: usize) -> (r: Option<u64>)
    requires
        from <= to <= chars@.len(),
    ensures
        r == spec_mem_value(chars@.subrange(from as int, to as int)),
{
    let ghost line = chars@.subrange(from as int, to as int);
    let pieces = split_range(chars, from, to, ' ');
    let tokens = nonempty_ranges(chars, &pieces);
    proof {
        assert(range_views(chars@, tokens@) == spec_tokens(line));
    }
    if tokens.len() >= 2 {
        let (a, b) = tokens[1];
        proof {
            assert(range_views(chars@, tokens@)[1] == chars@.subrange(a as int, b as int));
        }
        parse_u64(chars, a, b)
    } else {
        None
    }
}

/// The memory in use on a reported node.
pub open spec fn spec_used(m: NodeMemory) -> int {
    m.memtotal - m.memfree
}

/// Picks the node to deploy to: the first report with the least memory in
/// use.  Reports where more memory is free than exists are out of range.
pub fn pick_deploy_node(results: &Vec<NodeMemory>) -> (r: Option<NodeMemory>)
    requires
        forall|j: int| 0 <= j < results@.len() ==> (#[trigger] results@[j]).memfree
            <= results@[j].memtotal,
    ensures
        r is Some <==> results@.len() > 0,
        r matches Some(m) ==> exists|i: int|
            0 <= i < results@.len() && m == results@[i] && (forall|j: int|
                0 <= j < results@.len() ==> spec_used(m) <= spec_used(#[trigger] results@[j]))
                && (forall|j: int| 0 <= j < i ==> spec_used(#[trigger] results@[j]) > spec_used(m)),
{
    let mut picked: Option<NodeMemory> = None;
    let ghost mut picked_at: int = 0;
    let mut i: usize = 0;
    while i < results.len()
        invariant
            i <= results@.len(),
            picked is None <==> i == 0,
            picked matches Some(m) ==> 0 <= picked_at < i && m == results@[picked_at] && (forall|
                j: int,
            |
                0 <= j < i ==> spec_used(m) <= spec_used(#[trigger] results@[j])) && (forall|j: int|
                0 <= j < picked_at ==> spec_used(#[trigger] results@[j]) > spec_used(m)),
        decreases results@.len() - i,
    {
        let candidate = &results[i];
        match &picked {
            Some(m) => {
                if m.memtotal - m.memfree > candidate.memtotal - candidate.memfree {
                    picked = Some(candidate.clone());
                    proof {
                        picked_at = i as int;
                    }
                }
            },
            None => {
                picked = Some(candidate.clone());
                proof {
                    picked_at = i as int;
                }
            },
        }
        i = i + 1;
    }
    picked
}

} // verus!
