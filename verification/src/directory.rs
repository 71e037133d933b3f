//! The node directory: building the ordered fleet of candidate nodes for one
//! invocation from a line-oriented configuration text, filtered by an
//! optional selection pattern.
//!
//! A line is a host entry only if it holds the marker token `Host`
//! (case-sensitive) and no comment marker `#` anywhere on the line; the host
//! name is the token immediately after the marker, found after collapsing
//! repeated spaces.  Entries keep file order.  Pattern matching itself is
//! delegated to the `regex` crate behind the two trusted wrappers below.

use vstd::prelude::*;

use crate::text::{
    nonempty_ranges, range_contains_char, range_matches_str, range_views, spec_split, spec_tokens,
    split_range, str_chars,
};

verus! {

/// Whether the selection pattern compiles as a regular expression.
pub uninterp spec fn pattern_valid(pattern: Seq<char>) -> bool;

/// Whether the selection pattern, matched in full against the text, accepts
/// it.
pub uninterp spec fn pattern_matches(pattern: Seq<char>, text: Seq<char>) -> bool;

/// Relies on `regex::Regex::new`: it returns `Ok` exactly on the patterns it
/// accepts, a function of the pattern text alone.
#[verifier::external_body]
fn pattern_is_valid(pattern: &str) -> (b: bool)
    ensures
        b == pattern_valid(pattern@),
{
    regex::Regex::new(pattern).is_ok()
}

/// Relies on `regex::Regex::new` and `regex::Regex::is_match`: the pattern
/// is compiled anchored at both ends, so `is_match` — documented true if and
/// only if there is a match in the haystack — here accepts the text exactly
/// when the whole text matches the pattern; the answer is a function of the
/// pattern and the text alone.
#[verifier::external_body]
fn pattern_match(pattern: &str, text: &str) -> (b: bool)
    requires
        pattern_valid(pattern@),
    ensures
        b == pattern_matches(pattern@, text@),
{
    match regex::Regex::new(&format!("^(?:{})$", pattern)) {
        Ok(re) => re.is_match(text),
        Err(_) => false,
    }
}

/// The host declaration marker token.
pub open spec fn host_marker() -> Seq<char> {
    "Host"@
}

/// The comment marker character.
pub open spec fn comment_marker() -> char {
    '#'
}

/// The host name declared by a token list: the token immediately following
/// the first marker token, if any follows it.
pub open spec fn host_in_tokens(tokens: Seq<Seq<char>>) -> Option<Seq<char>>
    decreases tokens.len(),
{
    if tokens.len() == 0 {
        None
    } else if tokens[0] == host_marker() {
        if tokens.len() >= 2 {
            Some(tokens[1])
        } else {
            None
        }
    } else {
        host_in_tokens(tokens.drop_first())
    }
}

/// The host name declared by one configuration line, if the line is a host
/// entry: no comment marker anywhere, and a token following the marker.
pub open spec fn spec_host_of_line(line: Seq<char>) -> Option<Seq<char>> {
    if line.contains(comment_marker()) {
        None
    } else {
        host_in_tokens(spec_tokens(line))
    }
}

/// Whether an absent or present pattern admits a host name.
pub open spec fn pattern_admits(pattern: Option<Seq<char>>, host: Seq<char>) -> bool {
    match pattern {
        Some(p) => pattern_matches(p, host),
        None => true,
    }
}

/// The host names contributed by a list of lines, in file order, filtered by
/// the pattern.
pub open spec fn fleet_of_lines(lines: Seq<Seq<char>>, pattern: Option<Seq<char>>) -> Seq<
    Seq<char>,
>
    decreases lines.len(),
{
    if lines.len() == 0 {
        Seq::empty()
    } else {
        let rest = fleet_of_lines(lines.drop_first(), pattern);
        match spec_host_of_line(lines[0]) {
            Some(h) => if pattern_admits(pattern, h) {
                seq![h] + rest
            } else {
                rest
            },
            None => rest,
        }
    }
}

/// The fleet discovered from a configuration text under a pattern.
pub open spec fn spec_fleet(text: Seq<char>, pattern: Option<Seq<char>>) -> Seq<Seq<char>> {
    fleet_of_lines(spec_split(text, '\n'), pattern)
}

/// The view of an optional pattern argument.
pub open spec fn pattern_view(pattern: Option<&str>) -> Option<Seq<char>> {
    match pattern {
        Some(p) => Some(p@),
        None => None,
    }
}

/// One reachable-node candidate, known by its address.
#[derive(Debug)]
pub struct Node {
    pub address: String,
}

impl Node {
    pub fn new(address: String) -> (n: Self)
        ensures
            n.address == address,
    {
        Self { address }
    }
}

/// The refusal of a selection pattern that does not compile.
#[derive(Debug)]
pub enum ConfigError {
    InvalidPattern(String),
}

/// The ordered fleet of nodes discovered for one invocation.
#[derive(Debug)]
pub struct Client {
    pub nodes: Vec<Node>,
}

impl Client {
    /// The discovered host names, in file order.
    pub open spec fn hosts(&self) -> Seq<Seq<char>> {
        self.nodes@.map_values(|n: Node| n.address@)
    }

    /// Discovers the fleet from a configuration text.  A caller that cannot
    /// read its configuration source passes the empty text and receives the
    /// empty fleet.
    pub fn from_config(contents: &str, pattern: Option<&str>) -> (r: Result<Client, ConfigError>)
        ensures
            match r {
                Ok(c) => c.hosts() == spec_fleet(contents@, pattern_view(pattern)) && (
                pattern matches Some(p) ==> pattern_valid(p@)),
                Err(e) => pattern matches Some(p) && !pattern_valid(p@) && (
                e matches ConfigError::InvalidPattern(q) && q@ == p@),
            },
    {
        match pattern {
            Some(p) => {
                if !pattern_is_valid(p) {
                    return Err(ConfigError::InvalidPattern(p.to_owned()));
                }
            },
            None => (),
        }
        let chars = str_chars(contents);
        let len = chars.len();
        let lines = split_range(&chars, 0, len, '\n');
        proof {
            assert(chars@.subrange(0, len as int) =~= contents@);
        }
        let ghost line_views = range_views(contents@, lines@);
        let mut nodes: Vec<Node> = Vec::new();
        let mut i: usize = 0;
        proof {
            assert(line_views.skip(0) =~= line_views);
        }
        while i < lines.len()
            invariant
                i <= lines@.len(),
                chars@ == contents@,
                line_views == range_views(contents@, lines@),
                line_views == spec_split(contents@, '\n'),
                forall|k: int|
                    0 <= k < lines@.len() ==> ((#[trigger] lines@[k]).0 <= lines@[k].1
                        && lines@[k].1 <= contents@.len()),
                pattern matches Some(p) ==> pattern_valid(p@),
                spec_fleet(contents@, pattern_view(pattern)) =~= nodes@.map_values(
                    |n: Node| n.address@,
                ) + fleet_of_lines(line_views.skip(i as int), pattern_view(pattern)),
            decreases lines@.len() - i,
        {
            let (a, b) = lines[i];
            let ghost line = line_views[i as int];
            proof {
                assert(line == chars@.subrange(a as int, b as int));
                let rest = line_views.skip(i as int);
                assert(rest[0] == line);
                assert(rest.drop_first() =~= line_views.skip(i + 1));
            }
            let host = host_of_line(contents, &chars, a, b);
            match host {
                Some(h) => {
                    let admitted = match pattern {
                        Some(p) => pattern_match(p, h.as_str()),
                        None => true,
                    };
                    if admitted {
                        nodes.push(Node::new(h));
                        proof {
                            assert(nodes@.map_values(|n: Node| n.address@)
                                =~= nodes@.drop_last().map_values(|n: Node| n.address@).push(
                                nodes@.last().address@,
                            ));
                        }
                    }
                },
                None => (),
            }
            i = i + 1;
        }
        proof {
            assert(fleet_of_lines(line_views.skip(lines@.len() as int), pattern_view(pattern))
                =~= Seq::<Seq<char>>::empty());
        }
        Ok(Client { nodes })
    }

    /// The nodes paired with their addresses, in fleet order.
    pub fn nodes_info(&self) -> (r: Vec<(&String, &Node)>)
        ensures
            r@.len() == self.nodes@.len(),
            forall|k: int|
                0 <= k < r@.len() ==> *#[trigger] r@[k].1 == self.nodes@[k] && r@[k].0@
                    == self.nodes@[k].address@,
    {
        let mut r: Vec<(&String, &Node)> = Vec::new();
        let mut i: usize = 0;
        while i < self.nodes.len()
            invariant
                i <= self.nodes@.len(),
                r@.len() == i,
                forall|k: int|
                    0 <= k < r@.len() ==> *#[trigger] r@[k].1 == self.nodes@[k] && r@[k].0@
                        == self.nodes@[k].address@,
            decreases self.nodes@.len() - i,
        {
            let node = &self.nodes[i];
            r.push((&node.address, node));
            i = i + 1;
        }
        r
    }
}

/// A configuration line holding the comment marker anywhere is never a host
/// entry, so it contributes nothing to any discovered fleet.
pub proof fn lemma_comment_line_excluded(line: Seq<char>)
    requires
        line.contains(comment_marker()),
    ensures
        spec_host_of_line(line) is None,
{
}

/// Every member of a discovered fleet is the declared host of some line
/// without a comment marker, and is admitted by the selection pattern; a
/// host name that fails the pattern, or stands on a commented line, is never
/// included.
pub proof fn lemma_fleet_members(lines: Seq<Seq<char>>, pattern: Option<Seq<char>>, h: Seq<char>)
    requires
        fleet_of_lines(lines, pattern).contains(h),
    ensures
        pattern_admits(pattern, h),
        exists|j: int|
            0 <= j < lines.len() && spec_host_of_line(#[trigger] lines[j]) == Some(h)
                && !lines[j].contains(comment_marker()),
    decreases lines.len(),
{
    let fleet = fleet_of_lines(lines, pattern);
    let rest = fleet_of_lines(lines.drop_first(), pattern);
    let head = spec_host_of_line(lines[0]);
    let in_rest = if head matches Some(h0) && pattern_admits(pattern, h0) && h0 == h {
        false
    } else {
        true
    };
    if !in_rest {
        let h0 = head->0;
        assert(!lines[0].contains(comment_marker())) by {
            if lines[0].contains(comment_marker()) {
                lemma_comment_line_excluded(lines[0]);
            }
        }
        assert(spec_host_of_line(lines[0]) == Some(h));
    } else {
        match head {
            Some(h0) => {
                if pattern_admits(pattern, h0) {
                    let i = choose|i: int| 0 <= i < fleet.len() && fleet[i] == h;
                    assert(fleet == seq![h0] + rest);
                    assert(i > 0);
                    assert(rest[i - 1] == h);
                    assert(rest.contains(h));
                } else {
                }
            },
            None => {},
        }
        lemma_fleet_members(lines.drop_first(), pattern, h);
        let j = choose|j: int|
            0 <= j < lines.drop_first().len() && spec_host_of_line(
                #[trigger] lines.drop_first()[j],
            ) == Some(h) && !lines.drop_first()[j].contains(comment_marker());
        assert(lines.drop_first()[j] == lines[j + 1]);
    }
}

/// Extracts the host name of one configuration line, given as the range
/// `[from, to)` of `chars`; `contents` is the text the characters came from.
fn host_of_line(contents: &str, chars: &Vec<char>, from: usize, to: usize) -> (r: Option<String>)
    requires
        chars@ == contents@,
        from <= to <= chars@.len(),
    ensures
        match r {
            Some(h) => spec_host_of_line(chars@.subrange(from as int, to as int)) == Some(h@),
            None => spec_host_of_line(chars@.subrange(from as int, to as int)) is None,
        },
{
    let ghost line = chars@.subrange(from as int, to as int);
    if range_contains_char(chars, from, to, '#') {
        return None;
    }
    let pieces = split_range(chars, from, to, ' ');
    let tokens = nonempty_ranges(chars, &pieces);
    let ghost token_views = range_views(chars@, tokens@);
    proof {
        assert(token_views == spec_tokens(line));
        assert(token_views.skip(0) =~= token_views);
    }
    let mut i: usize = 0;
    while i < tokens.len()
        invariant
            i <= tokens@.len(),
            token_views == range_views(chars@, tokens@),
            forall|k: int|
                0 <= k < tokens@.len() ==> ((#[trigger] tokens@[k]).0 <= tokens@[k].1
                    && tokens@[k].1 <= chars@.len()),
            host_in_tokens(token_views) == host_in_tokens(token_views.skip(i as int)),
        decreases tokens@.len() - i,
    {
        let (a, b) = tokens[i];
        proof {
            let rest = token_views.skip(i as int);
            assert(rest[0] == chars@.subrange(a as int, b as int));
            assert(rest.drop_first() =~= token_views.skip(i + 1));
        }
        if range_matches_str(chars, a, b, "Host") {
            if i + 1 < tokens.len() {
                let (c, d) = tokens[i + 1];
                proof {
                    let rest = token_views.skip(i as int);
                    assert(rest[1] == token_views[i + 1]);
                }
                let h = contents.substring_char(c, d);
                return Some(h.to_owned());
            } else {
                proof {
                    let rest = token_views.skip(i as int);
                    assert(rest.len() == tokens@.len() - i);
                }
                return None;
            }
        }
        i = i + 1;
    }
    proof {
        assert(token_views.skip(tokens@.len() as int) =~= Seq::<Seq<char>>::empty());
    }
    None
}

} // verus!

