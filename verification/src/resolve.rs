//! The container resolver: given per-node listing probes, decide which nodes
//! currently host a named container.  A node's captured listing text is
//! matched by plain substring containment — a deliberate policy, kept for
//! compatibility although an id that is a substring of another name will
//! false-match — and the first line containing the id becomes the
//! candidate's identifying row.  Probe failures exclude the node silently;
//! only the absence of any candidate is surfaced, by the dispatcher.

use vstd::prelude::*;

use crate::text::{
    range_contains_seq, range_views, seq_contains, spec_split, split_range, str_chars,
};

verus! {

/// A transport-level failure reaching one node: its address and the cause.
#[derive(Debug)]
pub enum NodeError {
    SessionError(String, String),
}

/// The message text of a node error.
pub open spec fn spec_node_error_message(e: NodeError) -> Seq<char> {
    match e {
        NodeError::SessionError(hostname, cause) => "[NodeError] "@ + hostname@ + ": "@ + cause@,
    }
}

impl NodeError {
    /// Renders the error for display.
    pub fn message(&self) -> (r: String)
        ensures
            r@ == spec_node_error_message(*self),
    {
        match self {
            NodeError::SessionError(hostname, cause) => {
                let mut r = "[NodeError] ".to_owned();
                r.append(hostname.as_str());
                r.append(": ");
                r.append(cause.as_str());
                r
            },
        }
    }
}

impl Clone for NodeError {
    fn clone(&self) -> (r: Self)
        ensures
            r == *self,
    {
        match self {
            NodeError::SessionError(hostname, cause) => NodeError::SessionError(
                hostname.clone(),
                cause.clone(),
            ),
        }
    }
}

/// The first of `lines` that contains `id` as a substring, if any.
pub open spec fn matching_row(lines: Seq<Seq<char>>, id: Seq<char>) -> Option<Seq<char>>
    decreases lines.len(),
{
    if lines.len() == 0 {
        None
    } else if seq_contains(lines[0], id) {
        Some(lines[0])
    } else {
        matching_row(lines.drop_first(), id)
    }
}

/// The candidate's identifying row within one node's captured listing: the
/// first line that textually contains the id.
pub open spec fn spec_matching_row(output: Seq<char>, id: Seq<char>) -> Option<Seq<char>> {
    matching_row(spec_split(output, '\n'), id)
}

/// Inspects one node's probe outcome for one container id.  Returns the
/// node's name, the first listing line containing the id, and the id itself —
/// or nothing when the probe failed or no line contains the id.
pub fn node_filter_map(hostname_node: (&str, &Result<String, NodeError>), container_id: &str) -> (r:
    Option<(String, String, String)>)
    ensures
        match r {
            Some(t) => hostname_node.1 matches Ok(s) && spec_matching_row(s@, container_id@)
                == Some(t.1@) && t.0@ == hostname_node.0@ && t.2@ == container_id@,
            None => match hostname_node.1 {
                Ok(s) => spec_matching_row(s@, container_id@) is None,
                Err(_) => true,
            },
        },
{
    let (hostname, result) = hostname_node;
    match result {
        Ok(s) => {
            let chars = str_chars(s.as_str());
            let needle = str_chars(container_id);
            let len = chars.len();
            let lines = split_range(&chars, 0, len, '\n');
            proof {
                assert(chars@.subrange(0, len as int) =~= s@);
            }
            let ghost line_views = range_views(s@, lines@);
            let mut i: usize = 0;
            proof {
                assert(line_views.skip(0) =~= line_views);
            }
            while i < lines.len()
                invariant
                    i <= lines@.len(),
                    chars@ == s@,
                    needle@ == container_id@,
                    line_views == range_views(s@, lines@),
                    line_views == spec_split(s@, '\n'),
                    forall|k: int|
                        0 <= k < lines@.len() ==> ((#[trigger] lines@[k]).0 <= lines@[k].1
                            && lines@[k].1 <= s@.len()),
                    spec_matching_row(s@, container_id@) == matching_row(
                        line_views.skip(i as int),
                        container_id@,
                    ),
                decreases lines@.len() - i,
            {
                let (a, b) = lines[i];
                proof {
                    let rest = line_views.skip(i as int);
                    assert(rest[0] == chars@.subrange(a as int, b as int));
                    assert(rest.drop_first() =~= line_views.skip(i + 1));
                }
                if range_contains_seq(&chars, a, b, &needle) {
                    let row = s.as_str().substring_char(a, b);
                    return Some((hostname.to_owned(), row.to_owned(), container_id.to_owned()));
                }
                i = i + 1;
            }
            proof {
                assert(line_views.skip(lines@.len() as int) =~= Seq::<Seq<char>>::empty());
            }
            None
        },
        Err(_) => None,
    }
}

/// One (node, matching-row) pair produced for one probe round.
#[derive(Debug)]
pub struct ResolvedCandidate {
    pub host_address: String,
    pub node_address: String,
    pub container_id: String,
    pub first_matching_line: String,
}

/// The content of a candidate: host, identifying row, and container id.
pub open spec fn cand_view(c: ResolvedCandidate) -> (Seq<char>, Seq<char>, Seq<char>) {
    (c.host_address@, c.first_matching_line@, c.container_id@)
}

/// The candidates contributed by the probe outcomes of one id, in probe
/// order: each successful probe whose listing holds a line containing the id
/// contributes exactly one (host, row, id) triple.
pub open spec fn candidates_of_probes(
    id: Seq<char>,
    probes: Seq<(String, Result<String, NodeError>)>,
) -> Seq<(Seq<char>, Seq<char>, Seq<char>)>
    decreases probes.len(),
{
    if probes.len() == 0 {
        Seq::empty()
    } else {
        let rest = candidates_of_probes(id, probes.drop_first());
        match probes[0].1 {
            Ok(s) => match spec_matching_row(s@, id) {
                Some(row) => seq![(probes[0].0@, row, id)] + rest,
                None => rest,
            },
            Err(_) => rest,
        }
    }
}

/// The candidates of all requested ids, each id probed independently, in
/// request order.
pub open spec fn spec_candidates(
    ids: Seq<String>,
    probes: Seq<Vec<(String, Result<String, NodeError>)>>,
) -> Seq<(Seq<char>, Seq<char>, Seq<char>)>
    decreases ids.len(),
{
    if ids.len() == 0 {
        Seq::empty()
    } else {
        candidates_of_probes(ids[0]@, probes[0]@) + spec_candidates(
            ids.drop_first(),
            probes.drop_first(),
        )
    }
}

/// Collects the resolved candidates of every requested id from the captured
/// probe outcomes; `probes[k]` holds, for `ids[k]`, one (node, outcome) pair
/// per probed node.  Failed probes are silently excluded.
pub fn resolve_candidates(
    ids: &Vec<String>,
    probes: &Vec<Vec<(String, Result<String, NodeError>)>>,
) -> (r: Vec<ResolvedCandidate>)
    requires
        ids@.len() == probes@.len(),
    ensures
        r@.map_values(|c: ResolvedCandidate| cand_view(c)) == spec_candidates(ids@, probes@),
        forall|k: int| 0 <= k < r@.len() ==> (#[trigger] r@[k]).node_address@ == r@[k].host_address@,
{
    let mut r: Vec<ResolvedCandidate> = Vec::new();
    let mut k: usize = 0;
    proof {
        assert(ids@.skip(0) =~= ids@);
        assert(probes@.skip(0) =~= probes@);
    }
    while k < ids.len()
        invariant
            k <= ids@.len(),
            ids@.len() == probes@.len(),
            spec_candidates(ids@, probes@) =~= r@.map_values(|c: ResolvedCandidate| cand_view(c))
                + spec_candidates(ids@.skip(k as int), probes@.skip(k as int)),
            forall|j: int|
                0 <= j < r@.len() ==> (#[trigger] r@[j]).node_address@ == r@[j].host_address@,
        decreases ids@.len() - k,
    {
        proof {
            let ids_rest = ids@.skip(k as int);
            let probes_rest = probes@.skip(k as int);
            assert(ids_rest[0] == ids@[k as int]);
            assert(probes_rest[0] == probes@[k as int]);
            assert(ids_rest.drop_first() =~= ids@.skip(k + 1));
            assert(probes_rest.drop_first() =~= probes@.skip(k + 1));
        }
        let id = &ids[k];
        let row_probes = &probes[k];
        let ghost probe_views = row_probes@;
        let mut j: usize = 0;
        proof {
            assert(probe_views.skip(0) =~= probe_views);
        }
        while j < row_probes.len()
            invariant
                j <= probe_views.len(),
                probe_views == probes@[k as int]@,
                k < ids@.len(),
                ids@.len() == probes@.len(),
                id == &ids@[k as int],
                spec_candidates(ids@, probes@) =~= r@.map_values(
                    |c: ResolvedCandidate| cand_view(c),
                ) + candidates_of_probes(ids@[k as int]@, probe_views.skip(j as int))
                    + spec_candidates(ids@.skip(k + 1), probes@.skip(k + 1)),
                forall|l: int|
                    0 <= l < r@.len() ==> (#[trigger] r@[l]).node_address@ == r@[l].host_address@,
            decreases probe_views.len() - j,
        {
            proof {
                let rest = probe_views.skip(j as int);
                assert(rest[0] == probe_views[j as int]);
                assert(rest.drop_first() =~= probe_views.skip(j + 1));
            }
            let probe = &row_probes[j];
            let found = node_filter_map((probe.0.as_str(), &probe.1), id.as_str());
            match found {
                Some(t) => {
                    let (host, row, cid) = t;
                    let node = host.clone();
                    let c = ResolvedCandidate {
                        host_address: host,
                        node_address: node,
                        container_id: cid,
                        first_matching_line: row,
                    };
                    r.push(c);
                    proof {
                        assert(r@.map_values(|c: ResolvedCandidate| cand_view(c))
                            =~= r@.drop_last().map_values(|c: ResolvedCandidate| cand_view(c)).push(
                            cand_view(r@.last()),
                        ));
                    }
                },
                None => (),
            }
            j = j + 1;
        }
        proof {
            assert(candidates_of_probes(ids@[k as int]@, probe_views.skip(probe_views.len() as int))
                =~= Seq::<(Seq<char>, Seq<char>, Seq<char>)>::empty());
        }
        k = k + 1;
    }
    proof {
        assert(spec_candidates(ids@.skip(ids@.len() as int), probes@.skip(probes@.len() as int))
            =~= Seq::<(Seq<char>, Seq<char>, Seq<char>)>::empty());
    }
    r
}

/// The matched node names and their container ids, grouped per node.
#[derive(Debug)]
pub struct Container {
    pub hostname: String,
    pub node: String,
    pub container_id: Vec<String>,
}

/// The content of a grouped entry: host name and its container ids.
pub open spec fn group_view(c: Container) -> (Seq<char>, Seq<Seq<char>>) {
    (c.hostname@, c.container_id.deep_view())
}

/// Adds one (host, id) pair to a grouped list: appended to the host's entry
/// if present, else a fresh entry at the end.
pub open spec fn group_insert(
    groups: Seq<(Seq<char>, Seq<Seq<char>>)>,
    host: Seq<char>,
    id: Seq<char>,
) -> Seq<(Seq<char>, Seq<Seq<char>>)>
    decreases groups.len(),
{
    if groups.len() == 0 {
        seq![(host, seq![id])]
    } else if groups[0].0 == host {
        seq![(groups[0].0, groups[0].1.push(id))] + groups.drop_first()
    } else {
        seq![groups[0]] + group_insert(groups.drop_first(), host, id)
    }
}

/// The grouping of a candidate list by host, hosts in first-appearance
/// order, ids per host in candidate order.
pub open spec fn spec_group(cands: Seq<(Seq<char>, Seq<char>, Seq<char>)>) -> Seq<
    (Seq<char>, Seq<Seq<char>>),
>
    decreases cands.len(),
{
    if cands.len() == 0 {
        Seq::empty()
    } else {
        group_insert(spec_group(cands.drop_last()), cands.last().0, cands.last().2)
    }
}

/// Appends `id` to the entry of `host`, or a fresh entry; `node` names the
/// host's node and equals the entry's hostname throughout.
fn group_insert_exec(groups: &mut Vec<Container>, host: String, id: String)
    requires
        forall|l: int|
            0 <= l < old(groups)@.len() ==> (#[trigger] old(groups)@[l]).node@
                == old(groups)@[l].hostname@,
    ensures
        final(groups)@.map_values(|c: Container| group_view(c)) == group_insert(
            old(groups)@.map_values(|c: Container| group_view(c)),
            host@,
            id@,
        ),
        forall|l: int|
            0 <= l < final(groups)@.len() ==> (#[trigger] final(groups)@[l]).node@
                == final(groups)@[l].hostname@,
{
    let ghost gv = groups@.map_values(|c: Container| group_view(c));
    let mut j: usize = 0;
    proof {
        assert(gv.skip(0) =~= gv);
    }
    while j < groups.len()
        invariant
            j <= groups@.len(),
            groups@ == old(groups)@,
            gv == groups@.map_values(|c: Container| group_view(c)),
            forall|l: int| 0 <= l < j ==> (#[trigger] gv[l]).0 != host@,
            group_insert(gv, host@, id@) =~= gv.take(j as int) + group_insert(
                gv.skip(j as int),
                host@,
                id@,
            ),
            forall|l: int|
                0 <= l < groups@.len() ==> (#[trigger] groups@[l]).node@ == groups@[l].hostname@,
        decreases groups@.len() - j,
    {
        proof {
            let rest = gv.skip(j as int);
            assert(rest[0] == gv[j as int]);
            assert(rest.drop_first() =~= gv.skip(j + 1));
            assert(gv.take(j + 1) =~= gv.take(j as int).push(gv[j as int]));
        }
        if groups[j].hostname == host {
            let mut entry = groups.remove(j);
            entry.container_id.push(id);
            proof {
                assert(entry.container_id.deep_view() =~= gv[j as int].1.push(id@));
            }
            groups.insert(j, entry);
            proof {
                let newgv = groups@.map_values(|c: Container| group_view(c));
                assert(newgv =~= gv.take(j as int) + seq![(gv[j as int].0, gv[j as int].1.push(id@))]
                    + gv.skip(j + 1));
                assert(group_insert(gv.skip(j as int), host@, id@) =~= seq![
                    (gv[j as int].0, gv[j as int].1.push(id@)),
                ] + gv.skip(j + 1));
                assert(newgv =~= group_insert(gv, host@, id@));
            }
            return ;
        }
        j = j + 1;
    }
    proof {
        assert(gv.skip(groups@.len() as int) =~= Seq::<(Seq<char>, Seq<Seq<char>>)>::empty());
    }
    let node = host.clone();
    let mut ids: Vec<String> = Vec::new();
    ids.push(id);
    proof {
        assert(ids.deep_view() =~= seq![id@]);
    }
    groups.push(Container { hostname: host, node, container_id: ids });
    proof {
        let newgv = groups@.map_values(|c: Container| group_view(c));
        assert(newgv =~= gv.push((host@, seq![id@])));
        assert(group_insert(gv.skip(groups@.len() - 1), host@, id@) =~= seq![(host@, seq![id@])]);
        assert(newgv =~= gv.take(groups@.len() - 1) + group_insert(
            gv.skip(groups@.len() - 1),
            host@,
            id@,
        ));
        assert(gv.take(groups@.len() - 1) =~= gv);
    }
}

/// Groups a candidate list per node, hosts in first-appearance order.
pub fn group_candidates(cands: &Vec<ResolvedCandidate>) -> (r: Vec<Container>)
    ensures
        r@.map_values(|c: Container| group_view(c)) == spec_group(
            cands@.map_values(|c: ResolvedCandidate| cand_view(c)),
        ),
        forall|l: int| 0 <= l < r@.len() ==> (#[trigger] r@[l]).node@ == r@[l].hostname@,
{
    let ghost cv = cands@.map_values(|c: ResolvedCandidate| cand_view(c));
    let mut r: Vec<Container> = Vec::new();
    let mut i: usize = 0;
    while i < cands.len()
        invariant
            i <= cands@.len(),
            cv == cands@.map_values(|c: ResolvedCandidate| cand_view(c)),
            r@.map_values(|c: Container| group_view(c)) == spec_group(cv.take(i as int)),
            forall|l: int| 0 <= l < r@.len() ==> (#[trigger] r@[l]).node@ == r@[l].hostname@,
        decreases cands@.len() - i,
    {
        let c = &cands[i];
        proof {
            assert(cv.take(i + 1).drop_last() =~= cv.take(i as int));
            assert(cv.take(i + 1).last() == cv[i as int]);
        }
        group_insert_exec(&mut r, c.host_address.clone(), c.container_id.clone());
        i = i + 1;
    }
    proof {
        assert(cv.take(cands@.len() as int) =~= cv);
    }
    r
}

/// Resolves and groups in one step: the matched node names for the requested
/// ids, one entry per node, from the captured probe outcomes.
pub fn collect_containers(
    ids: &Vec<String>,
    probes: &Vec<Vec<(String, Result<String, NodeError>)>>,
) -> (r: Vec<Container>)
    requires
        ids@.len() == probes@.len(),
    ensures
        r@.map_values(|c: Container| group_view(c)) == spec_group(spec_candidates(ids@, probes@)),
        forall|l: int| 0 <= l < r@.len() ==> (#[trigger] r@[l]).node@ == r@[l].hostname@,
{
    let cands = resolve_candidates(ids, probes);
    group_candidates(&cands)
}

/// An owned batch of grouped matches that can be drained entry by entry.
#[derive(Debug)]
pub struct FindContainerResult {
    pub containers: Vec<Container>,
}

impl FindContainerResult {
    /// Hands out the entries from the back, one per call.
    pub fn next(&mut self) -> (r: Option<Container>)
        ensures
            old(self).containers@.len() == 0 ==> r is None && final(self).containers@
                == old(self).containers@,
            old(self).containers@.len() > 0 ==> r == Some(old(self).containers@.last())
                && final(self).containers@ == old(self).containers@.drop_last(),
    {
        let r = self.containers.pop();
        proof {
            if old(self).containers@.len() > 0 {
                assert(self.containers@ =~= old(self).containers@.drop_last());
            }
        }
        r
    }
}

impl Container {
    /// Builds one grouped entry.
    pub fn new(hostname: String, node: String, container_id: Vec<String>) -> (c: Self)
        ensures
            c.hostname == hostname,
            c.node == node,
            c.container_id == container_id,
    {
        Self { hostname, node, container_id }
    }

    /// The matched node's display name.
    pub fn hostname(&self) -> (r: &str)
        ensures
            r@ == self.hostname@,
    {
        self.hostname.as_str()
    }

    /// The matched node's address.
    pub fn node(&self) -> (r: &str)
        ensures
            r@ == self.node@,
    {
        self.node.as_str()
    }

    /// The matched container ids, in match order.
    pub fn id(&self) -> (r: Vec<&str>)
        ensures
            r@.len() == self.container_id@.len(),
            forall|k: int| 0 <= k < r@.len() ==> (#[trigger] r@[k])@ == self.container_id@[k]@,
    {
        let mut r: Vec<&str> = Vec::new();
        let mut i: usize = 0;
        while i < self.container_id.len()
            invariant
                i <= self.container_id@.len(),
                r@.len() == i,
                forall|k: int| 0 <= k < r@.len() ==> (#[trigger] r@[k])@ == self.container_id@[k]@,
            decreases self.container_id@.len() - i,
        {
            r.push(self.container_id[i].as_str());
            i = i + 1;
        }
        r
    }
}

} // verus!
