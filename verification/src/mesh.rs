//! Replica planning over a set of storage nodes: which nodes take a new
//! object (one per failure domain), which replicas a restore tries, and
//! which nodes a repair adds.
use vstd::prelude::*;
use crate::text::str_equal;
use crate::node::NodeError;

verus! {

/// What planning needs to know of a node.
#[derive(Clone, Debug)]
pub struct NodeView {
    pub node_id: String,
    pub failure_domain: String,
    pub active: bool,
}

/// A replica of an object on a node.
#[derive(Clone, Debug, PartialEq, Eq)]
pub struct Placement {
    pub object_cid: String,
    pub node_id: String,
    pub failure_domain: String,
    pub healthy: bool,
}

/// Why a mesh operation failed.
#[derive(Debug)]
pub enum MeshError {
    InsufficientNodes,
    NoHealthyReplica,
    Node(NodeError),
}

/// The failure domains of the chosen nodes.
pub open spec fn domains_of(nodes: Seq<NodeView>, chosen: Seq<int>) -> Seq<Seq<char>> {
    chosen.map_values(|i: int| nodes[i].failure_domain@)
}

/// The nodes, among the first `n`, that take a new object: each active node
/// whose failure domain no earlier choice has, until `target` are chosen
/// (a target of zero is never reached).
pub open spec fn replica_picks(nodes: Seq<NodeView>, n: int, target: int) -> Seq<int>
    decreases n,
{
    if n <= 0 {
        Seq::empty()
    } else {
        let prev = replica_picks(nodes, n - 1, target);
        if (target > 0 && prev.len() == target) || !nodes[n - 1].active || domains_of(
            nodes,
            prev,
        ).contains(nodes[n - 1].failure_domain@) {
            prev
        } else {
            prev.push(n - 1)
        }
    }
}

/// Whether a sequence of texts holds this text.
pub(crate) fn contains_text(v: &Vec<String>, x: &String) -> (res: bool)
    ensures
        res == v@.map_values(|s: String| s@).contains(x@),
{
    let ghost t = v@.map_values(|s: String| s@);
    let mut i: usize = 0;
    while i < v.len()
        invariant
            0 <= i <= v@.len(),
            t == v@.map_values(|s: String| s@),
            forall|k: int| 0 <= k < i ==> t[k] != x@,
        decreases v@.len() - i,
    {
        if str_equal(v[i].as_str(), x.as_str()) {
            assert(t[i as int] == x@);
            return true;
        }
        i = i + 1;
    }
    false
}

/// Plans the replication of a new object to `target` nodes: the chosen
/// nodes, and whether the target was met.
pub fn replication_plan(nodes: &[NodeView], target: usize) -> (res: (Vec<usize>, bool))
    ensures
        res.0@.map_values(|i: usize| i as int) == replica_picks(nodes@, nodes@.len() as int, target as int),
        res.1 == (target > 0 && res.0@.len() == target),
{
    let mut chosen: Vec<usize> = Vec::new();
    let mut domains: Vec<String> = Vec::new();
    let mut n: usize = 0;
    while n < nodes.len()
        invariant
            0 <= n <= nodes@.len(),
            chosen@.map_values(|i: usize| i as int) == replica_picks(nodes@, n as int, target as int),
            domains@.map_values(|s: String| s@) == domains_of(
                nodes@,
                chosen@.map_values(|i: usize| i as int),
            ),
            chosen@.len() <= n,
            target > 0 ==> chosen@.len() <= target,
        decreases nodes@.len() - n,
    {
        let ghost prev = chosen@.map_values(|i: usize| i as int);
        if target > 0 && chosen.len() == target {
            proof {
                assert(replica_picks(nodes@, n + 1, target as int) == prev);
            }
        } else if !nodes[n].active {
        } else if contains_text(&domains, &nodes[n].failure_domain) {
        } else {
            let ghost before_d = domains@;
            chosen.push(n);
            domains.push(nodes[n].failure_domain.clone());
            proof {
                assert(chosen@.map_values(|i: usize| i as int) =~= prev.push(n as int));
                assert(domains_of(nodes@, prev.push(n as int)) =~= domains_of(nodes@, prev).push(
                    nodes@[n as int].failure_domain@,
                ));
                assert(domains@.map_values(|s: String| s@) =~= before_d.map_values(|s: String| s@).push(
                    nodes@[n as int].failure_domain@,
                ));
            }
        }
        n = n + 1;
    }
    let complete = target > 0 && chosen.len() == target;
    (chosen, complete)
}

/// The indices of the healthy placements of an object, in order.
pub open spec fn healthy_of(s: Seq<Placement>, n: int, object_cid: Seq<char>) -> Seq<int>
    decreases n,
{
    if n <= 0 {
        Seq::empty()
    } else {
        let prev = healthy_of(s, n - 1, object_cid);
        if s[n - 1].object_cid@ == object_cid && s[n - 1].healthy {
            prev.push(n - 1)
        } else {
            prev
        }
    }
}

/// The placements a restore tries, in order: the healthy ones of the
/// object.
pub fn restore_candidates(placements: &[Placement], object_cid: &str) -> (res: Vec<usize>)
    ensures
        res@.map_values(|i: usize| i as int) == healthy_of(placements@, placements@.len() as int, object_cid@),
{
    let mut out: Vec<usize> = Vec::new();
    let mut n: usize = 0;
    while n < placements.len()
        invariant
            0 <= n <= placements@.len(),
            out@.map_values(|i: usize| i as int) == healthy_of(placements@, n as int, object_cid@),
        decreases placements@.len() - n,
    {
        let ghost prev = out@.map_values(|i: usize| i as int);
        if str_equal(placements[n].object_cid.as_str(), object_cid) && placements[n].healthy {
            out.push(n);
            assert(out@.map_values(|i: usize| i as int) =~= prev.push(n as int));
        }
        n = n + 1;
    }
    out
}

/// The positions, among the first `n`, of the placements of an object,
/// healthy or not.
pub open spec fn placed_of(s: Seq<Placement>, n: int, object_cid: Seq<char>) -> Seq<int>
    decreases n,
{
    if n <= 0 {
        Seq::empty()
    } else {
        let prev = placed_of(s, n - 1, object_cid);
        if s[n - 1].object_cid@ == object_cid {
            prev.push(n - 1)
        } else {
            prev
        }
    }
}

/// The placements an audit checks, in order: all those of the object.
pub fn placements_of(placements: &[Placement], object_cid: &str) -> (res: Vec<usize>)
    ensures
        res@.map_values(|i: usize| i as int) == placed_of(placements@, placements@.len() as int, object_cid@),
{
    let mut out: Vec<usize> = Vec::new();
    let mut n: usize = 0;
    while n < placements.len()
        invariant
            0 <= n <= placements@.len(),
            out@.map_values(|i: usize| i as int) == placed_of(placements@, n as int, object_cid@),
        decreases placements@.len() - n,
    {
        let ghost prev = out@.map_values(|i: usize| i as int);
        if str_equal(placements[n].object_cid.as_str(), object_cid) {
            out.push(n);
            assert(out@.map_values(|i: usize| i as int) =~= prev.push(n as int));
        }
        n = n + 1;
    }
    out
}

/// How many of the first `n` placements of an object the audit found
/// healthy.
pub open spec fn audited_healthy(s: Seq<Placement>, object_cid: Seq<char>, verdicts: Seq<bool>, n: int) -> nat
    decreases n,
{
    if n <= 0 {
        0
    } else {
        audited_healthy(s, object_cid, verdicts, n - 1) + if s[n - 1].object_cid@ == object_cid
            && verdicts[n - 1] {
            1nat
        } else {
            0nat
        }
    }
}

/// Records an audit of an object: each of its placements becomes healthy
/// exactly when its verdict (by position) is; other placements stay. The
/// number of healthy placements of the object.
pub fn record_audits(placements: &mut Vec<Placement>, object_cid: &str, verdicts: &[bool]) -> (res: usize)
    requires
        verdicts@.len() == old(placements)@.len(),
    ensures
        final(placements)@.len() == old(placements)@.len(),
        forall|i: int|
            0 <= i < old(placements)@.len() ==> #[trigger] final(placements)@[i] == (if old(
                placements,
            )@[i].object_cid@ == object_cid@ {
                Placement { healthy: verdicts@[i], ..old(placements)@[i] }
            } else {
                old(placements)@[i]
            }),
        res == audited_healthy(old(placements)@, object_cid@, verdicts@, old(placements)@.len() as int),
{
    let mut count: usize = 0;
    let mut i: usize = 0;
    while i < placements.len()
        invariant
            placements@.len() == old(placements)@.len(),
            verdicts@.len() == old(placements)@.len(),
            0 <= i <= placements@.len(),
            count == audited_healthy(old(placements)@, object_cid@, verdicts@, i as int),
            count <= i,
            forall|k: int|
                0 <= k < i ==> #[trigger] placements@[k] == (if old(placements)@[k].object_cid@
                    == object_cid@ {
                    Placement { healthy: verdicts@[k], ..old(placements)@[k] }
                } else {
                    old(placements)@[k]
                }),
            forall|k: int| i <= k < placements@.len() ==> #[trigger] placements@[k] == old(placements)@[k],
        decreases placements@.len() - i,
    {
        if str_equal(placements[i].object_cid.as_str(), object_cid) {
            let ghost before = placements@;
            let mut p = placements.remove(i);
            p.healthy = verdicts[i];
            placements.insert(i, p);
            assert(placements@ =~= before.update(i as int, placements@[i as int]));
            if verdicts[i] {
                count = count + 1;
            }
        }
        i = i + 1;
    }
    count
}

/// The first node with this id, if any.
pub fn find_node(nodes: &[NodeView], node_id: &str) -> (res: Option<usize>)
    ensures
        res matches Some(i) ==> i < nodes@.len() && nodes@[i as int].node_id@ == node_id@ && (forall|k: int|
            0 <= k < i ==> (#[trigger] nodes@[k]).node_id@ != node_id@),
        res is None ==> forall|k: int| 0 <= k < nodes@.len() ==> (#[trigger] nodes@[k]).node_id@ != node_id@,
{
    let mut i: usize = 0;
    while i < nodes.len()
        invariant
            0 <= i <= nodes@.len(),
            forall|k: int| 0 <= k < i ==> (#[trigger] nodes@[k]).node_id@ != node_id@,
        decreases nodes@.len() - i,
    {
        if str_equal(nodes[i].node_id.as_str(), node_id) {
            return Some(i);
        }
        i = i + 1;
    }
    None
}

/// The node ids of the healthy placements of an object.
pub open spec fn healthy_ids(s: Seq<Placement>, object_cid: Seq<char>) -> Seq<Seq<char>> {
    healthy_of(s, s.len() as int, object_cid).map_values(|i: int| s[i].node_id@)
}

/// The nodes, among the first `n`, that a repair adds: each active node not
/// yet holding a healthy replica, while fewer than `target` hold one.
pub open spec fn repair_picks(nodes: Seq<NodeView>, n: int, held: Seq<Seq<char>>, target: int) -> Seq<int>
    decreases n,
{
    if n <= 0 {
        Seq::empty()
    } else {
        let prev = repair_picks(nodes, n - 1, held, target);
        let ids = held + prev.map_values(|i: int| nodes[i].node_id@);
        if ids.len() >= target || !nodes[n - 1].active || ids.contains(nodes[n - 1].node_id@) {
            prev
        } else {
            prev.push(n - 1)
        }
    }
}

/// Plans a repair: the nodes to add a replica to, and the number of
/// healthy replicas once they hold one.
pub fn repair_plan(nodes: &[NodeView], placements: &[Placement], object_cid: &str, target: usize) -> (res:
    (Vec<usize>, usize))
    ensures
        res.0@.map_values(|i: usize| i as int) == repair_picks(
            nodes@,
            nodes@.len() as int,
            healthy_ids(placements@, object_cid@),
            target as int,
        ),
        res.1 == healthy_ids(placements@, object_cid@).len() + res.0@.len(),
{
    let ghost held = healthy_ids(placements@, object_cid@);
    let mut ids: Vec<String> = Vec::new();
    let mut k: usize = 0;
    while k < placements.len()
        invariant
            0 <= k <= placements@.len(),
            ids@.map_values(|s: String| s@) == healthy_of(placements@, k as int, object_cid@).map_values(
                |i: int| placements@[i].node_id@,
            ),
        decreases placements@.len() - k,
    {
        let ghost before = ids@;
        let ghost prev = healthy_of(placements@, k as int, object_cid@);
        if str_equal(placements[k].object_cid.as_str(), object_cid) && placements[k].healthy {
            ids.push(placements[k].node_id.clone());
            proof {
                assert(prev.push(k as int).map_values(|i: int| placements@[i].node_id@) =~= prev.map_values(
                    |i: int| placements@[i].node_id@,
                ).push(placements@[k as int].node_id@));
                assert(ids@.map_values(|s: String| s@) =~= before.map_values(|s: String| s@).push(
                    placements@[k as int].node_id@,
                ));
            }
        }
        k = k + 1;
    }
    proof {
        lemma_healthy_in_range(placements@, placements@.len() as int, object_cid@);
    }
    let mut chosen: Vec<usize> = Vec::new();
    let mut n: usize = 0;
    while n < nodes.len()
        invariant
            0 <= n <= nodes@.len(),
            chosen@.map_values(|i: usize| i as int) == repair_picks(nodes@, n as int, held, target as int),
            ids@.map_values(|s: String| s@) == held + chosen@.map_values(|i: usize| i as int).map_values(
                |i: int| nodes@[i].node_id@,
            ),
            chosen@.len() <= n,
            held.len() <= placements@.len(),
        decreases nodes@.len() - n,
    {
        let ghost prev = chosen@.map_values(|i: usize| i as int);
        if ids.len() >= target || !nodes[n].active || contains_text(&ids, &nodes[n].node_id) {
        } else {
            let ghost before_ids = ids@;
            chosen.push(n);
            ids.push(nodes[n].node_id.clone());
            proof {
                assert(ids@.map_values(|s: String| s@) =~= before_ids.map_values(|s: String| s@).push(
                    nodes@[n as int].node_id@,
                ));
                assert(chosen@.map_values(|i: usize| i as int) =~= prev.push(n as int));
                assert(prev.push(n as int).map_values(|i: int| nodes@[i].node_id@) =~= prev.map_values(
                    |i: int| nodes@[i].node_id@,
                ).push(nodes@[n as int].node_id@));
                assert(ids@.map_values(|s: String| s@) =~= held + prev.push(n as int).map_values(
                    |i: int| nodes@[i].node_id@,
                ));
            }
        }
        n = n + 1;
    }
    let count = ids.len();
    (chosen, count)
}

/// The indices `healthy_of` gives are in range.
pub proof fn lemma_healthy_in_range(s: Seq<Placement>, n: int, object_cid: Seq<char>)
    requires
        n <= s.len(),
    ensures
        forall|k: int|
            0 <= k < healthy_of(s, n, object_cid).len() ==> 0 <= #[trigger] healthy_of(s, n, object_cid)[k] < n,
        healthy_of(s, n, object_cid).len() <= if n < 0 { 0 } else { n },
    decreases n,
{
    if n > 0 {
        lemma_healthy_in_range(s, n - 1, object_cid);
    }
}

/// Replicas go to independent failure domains: no two nodes a replication
/// plan chooses share a failure domain, and no more than the target are
/// chosen.
pub proof fn law_replicas_in_distinct_domains(nodes: Seq<NodeView>, n: int, target: int)
    requires
        0 <= n <= nodes.len(),
    ensures
        forall|a: int, b: int|
            0 <= a < b < replica_picks(nodes, n, target).len() ==> nodes[replica_picks(nodes, n, target)[a]].failure_domain@
                != nodes[replica_picks(nodes, n, target)[b]].failure_domain@,
        forall|k: int|
            0 <= k < replica_picks(nodes, n, target).len() ==> 0 <= #[trigger] replica_picks(nodes, n, target)[k] < n
                && nodes[replica_picks(nodes, n, target)[k]].active,
        target > 0 ==> replica_picks(nodes, n, target).len() <= target,
    decreases n,
{
    if n > 0 {
        law_replicas_in_distinct_domains(nodes, n - 1, target);
        let prev = replica_picks(nodes, n - 1, target);
        let d = domains_of(nodes, prev);
        if !((target > 0 && prev.len() == target) || !nodes[n - 1].active || d.contains(
            nodes[n - 1].failure_domain@,
        )) {
            let cur = prev.push(n - 1);
            assert forall|a: int, b: int| 0 <= a < b < cur.len() implies nodes[cur[a]].failure_domain@
                != nodes[cur[b]].failure_domain@ by {
                if b == cur.len() - 1 {
                    assert(cur[a] == prev[a]);
                    assert(d[a] == nodes[prev[a]].failure_domain@);
                    if nodes[cur[a]].failure_domain@ == nodes[n - 1].failure_domain@ {
                        assert(d.contains(nodes[n - 1].failure_domain@));
                    }
                } else {
                    assert(cur[a] == prev[a] && cur[b] == prev[b]);
                }
            }
        }
    }
}

} // verus!
