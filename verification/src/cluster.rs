//! Cluster nodes: pairing checks, node names, endpoints, and where files
//! distributed to a local node land.

use vstd::prelude::*;

use crate::status::{Code, Status};
use crate::listing::{sort_newest_first, sorted_newest_first, Timestamped};
use crate::text::{
    all_ws, chars_of, dec, eq_str, is_blank, lemma_trim_start_char_skip, push_u64, slug_spec, slug_text,
    string_of, trim, trim_seq, trim_start_char, views,
};

verus! {

pub const DEFAULT_CLUSTER_ROOT: &'static str = "/tmp/rustpanel/cluster";

/// The cluster service; it keeps no state of its own.
#[derive(Clone, Copy, Debug, Default)]
pub struct ClusterServiceImpl;

/// Why a pairing secret is refused, if it is: a blank secret always; one
/// that differs from the configured secret when one is configured.
pub open spec fn pairing_error(secret: Seq<char>, expected: Option<Seq<char>>) -> Option<(Code, Seq<char>)> {
    if all_ws(secret) {
        Some((Code::InvalidArgument, "pairing secret is required"@))
    } else {
        match expected {
            Some(e) => if trim_seq(secret) != e { Some((Code::PermissionDenied, "invalid pairing secret"@)) } else { None },
            None => None,
        }
    }
}

/// Checks a pairing secret against the configured one, if the host
/// configures one.
pub fn validate_pairing_secret(secret: &str, expected: Option<&str>) -> (r: Result<(), Status>)
    ensures
        match pairing_error(secret@, match expected { Some(e) => Some(e@), None => None }) {
            None => r is Ok,
            Some((c, m)) => r matches Err(e) && e.code == c && e.message@ == m,
        },
{
    if is_blank(secret) {
        return Err(Status::invalid_argument("pairing secret is required"));
    }
    match expected {
        Some(e) => {
            let t = trim(secret);
            if !eq_str(t.as_str(), e) {
                return Err(Status::new(Code::PermissionDenied, "invalid pairing secret"));
            }
        },
        None => {},
    }
    Ok(())
}

/// A node's endpoint, trimmed; a blank one is refused.
pub fn validate_endpoint(endpoint: &str) -> (r: Result<String, Status>)
    ensures
        all_ws(endpoint@) ==> (r matches Err(e) && e.code == Code::InvalidArgument && e.message@ == "node endpoint is required"@),
        !all_ws(endpoint@) ==> (r matches Ok(s) && s@ == trim_seq(endpoint@)),
{
    if is_blank(endpoint) {
        return Err(Status::invalid_argument("node endpoint is required"));
    }
    Ok(trim(endpoint))
}

/// A node name fit for paths (see [`slug_spec`]); nothing left of it is
/// refused.
pub fn sanitize_node_name(name: &str) -> (r: Result<String, Status>)
    ensures
        slug_spec(name@).len() == 0 ==> (r matches Err(e) && e.code == Code::InvalidArgument
            && e.message@ == "node name is required"@),
        slug_spec(name@).len() > 0 ==> (r matches Ok(s) && s@ == slug_spec(name@)),
{
    let sanitized = slug_text(name);
    if sanitized.as_str().is_empty() {
        Err(Status::invalid_argument("node name is required"))
    } else {
        Ok(sanitized)
    }
}

/// The inbox directory of a local node under a cluster root.
pub fn node_inbox(root: &str, node_id: &str) -> (r: String)
    ensures
        r@ == root@ + "/inbox/"@ + node_id@,
{
    let mut p = root.to_string();
    p.append("/inbox/");
    p.append(node_id);
    p
}

/// The inbox directory of a local node under the default cluster root.
pub fn local_node_inbox(node_id: &str) -> (r: String)
    ensures
        r@ == DEFAULT_CLUSTER_ROOT@ + "/inbox/"@ + node_id@,
{
    node_inbox(DEFAULT_CLUSTER_ROOT, node_id)
}

/// A paired node as the store keeps it.
#[derive(Clone, Debug)]
pub struct StoredClusterNode {
    pub id: String,
    pub name: String,
    pub endpoint: String,
    pub status: String,
    pub node_secret: String,
    pub last_heartbeat_seconds: u64,
    pub created_at_seconds: u64,
}

/// A paired node as clients see it: without its secret.
#[derive(Clone, Debug)]
pub struct ClusterNode {
    pub id: String,
    pub name: String,
    pub endpoint: String,
    pub status: String,
    pub last_heartbeat_seconds: u64,
    pub created_at_seconds: u64,
}

impl StoredClusterNode {
    pub fn into_proto(self) -> (r: ClusterNode)
        ensures
            r.id == self.id && r.name == self.name && r.endpoint == self.endpoint && r.status == self.status
                && r.last_heartbeat_seconds == self.last_heartbeat_seconds
                && r.created_at_seconds == self.created_at_seconds,
    {
        ClusterNode {
            id: self.id,
            name: self.name,
            endpoint: self.endpoint,
            status: self.status,
            last_heartbeat_seconds: self.last_heartbeat_seconds,
            created_at_seconds: self.created_at_seconds,
        }
    }
}

/// A newly paired node: random id and secret, status `paired`, created and
/// last heard of `now`.
pub fn paired_node(name: String, endpoint: String, now: u64) -> (r: StoredClusterNode)
    ensures
        r.name == name && r.endpoint == endpoint && r.status@ == "paired"@,
        r.id@.len() == 36 && r.node_secret@.len() == 36,
        r.last_heartbeat_seconds == now && r.created_at_seconds == now,
{
    StoredClusterNode {
        id: crate::crypto::new_uuid(),
        name,
        endpoint,
        status: "paired".to_string(),
        node_secret: crate::crypto::new_uuid(),
        last_heartbeat_seconds: now,
        created_at_seconds: now,
    }
}

/// A file handed to a node.
#[derive(Clone, Debug)]
pub struct StoredDistributionRecord {
    pub id: String,
    pub node_id: String,
    pub path: String,
    pub status: String,
    pub message: String,
    pub created_at_seconds: u64,
}

/// Whether a node is served from this host's file system.
pub open spec fn is_local_endpoint(endpoint: Seq<char>) -> bool {
    (endpoint.len() >= 7 && endpoint.take(7) == "file://"@) || endpoint == "local"@
}

pub fn local_endpoint(endpoint: &str) -> (r: bool)
    ensures
        r == is_local_endpoint(endpoint@),
{
    proof {
        reveal_strlit("file://");
    }
    let s = crate::text::starts_with(endpoint, "file://");
    proof {
        if s {
            assert(endpoint@.subrange(0, 7) == endpoint@.take(7));
        } else if endpoint@.len() >= 7 {
            assert(endpoint@.subrange(0, 7) == endpoint@.take(7));
        }
    }
    s || eq_str(endpoint, "local")
}


impl Timestamped for StoredDistributionRecord {
    open spec fn stamp_spec(&self) -> u64 {
        self.created_at_seconds
    }

    fn stamp(&self) -> (r: u64) {
        self.created_at_seconds
    }
}

pub open spec fn other_name(name: Seq<char>) -> spec_fn(StoredClusterNode) -> bool {
    |n: StoredClusterNode| n.name@ != name
}

/// Keeps a newly paired node in place of any with the same name.
pub fn register_node(nodes: &mut Vec<StoredClusterNode>, stored: StoredClusterNode)
    ensures
        final(nodes)@ == old(nodes)@.filter(other_name(stored.name@)).push(stored),
{
    let ghost orig = nodes@;
    let mut rest: Vec<StoredClusterNode> = Vec::new();
    std::mem::swap(&mut rest, nodes);
    let mut kept: Vec<StoredClusterNode> = Vec::new();
    let ghost mut i: int = 0;
    assert(orig.skip(0) == orig);
    assert(orig.take(0) == Seq::<StoredClusterNode>::empty());
    while rest.len() > 0
        invariant
            0 <= i <= orig.len(),
            rest@ == orig.skip(i),
            kept@ == orig.take(i).filter(other_name(stored.name@)),
        decreases rest.len(),
    {
        let n = rest.remove(0);
        proof {
            assert(n == orig[i]);
            assert(orig.take(i + 1) == orig.take(i).push(n));
            orig.take(i).lemma_filter_push(n, other_name(stored.name@));
            assert(orig.skip(i + 1) == orig.skip(i).remove(0));
        }
        if !eq_str(n.name.as_str(), stored.name.as_str()) {
            kept.push(n);
        }
        proof {
            i = i + 1;
        }
    }
    assert(orig.take(i) == orig);
    kept.push(stored);
    *nodes = kept;
}

/// The node after a heartbeat at `now`: degraded when overloaded, online
/// otherwise.
pub open spec fn after_heartbeat(old: StoredClusterNode, new: StoredClusterNode, overloaded: bool, now: u64) -> bool {
    &&& new.id == old.id
    &&& new.name == old.name
    &&& new.endpoint == old.endpoint
    &&& new.node_secret == old.node_secret
    &&& new.created_at_seconds == old.created_at_seconds
    &&& new.status@ == (if overloaded { "degraded"@ } else { "online"@ })
    &&& new.last_heartbeat_seconds == now
}

/// A node reports in: the first node with the id must present its secret;
/// it is then marked degraded (load above 10) or online and heard of now.
pub fn heartbeat(nodes: &mut Vec<StoredClusterNode>, node_id: &str, node_secret: &str, overloaded: bool, now: u64) -> (r: Result<usize, Status>)
    ensures
        final(nodes)@.len() == old(nodes)@.len(),
        (forall|j: int| 0 <= j < old(nodes)@.len() ==> (#[trigger] old(nodes)@[j]).id@ != node_id@) ==> (r matches Err(e)
            && e.code == Code::NotFound && e.message@ == "cluster node not found"@),
        r matches Ok(i) ==> {
            &&& i < old(nodes)@.len()
            &&& old(nodes)@[i as int].id@ == node_id@
            &&& (forall|j: int| 0 <= j < i ==> (#[trigger] old(nodes)@[j]).id@ != node_id@)
            &&& old(nodes)@[i as int].node_secret@ == node_secret@
            &&& after_heartbeat(old(nodes)@[i as int], final(nodes)@[i as int], overloaded, now)
            &&& forall|j: int| 0 <= j < old(nodes)@.len() && j != i ==> final(nodes)@[j] == old(nodes)@[j]
        },
        r is Err ==> final(nodes)@ == old(nodes)@,
        (exists|i: int| 0 <= i < old(nodes)@.len() && (#[trigger] old(nodes)@[i]).id@ == node_id@
            && (forall|j: int| 0 <= j < i ==> (#[trigger] old(nodes)@[j]).id@ != node_id@)
            && old(nodes)@[i].node_secret@ != node_secret@) ==> (r matches Err(e)
            && e.code == Code::PermissionDenied && e.message@ == "invalid node secret"@),
        (exists|i: int| 0 <= i < old(nodes)@.len() && (#[trigger] old(nodes)@[i]).id@ == node_id@
            && (forall|j: int| 0 <= j < i ==> (#[trigger] old(nodes)@[j]).id@ != node_id@)
            && old(nodes)@[i].node_secret@ == node_secret@) ==> r is Ok,
{
    let mut i: usize = 0;
    while i < nodes.len() && !eq_str(nodes[i].id.as_str(), node_id)
        invariant
            i <= nodes@.len(),
            forall|j: int| 0 <= j < i ==> (#[trigger] nodes@[j]).id@ != node_id@,
        decreases nodes@.len() - i,
    {
        i += 1;
    }
    if i >= nodes.len() {
        return Err(Status::new(Code::NotFound, "cluster node not found"));
    }
    if !eq_str(nodes[i].node_secret.as_str(), node_secret) {
        return Err(Status::new(Code::PermissionDenied, "invalid node secret"));
    }
    let ghost before = nodes@;
    let mut node = nodes.remove(i);
    node.status = if overloaded { "degraded".to_string() } else { "online".to_string() };
    node.last_heartbeat_seconds = now;
    nodes.insert(i, node);
    proof {
        assert forall|j: int| 0 <= j < before.len() && j != i implies nodes@[j] == before[j] by {
            if j < i {
                assert(before.remove(i as int)[j] == before[j]);
            } else {
                assert(before.remove(i as int)[j - 1] == before[j]);
            }
        }
    }
    Ok(i)
}

/// The nodes a file goes to: those requested, or every node when none is.
pub fn distribution_targets(nodes: &Vec<StoredClusterNode>, requested: Vec<String>) -> (r: Vec<String>)
    ensures
        requested@.len() > 0 ==> r@ == requested@,
        requested@.len() == 0 ==> views(r@) == nodes@.map_values(|n: StoredClusterNode| n.id@),
{
    if requested.len() > 0 {
        return requested;
    }
    let mut ids: Vec<String> = Vec::new();
    let mut i: usize = 0;
    while i < nodes.len()
        invariant
            i <= nodes@.len(),
            views(ids@) == nodes@.take(i as int).map_values(|n: StoredClusterNode| n.id@),
        decreases nodes@.len() - i,
    {
        let ghost before = ids@;
        ids.push(nodes[i].id.clone());
        assert(views(ids@) =~= views(before).push(nodes@[i as int].id@));
        assert(nodes@.take(i + 1).map_values(|n: StoredClusterNode| n.id@)
            =~= nodes@.take(i as int).map_values(|n: StoredClusterNode| n.id@).push(nodes@[i as int].id@));
        i += 1;
    }
    assert(nodes@.take(i as int) == nodes@);
    ids
}

/// The first node with the id, or the distribution fails.
pub fn target_node<'a>(nodes: &'a Vec<StoredClusterNode>, node_id: &str) -> (r: Result<&'a StoredClusterNode, Status>)
    ensures
        match r {
            Ok(n) => exists|i: int| 0 <= i < nodes@.len() && nodes@[i] == *n && n.id@ == node_id@
                && forall|j: int| 0 <= j < i ==> (#[trigger] nodes@[j]).id@ != node_id@,
            Err(e) => e.code == Code::NotFound && e.message@ == "target cluster node not found"@
                && forall|i: int| 0 <= i < nodes@.len() ==> (#[trigger] nodes@[i]).id@ != node_id@,
        },
{
    let mut i: usize = 0;
    while i < nodes.len()
        invariant
            i <= nodes@.len(),
            forall|j: int| 0 <= j < i ==> (#[trigger] nodes@[j]).id@ != node_id@,
        decreases nodes@.len() - i,
    {
        if eq_str(nodes[i].id.as_str(), node_id) {
            return Ok(&nodes[i]);
        }
        i += 1;
    }
    Err(Status::new(Code::NotFound, "target cluster node not found"))
}

/// A distribution needs a target path.
pub fn require_distribution_path(path: &str) -> (r: Result<(), Status>)
    ensures
        all_ws(path@) ==> (r matches Err(e) && e.code == Code::InvalidArgument && e.message@ == "target path is required"@),
        !all_ws(path@) ==> r is Ok,
{
    if is_blank(path) {
        return Err(Status::invalid_argument("target path is required"));
    }
    Ok(())
}

/// Where a file lands in a local node's inbox: the path without its
/// leading slashes, under the inbox.
pub fn inbox_target(inbox: &str, path: &str) -> (r: String)
    ensures
        r@ == inbox@ + "/"@ + trim_start_char(path@, '/'),
{
    let v = chars_of(path);
    let mut lo: usize = 0;
    while lo < v.len() && v[lo] == '/'
        invariant
            lo <= v.len(),
            forall|j: int| 0 <= j < lo ==> v@[j] == '/',
        decreases v.len() - lo,
    {
        lo += 1;
    }
    proof {
        lemma_trim_start_char_skip(v@, '/', lo as int);
        if lo < v.len() {
            assert(trim_start_char(v@.skip(lo as int), '/') == v@.skip(lo as int));
        } else {
            assert(v@.skip(lo as int).len() == 0);
        }
    }
    let rest = string_of(&v, lo, v.len());
    assert(rest@ == v@.skip(lo as int));
    let mut s = inbox.to_string();
    s.append("/");
    s.append(rest.as_str());
    s
}

/// The message of a file queued for a remote node.
pub fn queued_message(endpoint: &str) -> (r: String)
    ensures
        r@ == "queued for remote endpoint "@ + endpoint@,
{
    let mut s = "queued for remote endpoint ".to_string();
    s.append(endpoint);
    s
}

/// The audit text of a distribution.
pub fn distribution_audit_text(path: &str, count: usize) -> (r: String)
    ensures
        r@ == "distributed "@ + path@ + " to "@ + dec(count as nat) + " node(s)"@,
{
    let mut s = "distributed ".to_string();
    s.append(path);
    s.append(" to ");
    push_u64(&mut s, count as u64);
    s.append(" node(s)");
    s
}

/// The distribution records for listing: newest first, at most `limit`
/// (100 when 0).
pub fn recent_distributions(records: Vec<StoredDistributionRecord>, limit: u32) -> (r: Vec<StoredDistributionRecord>)
    ensures
        ({
            let cap: int = if limit == 0 { 100 } else { limit as int };
            exists|sorted: Seq<StoredDistributionRecord>| sorted_newest_first(sorted, records@)
                && #[trigger] r@ == sorted.take(if sorted.len() < cap { sorted.len() as int } else { cap })
        }),
{
    let cap: usize = if limit == 0 { 100 } else { limit as usize };
    let mut sorted = sort_newest_first(records);
    let ghost all = sorted@;
    if sorted.len() > cap {
        sorted.truncate(cap);
    }
    assert(sorted@ == all.take(if all.len() < cap { all.len() as int } else { cap as int }));
    sorted
}

} // verus!
