//! Nodes that host computers, and the health of services.

use crate::ids::{base32_text, ulid_text, NodeId};
use crate::placements::NodeCapacity;
use crate::time::{moved, Duration, Timestamp, MIN_NANOS};
use vstd::prelude::*;

verus! {

/// A node counts as dead after this many seconds without a heartbeat.
pub const NODE_STALE_SECONDS: u64 = 30;

/// A service is stale after this many seconds without a heartbeat.
pub const SERVICE_STALE_SECONDS: u64 = 90;

/// Stale services are kept for this many seconds, for diagnosis.
pub const SERVICE_EXPIRE_SECONDS: u64 = 600;

/// A node with what it advertises.
#[derive(Clone, Copy, Debug, PartialEq, Eq, Structural)]
pub struct NodeRecord {
    pub node_id: NodeId,
    pub capacity: NodeCapacity,
    pub last_heartbeat: Timestamp,
}

/// The record after a heartbeat came in: a delayed one never replaces a newer one.
pub open spec fn heard(previous: Option<NodeRecord>, record: NodeRecord) -> NodeRecord {
    match previous {
        Some(before) if before.last_heartbeat.nanos > record.last_heartbeat.nanos => before,
        _ => record,
    }
}

/// Registers a node or refreshes its heartbeat.
pub fn put_node(previous: &Option<NodeRecord>, record: NodeRecord) -> (kept: NodeRecord)
    ensures
        kept == heard(*previous, record),
{
    match previous {
        Some(before) if before.last_heartbeat.nanos > record.last_heartbeat.nanos => *before,
        _ => record,
    }
}

/// Heartbeats never go back in time, whatever order they arrive in.
pub proof fn heartbeats_never_go_back(previous: Option<NodeRecord>, record: NodeRecord)
    ensures
        heard(previous, record).last_heartbeat.nanos >= record.last_heartbeat.nanos,
        previous matches Some(before) ==> heard(previous, record).last_heartbeat.nanos
            >= before.last_heartbeat.nanos,
{
}

/// Whether a node was heard of since a moment.
pub open spec fn alive_since(node: NodeRecord, since: Timestamp) -> bool {
    node.last_heartbeat.nanos >= since.nanos
}

/// The live nodes of a page, in order.
pub open spec fn live_nodes(page: Seq<NodeRecord>, since: Timestamp) -> Seq<NodeRecord>
    decreases page.len(),
{
    if page.len() == 0 {
        Seq::empty()
    } else if alive_since(page.last(), since) {
        live_nodes(page.drop_last(), since).push(page.last())
    } else {
        live_nodes(page.drop_last(), since)
    }
}

/// The live nodes of a page and the cursor after it. The cursor moves past dead nodes too, so that
/// a scan reaches every page.
pub fn scan_live_nodes(page: &Vec<NodeRecord>, since: Timestamp) -> (found: (Vec<NodeRecord>, Option<NodeId>))
    ensures
        found.0@ == live_nodes(page@, since),
        found.1 == if page@.len() == 0 {
            None
        } else {
            Some(page@.last().node_id)
        },
{
    let mut live: Vec<NodeRecord> = Vec::new();
    let mut cursor: Option<NodeId> = None;
    let mut i: usize = 0;
    while i < page.len()
        invariant
            i <= page.len(),
            live@ == live_nodes(page@.take(i as int), since),
            cursor == if i == 0 {
                None
            } else {
                Some(page@[i - 1].node_id)
            },
        decreases page.len() - i,
    {
        assert(page@.take(i + 1).drop_last() =~= page@.take(i as int));
        cursor = Some(page[i].node_id);
        if page[i].last_heartbeat.nanos >= since.nanos {
            live.push(page[i]);
        }
        i += 1;
    }
    assert(page@.take(i as int) =~= page@);
    (live, cursor)
}

/// Place of the first node that hosts computers, from `from` on.
pub open spec fn first_sandbox(nodes: Seq<NodeRecord>, from: int) -> Option<int>
    decreases nodes.len() - from,
{
    if from >= nodes.len() {
        None
    } else if nodes[from].capacity.sandbox {
        Some(from)
    } else {
        first_sandbox(nodes, from + 1)
    }
}

/// The first node that hosts computers.
pub fn sandbox_node(nodes: &Vec<NodeRecord>) -> (node: Option<NodeId>)
    ensures
        node == match first_sandbox(nodes@, 0) {
            Some(at) => Some(nodes@[at].node_id),
            None => None,
        },
{
    let mut i: usize = 0;
    while i < nodes.len()
        invariant
            i <= nodes.len(),
            first_sandbox(nodes@, 0) == first_sandbox(nodes@, i as int),
        decreases nodes.len() - i,
    {
        if nodes[i].capacity.sandbox {
            return Some(nodes[i].node_id);
        }
        i += 1;
    }
    None
}

// ---------------------------------------------------------------------------------------------
// Services
// ---------------------------------------------------------------------------------------------

/// What a service does.
#[derive(Clone, Copy, Debug, PartialEq, Eq, Structural)]
pub enum ServiceRole {
    Scheduler,
    Worker,
    Gateway,
    Api,
    Node,
}

/// What a service says of itself.
#[derive(Clone, Debug, PartialEq, Eq)]
pub enum ServiceDetail {
    Partitions(Vec<u16>),
    Providers(Vec<String>),
    Capacity(NodeCapacity),
    Nothing,
}

/// The last heartbeat of a service.
#[derive(Clone, Debug, PartialEq, Eq)]
pub struct ServiceHeartbeat {
    pub role: ServiceRole,
    pub instance_id: String,
    pub version: String,
    pub host: String,
    pub started_at: Timestamp,
    pub last_seen: Timestamp,
    pub detail: ServiceDetail,
}

/// A service with whether it is alive.
pub struct ServiceHealth {
    pub heartbeat: ServiceHeartbeat,
    pub alive: bool,
}

/// Whether a heartbeat is to be stored: a delayed one never replaces a newer one.
pub fn put_service_heartbeat(previous: &Option<ServiceHeartbeat>, record: &ServiceHeartbeat) -> (written: bool)
    ensures
        written == match *previous {
            Some(before) => before.last_seen.nanos <= record.last_seen.nanos,
            None => true,
        },
{
    match previous {
        Some(before) => before.last_seen.nanos <= record.last_seen.nanos,
        None => true,
    }
}

/// The moment that many seconds before now, or the earliest there is.
pub open spec fn seconds_before(now: Timestamp, seconds: u64) -> Timestamp {
    match moved(now.nanos as int, -(seconds * 1_000_000_000)) {
        Some(since) => since,
        None => Timestamp { nanos: MIN_NANOS },
    }
}

fn before(now: Timestamp, seconds: u64) -> (since: Timestamp)
    ensures
        since == seconds_before(now, seconds),
{
    match now.checked_sub(Duration::from_secs(seconds)) {
        Some(since) => since,
        None => Timestamp::earliest(),
    }
}

/// Whether a heartbeat is what a node's record is shown as: version and host are not known, and
/// the last heartbeat stands for the start.
pub open spec fn shows_node(heartbeat: ServiceHeartbeat, node: NodeRecord) -> bool {
    &&& heartbeat.role == ServiceRole::Node
    &&& heartbeat.instance_id@ == base32_text(node.node_id.0 as nat, 26)
    &&& heartbeat.version@ == "unknown"@
    &&& heartbeat.host@ == "unknown"@
    &&& heartbeat.started_at == node.last_heartbeat
    &&& heartbeat.last_seen == node.last_heartbeat
    &&& heartbeat.detail == ServiceDetail::Capacity(node.capacity)
}

/// Whether a service is alive at a moment.
pub open spec fn service_alive(heartbeat: ServiceHeartbeat, now: Timestamp) -> bool {
    heartbeat.last_seen.nanos >= seconds_before(now, SERVICE_STALE_SECONDS).nanos
}

/// All services with their health: those with heartbeats of their own in order, then the nodes.
pub fn list_services_at(heartbeats: Vec<ServiceHeartbeat>, nodes: &Vec<NodeRecord>, now: Timestamp) -> (services: Vec<ServiceHealth>)
    ensures
        services@.len() == heartbeats@.len() + nodes@.len(),
        forall|i: int|
            0 <= i < heartbeats@.len() ==> (#[trigger] services@[i]).heartbeat == heartbeats@[i],
        forall|i: int|
            heartbeats@.len() <= i < services@.len() ==> shows_node(
                (#[trigger] services@[i]).heartbeat,
                nodes@[i - heartbeats@.len()],
            ),
        forall|i: int|
            0 <= i < services@.len() ==> (#[trigger] services@[i]).alive == service_alive(
                services@[i].heartbeat,
                now,
            ),
{
    let since = before(now, SERVICE_STALE_SECONDS);
    let ghost given = heartbeats@;
    let mut left = heartbeats;
    let mut reversed: Vec<ServiceHeartbeat> = Vec::new();
    while left.len() > 0
        invariant
            left@.len() + reversed@.len() == given.len(),
            left@ =~= given.take(left@.len() as int),
            forall|j: int|
                0 <= j < reversed@.len() ==> (#[trigger] reversed@[j]) == given[given.len() - 1 - j],
        decreases left@.len(),
    {
        if let Some(heartbeat) = left.pop() {
            reversed.push(heartbeat);
        }
    }
    let mut services: Vec<ServiceHealth> = Vec::new();
    while reversed.len() > 0
        invariant
            since == seconds_before(now, SERVICE_STALE_SECONDS),
            services@.len() + reversed@.len() == given.len(),
            forall|j: int|
                0 <= j < reversed@.len() ==> (#[trigger] reversed@[j]) == given[given.len() - 1 - j],
            forall|j: int|
                0 <= j < services@.len() ==> (#[trigger] services@[j]).heartbeat == given[j]
                    && services@[j].alive == service_alive(given[j], now),
        decreases reversed@.len(),
    {
        if let Some(heartbeat) = reversed.pop() {
            let alive = heartbeat.last_seen.nanos >= since.nanos;
            services.push(ServiceHealth { heartbeat, alive });
        }
    }
    let mut i: usize = 0;
    while i < nodes.len()
        invariant
            i <= nodes.len(),
            since == seconds_before(now, SERVICE_STALE_SECONDS),
            services@.len() == given.len() + i,
            forall|j: int| 0 <= j < given.len() ==> (#[trigger] services@[j]).heartbeat == given[j],
            forall|j: int|
                given.len() <= j < services@.len() ==> shows_node(
                    (#[trigger] services@[j]).heartbeat,
                    nodes@[j - given.len()],
                ),
            forall|j: int|
                0 <= j < services@.len() ==> (#[trigger] services@[j]).alive == service_alive(
                    services@[j].heartbeat,
                    now,
                ),
        decreases nodes.len() - i,
    {
        let node = nodes[i];
        let heartbeat = ServiceHeartbeat {
            role: ServiceRole::Node,
            instance_id: ulid_text(node.node_id.0),
            version: "unknown".to_owned(),
            host: "unknown".to_owned(),
            started_at: node.last_heartbeat,
            last_seen: node.last_heartbeat,
            detail: ServiceDetail::Capacity(node.capacity),
        };
        let alive = heartbeat.last_seen.nanos >= since.nanos;
        services.push(ServiceHealth { heartbeat, alive });
        i += 1;
    }
    services
}

/// Places of services that were last seen before a moment, in order.
pub open spec fn seen_before(seen: Seq<Timestamp>, since: Timestamp, count: nat) -> Seq<int>
    decreases count,
{
    if count == 0 {
        Seq::empty()
    } else if seen[count - 1].nanos < since.nanos {
        seen_before(seen, since, (count - 1) as nat).push(count - 1)
    } else {
        seen_before(seen, since, (count - 1) as nat)
    }
}

/// Places of the services to remove, by when each was last seen: those beyond the time for
/// diagnosis. Nodes are not among them.
pub fn expire_services_at(seen: &Vec<Timestamp>, now: Timestamp) -> (expired: Vec<usize>)
    ensures
        expired@.map_values(|i: usize| i as int) == seen_before(
            seen@,
            seconds_before(now, SERVICE_EXPIRE_SECONDS),
            seen@.len(),
        ),
{
    let since = before(now, SERVICE_EXPIRE_SECONDS);
    let mut expired: Vec<usize> = Vec::new();
    assert(expired@.map_values(|i: usize| i as int) =~= seen_before(seen@, since, 0));
    let mut i: usize = 0;
    while i < seen.len()
        invariant
            i <= seen.len(),
            expired@.map_values(|i: usize| i as int) == seen_before(seen@, since, i as nat),
        decreases seen.len() - i,
    {
        if seen[i].nanos < since.nanos {
            let ghost held = expired@.map_values(|i: usize| i as int);
            expired.push(i);
            assert(expired@.map_values(|i: usize| i as int) =~= held.push(i as int));
        }
        i += 1;
    }
    expired
}

/// Services are shown as stale before they are removed: what is removed was not alive.
pub proof fn removed_services_were_stale(heartbeat: ServiceHeartbeat, now: Timestamp)
    requires
        now.valid(),
        heartbeat.last_seen.nanos < seconds_before(now, SERVICE_EXPIRE_SECONDS).nanos,
    ensures
        !service_alive(heartbeat, now),
{
}

/// The record that is kept is one of the two, and the one that was heard last.
pub proof fn the_latest_heartbeat_is_kept(previous: Option<NodeRecord>, record: NodeRecord, kept: NodeRecord)
    requires
        call_ensures(put_node, (&previous, record), kept),
    ensures
        kept == record || previous == Some(kept),
        kept.last_heartbeat.nanos >= record.last_heartbeat.nanos,
        previous matches Some(before) ==> kept.last_heartbeat.nanos >= before.last_heartbeat.nanos,
        previous is None ==> kept == record,
        previous matches Some(before) ==> (before.last_heartbeat.nanos <= record.last_heartbeat.nanos ==> kept
            == record),
{
}

/// A scan finds the nodes of a page that were heard since then, all of them, and goes on behind the
/// last node of the page.
pub proof fn scans_find_the_live_nodes(page: Vec<NodeRecord>, since: Timestamp, found: (Vec<NodeRecord>, Option<NodeId>))
    requires
        call_ensures(scan_live_nodes, (&page, since), found),
    ensures
        page@.len() == 0 ==> found.0@.len() == 0 && found.1 is None,
        page@.len() > 0 ==> found.1 == Some(page@[page@.len() - 1].node_id),
        found.0@.len() <= page@.len(),
        forall|i: int|
            0 <= i < page@.len() && (#[trigger] page@[i]).last_heartbeat.nanos >= since.nanos
                ==> found.0@.contains(page@[i]),
        forall|k: int|
            0 <= k < found.0@.len() ==> (#[trigger] found.0@[k]).last_heartbeat.nanos >= since.nanos
                && page@.contains(found.0@[k]),
{
    live_nodes_are_those(page@, since);
}

/// Pages add up: the live nodes of two pages one after the other are those of the first and then
/// those of the second.
pub proof fn live_nodes_keep_their_order(left: Seq<NodeRecord>, right: Seq<NodeRecord>, since: Timestamp)
    ensures
        live_nodes(left + right, since) == live_nodes(left, since) + live_nodes(right, since),
    decreases right.len(),
{
    if right.len() == 0 {
        assert(left + right =~= left);
        assert(live_nodes(left, since) + live_nodes(right, since) =~= live_nodes(left, since));
    } else {
        live_nodes_keep_their_order(left, right.drop_last(), since);
        assert((left + right).drop_last() =~= left + right.drop_last());
        assert((left + right).last() == right.last());
        assert(live_nodes(left + right, since) =~= live_nodes(left, since) + live_nodes(right, since));
    }
}

proof fn live_nodes_are_those(page: Seq<NodeRecord>, since: Timestamp)
    ensures
        live_nodes(page, since).len() <= page.len(),
        forall|i: int|
            0 <= i < page.len() && (#[trigger] page[i]).last_heartbeat.nanos >= since.nanos ==> live_nodes(
                page,
                since,
            ).contains(page[i]),
        forall|k: int|
            0 <= k < live_nodes(page, since).len() ==> (#[trigger] live_nodes(
                page,
                since,
            )[k]).last_heartbeat.nanos >= since.nanos && page.contains(live_nodes(page, since)[k]),
    decreases page.len(),
{
    if page.len() > 0 {
        let rest = page.drop_last();
        live_nodes_are_those(rest, since);
        let before = live_nodes(rest, since);
        let all = live_nodes(page, since);
        assert forall|i: int| 0 <= i < page.len() && (#[trigger] page[i]).last_heartbeat.nanos >= since.nanos implies all.contains(
            page[i],
        ) by {
            if i < rest.len() {
                assert(rest[i] == page[i]);
                let k = choose|k: int| 0 <= k < before.len() && before[k] == page[i];
                assert(all[k] == page[i]);
            } else {
                assert(all[all.len() - 1] == page[i]);
            }
        }
        assert forall|k: int| 0 <= k < all.len() implies (#[trigger] all[k]).last_heartbeat.nanos >= since.nanos
            && page.contains(all[k]) by {
            if k < before.len() {
                assert(all[k] == before[k]);
                let i = choose|i: int| 0 <= i < rest.len() && rest[i] == before[k];
                assert(page[i] == all[k]);
            } else {
                assert(page[page.len() - 1] == all[k]);
            }
        }
    }
}

/// The chosen node can run sandboxes, and no node before it can; none is chosen only where none can.
pub proof fn the_first_sandbox_node_is_chosen(nodes: Vec<NodeRecord>, node: Option<NodeId>)
    requires
        call_ensures(sandbox_node, (&nodes,), node),
    ensures
        node is None <==> forall|i: int| 0 <= i < nodes@.len() ==> !(#[trigger] nodes@[i]).capacity.sandbox,
        node matches Some(id) ==> exists|i: int|
            0 <= i < nodes@.len() && (#[trigger] nodes@[i]).node_id == id && nodes@[i].capacity.sandbox
                && forall|j: int| 0 <= j < i ==> !(#[trigger] nodes@[j]).capacity.sandbox,
{
    first_sandbox_is_first(nodes@, 0);
}

proof fn first_sandbox_is_first(nodes: Seq<NodeRecord>, from: int)
    requires
        0 <= from,
    ensures
        match first_sandbox(nodes, from) {
            Some(i) => from <= i < nodes.len() && nodes[i].capacity.sandbox && forall|j: int|
                from <= j < i ==> !(#[trigger] nodes[j]).capacity.sandbox,
            None => forall|j: int| from <= j < nodes.len() ==> !(#[trigger] nodes[j]).capacity.sandbox,
        },
    decreases nodes.len() - from,
{
    if from < nodes.len() && !nodes[from].capacity.sandbox {
        first_sandbox_is_first(nodes, from + 1);
    }
}

/// A service's heartbeat replaces an older one and never a newer one.
pub proof fn service_heartbeats_never_go_back(previous: Option<ServiceHeartbeat>, record: ServiceHeartbeat, written: bool)
    requires
        call_ensures(put_service_heartbeat, (&previous, &record), written),
    ensures
        previous is None ==> written,
        previous matches Some(before) ==> (written <==> before.last_seen.nanos <= record.last_seen.nanos),
{
}

/// A listing shows every heartbeat and every node in order, and each as alive exactly where it was
/// seen in the last minute and a half.
pub proof fn services_are_alive_for_ninety_seconds(
    heartbeats: Vec<ServiceHeartbeat>,
    nodes: Vec<NodeRecord>,
    now: Timestamp,
    services: Vec<ServiceHealth>,
)
    requires
        now.valid(),
        call_ensures(list_services_at, (heartbeats, &nodes, now), services),
    ensures
        services@.len() == heartbeats@.len() + nodes@.len(),
        forall|i: int| 0 <= i < heartbeats@.len() ==> (#[trigger] services@[i]).heartbeat == heartbeats@[i],
        forall|i: int|
            heartbeats@.len() <= i < services@.len() ==> (#[trigger] services@[i]).heartbeat.last_seen == nodes@[i
                - heartbeats@.len()].last_heartbeat && services@[i].heartbeat.role == ServiceRole::Node
                && services@[i].heartbeat.detail == ServiceDetail::Capacity(
                nodes@[i - heartbeats@.len()].capacity,
            ),
        forall|i: int|
            0 <= i < services@.len() && now.nanos - 90_000_000_000 >= MIN_NANOS ==> ((
            #[trigger] services@[i]).alive <==> services@[i].heartbeat.last_seen.nanos + 90_000_000_000
                >= now.nanos),
{
    assert forall|i: int| heartbeats@.len() <= i < services@.len() implies (
    #[trigger] services@[i]).heartbeat.last_seen == nodes@[i - heartbeats@.len()].last_heartbeat
        && services@[i].heartbeat.role == ServiceRole::Node && services@[i].heartbeat.detail
        == ServiceDetail::Capacity(nodes@[i - heartbeats@.len()].capacity) by {
        assert(shows_node(services@[i].heartbeat, nodes@[i - heartbeats@.len()]));
    }
}

/// Whether a list of places holds this one.
pub open spec fn lists_place(list: Seq<usize>, place: int) -> bool {
    exists|k: int| 0 <= k < list.len() && #[trigger] list[k] == place
}

/// A service is forgotten exactly where it was last seen more than ten minutes ago.
pub proof fn services_are_forgotten_after_ten_minutes(seen: Vec<Timestamp>, now: Timestamp, expired: Vec<usize>)
    requires
        now.valid(),
        now.nanos - 600_000_000_000 >= MIN_NANOS,
        call_ensures(expire_services_at, (&seen, now), expired),
    ensures
        forall|i: int|
            0 <= i < seen@.len() ==> ((#[trigger] seen@[i]).nanos + 600_000_000_000 < now.nanos <==> lists_place(
                expired@,
                i,
            )),
        expired@.len() <= seen@.len(),
{
    let since = seconds_before(now, SERVICE_EXPIRE_SECONDS);
    let places = seen_before(seen@, since, seen@.len());
    let views = expired@.map_values(|i: usize| i as int);
    expired_are_those(seen@, since, seen@.len());
    assert(views.len() == expired@.len());
    assert forall|i: int| 0 <= i < seen@.len() implies ((#[trigger] seen@[i]).nanos + 600_000_000_000 < now.nanos
        <==> lists_place(expired@, i)) by {
        if seen@[i].nanos + 600_000_000_000 < now.nanos {
            assert(places.contains(i));
            let k = choose|k: int| 0 <= k < places.len() && places[k] == i;
            assert(views[k] == expired@[k] as int);
        }
        if lists_place(expired@, i) {
            let k = choose|k: int| 0 <= k < expired@.len() && #[trigger] expired@[k] == i;
            assert(views[k] == i);
            assert(places[k] == i);
        }
    }
}

proof fn expired_are_those(seen: Seq<Timestamp>, since: Timestamp, count: nat)
    requires
        count <= seen.len(),
    ensures
        seen_before(seen, since, count).len() <= count,
        forall|i: int|
            0 <= i < count && seen[i].nanos < since.nanos ==> #[trigger] seen_before(seen, since, count).contains(i),
        forall|k: int|
            0 <= k < seen_before(seen, since, count).len() ==> 0 <= #[trigger] seen_before(seen, since, count)[k]
                < count && seen[seen_before(seen, since, count)[k]].nanos < since.nanos,
    decreases count,
{
    if count > 0 {
        let before = seen_before(seen, since, (count - 1) as nat);
        let all = seen_before(seen, since, count);
        expired_are_those(seen, since, (count - 1) as nat);
        assert forall|i: int| 0 <= i < count && seen[i].nanos < since.nanos implies #[trigger] all.contains(i) by {
            if i < count - 1 {
                assert(before.contains(i));
                let k = choose|k: int| 0 <= k < before.len() && before[k] == i;
                assert(all[k] == i);
            } else {
                assert(all[all.len() - 1] == i);
            }
        }
        assert forall|k: int| 0 <= k < all.len() implies 0 <= #[trigger] all[k] < count && seen[all[k]].nanos
            < since.nanos by {
            if k < before.len() {
                assert(all[k] == before[k]);
            }
        }
    }
}

} // verus!
