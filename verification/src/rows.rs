//! Keys of the rows that are found by an identifier or a name.

use crate::error::{StoreError, StoreResult};
use crate::ids::{
    be_bytes, id_bytes, id_round_trip, request_bytes, AgentId, ManifestId, MessageId, NodeId,
    RequestId, SessionId, TimerId, VolumeId,
};
use crate::keys::{
    continuation_range, names_of, pack_key, packed, part_size, part_views, parts_size, starts_parts,
    storable, unpack_name, unpack_names, unpacked, within, KeyPart, PartView,
};
use crate::listing::{
    event_row, id_row, list_agents, list_by_node, list_sessions, list_sessions_by_agent, list_turns,
    list_volumes, read_events,
};
use crate::waits::{text_views, CredentialKey};
use vstd::prelude::*;
use vstd::string::StrSliceExecFns;
use vstd::utf8::encode_utf8;

verus! {

/// An identifier as a key element.
pub open spec fn id_part(id: u128) -> PartView {
    PartView::Bytes(be_bytes(id as nat, 16))
}

/// Whether a key is that of some elements, which can be read back from it, so that rows with
/// different elements never share a key.
pub open spec fn is_key(root: Seq<u8>, parts: Seq<PartView>, key: Seq<u8>) -> bool {
    key == packed(root, parts) && unpacked(root, key) == Some(parts)
}

// ---------------------------------------------------------------------------------------------
// Elements
// ---------------------------------------------------------------------------------------------

proof fn longer(parts: Seq<PartView>, part: PartView)
    requires
        storable(parts),
        !(part is Other),
    ensures
        storable(parts.push(part)),
        parts_size(parts.push(part)) == parts_size(parts) + part_size(part),
{
    assert(parts.push(part).drop_last() =~= parts);
}

fn with_part(parts: Vec<KeyPart>, part: KeyPart) -> (next: Vec<KeyPart>)
    requires
        storable(part_views(parts@)),
        !(part@ is Other),
    ensures
        part_views(next@) == part_views(parts@).push(part@),
        storable(part_views(next@)),
        parts_size(part_views(next@)) == parts_size(part_views(parts@)) + part_size(part@),
{
    let mut next = parts;
    next.push(part);
    proof {
        longer(part_views(parts@), part@);
        assert(part_views(next@) =~= part_views(parts@).push(part@));
    }
    next
}

fn with_text(parts: Vec<KeyPart>, text: &str) -> (next: Vec<KeyPart>)
    requires
        storable(part_views(parts@)),
    ensures
        part_views(next@) == part_views(parts@).push(PartView::Text(text@)),
        storable(part_views(next@)),
        parts_size(part_views(next@)) == parts_size(part_views(parts@)) + 4 * text@.len() + 2,
{
    with_part(parts, KeyPart::Text(text.to_owned()))
}

fn with_id(parts: Vec<KeyPart>, id: u128) -> (next: Vec<KeyPart>)
    requires
        storable(part_views(parts@)),
    ensures
        part_views(next@) == part_views(parts@).push(id_part(id)),
        storable(part_views(next@)),
        parts_size(part_views(next@)) == parts_size(part_views(parts@)) + 34,
{
    proof {
        id_round_trip(id);
    }
    with_part(parts, KeyPart::Bytes(id_bytes(id)))
}

fn kind_parts(kind: &str) -> (parts: Vec<KeyPart>)
    ensures
        part_views(parts@) == seq![PartView::Text(kind@)],
        storable(part_views(parts@)),
        parts_size(part_views(parts@)) == 4 * kind@.len() + 2,
{
    let none: Vec<KeyPart> = Vec::new();
    assert(part_views(none@) =~= Seq::<PartView>::empty());
    with_text(none, kind)
}

fn key_of(root: &Vec<u8>, parts: &Vec<KeyPart>) -> (key: Vec<u8>)
    requires
        storable(part_views(parts@)),
        root@.len() + parts_size(part_views(parts@)) <= u32::MAX,
    ensures
        is_key(root@, part_views(parts@), key@),
{
    pack_key(root, parts)
}

// ---------------------------------------------------------------------------------------------
// Rows by identifier
// ---------------------------------------------------------------------------------------------

/// The key of the one row of a kind.
pub fn kind_key(root: &Vec<u8>, kind: &str) -> (key: Vec<u8>)
    requires
        root@.len() + 4 * kind@.len() + 1024 <= u32::MAX,
    ensures
        is_key(root@, seq![PartView::Text(kind@)], key@),
{
    let parts = kind_parts(kind);
    key_of(root, &parts)
}

/// The key of a row by its kind and an identifier.
pub fn id_key(root: &Vec<u8>, kind: &str, id: u128) -> (key: Vec<u8>)
    requires
        root@.len() + 4 * kind@.len() + 1024 <= u32::MAX,
    ensures
        is_key(root@, seq![PartView::Text(kind@), id_part(id)], key@),
{
    let parts = with_id(kind_parts(kind), id);
    assert(part_views(parts@) =~= seq![PartView::Text(kind@), id_part(id)]);
    key_of(root, &parts)
}

/// The key of a row by its kind, an owner and an identifier.
pub fn owned_key(root: &Vec<u8>, kind: &str, owner: u128, id: u128) -> (key: Vec<u8>)
    requires
        root@.len() + 4 * kind@.len() + 1024 <= u32::MAX,
    ensures
        is_key(root@, seq![PartView::Text(kind@), id_part(owner), id_part(id)], key@),
{
    let parts = with_id(with_id(kind_parts(kind), owner), id);
    assert(part_views(parts@) =~= seq![PartView::Text(kind@), id_part(owner), id_part(id)]);
    key_of(root, &parts)
}

/// The key that lists a session under its agent.
pub fn session_agent_key(root: &Vec<u8>, agent: AgentId, id: SessionId) -> (key: Vec<u8>)
    requires
        root@.len() + 2048 <= u32::MAX,
    ensures
        is_key(
            root@,
            seq![PartView::Text("session_by_agent"@), id_part(agent.0), id_part(id.0)],
            key@,
        ),
{
    proof {
        reveal_strlit("session_by_agent");
    }
    owned_key(root, "session_by_agent", agent.0, id.0)
}

/// The key that lists a placement under its node.
pub fn placement_node_key(root: &Vec<u8>, node: NodeId, agent: AgentId) -> (key: Vec<u8>)
    requires
        root@.len() + 2048 <= u32::MAX,
    ensures
        is_key(
            root@,
            seq![PartView::Text("placement_by_node"@), id_part(node.0), id_part(agent.0)],
            key@,
        ),
{
    proof {
        reveal_strlit("placement_by_node");
    }
    owned_key(root, "placement_by_node", node.0, agent.0)
}

/// The key of a timer.
pub fn timer_key(root: &Vec<u8>, agent: AgentId, timer: TimerId) -> (key: Vec<u8>)
    requires
        root@.len() + 2048 <= u32::MAX,
    ensures
        is_key(root@, seq![PartView::Text("timer"@), id_part(agent.0), id_part(timer.0)], key@),
{
    proof {
        reveal_strlit("timer");
    }
    owned_key(root, "timer", agent.0, timer.0)
}

/// The key of the session that set a timer.
pub fn timer_origin_key(root: &Vec<u8>, agent: AgentId, timer: TimerId) -> (key: Vec<u8>)
    requires
        root@.len() + 2048 <= u32::MAX,
    ensures
        is_key(
            root@,
            seq![PartView::Text("timer_origin"@), id_part(agent.0), id_part(timer.0)],
            key@,
        ),
{
    proof {
        reveal_strlit("timer_origin");
    }
    owned_key(root, "timer_origin", agent.0, timer.0)
}

/// The key of a link between a summarized conversation and its neighbour.
pub fn session_link_key(root: &Vec<u8>, direction: &str, id: SessionId) -> (key: Vec<u8>)
    requires
        root@.len() + 4 * direction@.len() + 2048 <= u32::MAX,
    ensures
        is_key(
            root@,
            seq![PartView::Text("session_chain"@), PartView::Text(direction@), id_part(id.0)],
            key@,
        ),
{
    proof {
        reveal_strlit("session_chain");
    }
    let parts = with_id(with_text(kind_parts("session_chain"), direction), id.0);
    assert(part_views(parts@) =~= seq![
        PartView::Text("session_chain"@),
        PartView::Text(direction@),
        id_part(id.0),
    ]);
    key_of(root, &parts)
}

/// The key of a numbered row of a session, such as an event or a snapshot. Numbers are written as
/// signed elements.
pub fn numbered_key(root: &Vec<u8>, kind: &str, id: SessionId, seq: u64) -> (key: Vec<u8>)
    requires
        root@.len() + 4 * kind@.len() + 1024 <= u32::MAX,
        seq <= i64::MAX,
    ensures
        is_key(
            root@,
            seq![PartView::Text(kind@), id_part(id.0), PartView::Int(seq as i64)],
            key@,
        ),
{
    let parts = with_part(with_id(kind_parts(kind), id.0), KeyPart::Int(seq as i64));
    assert(part_views(parts@) =~= seq![
        PartView::Text(kind@),
        id_part(id.0),
        PartView::Int(seq as i64),
    ]);
    key_of(root, &parts)
}

// ---------------------------------------------------------------------------------------------
// Rows of requests and turns
// ---------------------------------------------------------------------------------------------

/// The key of a row by its kind and a request.
pub fn request_key(root: &Vec<u8>, kind: &str, id: RequestId) -> (key: Vec<u8>)
    requires
        root@.len() + 4 * kind@.len() + 1024 <= u32::MAX,
    ensures
        is_key(root@, seq![PartView::Text(kind@), PartView::Bytes(request_bytes(id))], key@),
{
    let parts = with_part(kind_parts(kind), KeyPart::Bytes(id.as_bytes()));
    assert(part_views(parts@) =~= seq![PartView::Text(kind@), PartView::Bytes(request_bytes(id))]);
    key_of(root, &parts)
}

/// The key of a tool call that a session waits for.
pub fn pending_key(root: &Vec<u8>, id: SessionId, call: RequestId) -> (key: Vec<u8>)
    requires
        root@.len() + 2048 <= u32::MAX,
    ensures
        is_key(
            root@,
            seq![
                PartView::Text("session_tools"@),
                id_part(id.0),
                PartView::Bytes(request_bytes(call)),
            ],
            key@,
        ),
{
    proof {
        reveal_strlit("session_tools");
    }
    let parts = with_part(
        with_id(kind_parts("session_tools"), id.0),
        KeyPart::Bytes(call.as_bytes()),
    );
    assert(part_views(parts@) =~= seq![
        PartView::Text("session_tools"@),
        id_part(id.0),
        PartView::Bytes(request_bytes(call)),
    ]);
    key_of(root, &parts)
}

/// The key of a turn's summary.
pub fn turn_summary_key(root: &Vec<u8>, session: SessionId, turn: MessageId) -> (key: Vec<u8>)
    requires
        root@.len() + 2048 <= u32::MAX,
    ensures
        is_key(
            root@,
            seq![PartView::Text("turn_metrics"@), id_part(session.0), id_part(turn.0)],
            key@,
        ),
{
    proof {
        reveal_strlit("turn_metrics");
    }
    owned_key(root, "turn_metrics", session.0, turn.0)
}

fn turn_row_key(root: &Vec<u8>, kind: &str, session: SessionId, turn: MessageId, name: &str) -> (key: Vec<u8>)
    requires
        root@.len() + 4 * kind@.len() + 2 * encode_utf8(name@).len() + 1024 <= u32::MAX,
    ensures
        is_key(
            root@,
            seq![
                PartView::Text(kind@),
                id_part(session.0),
                id_part(turn.0),
                PartView::Bytes(encode_utf8(name@)),
            ],
            key@,
        ),
{
    let parts = with_part(
        with_id(with_id(kind_parts(kind), session.0), turn.0),
        KeyPart::Bytes(name.as_bytes_vec()),
    );
    assert(part_views(parts@) =~= seq![
        PartView::Text(kind@),
        id_part(session.0),
        id_part(turn.0),
        PartView::Bytes(encode_utf8(name@)),
    ]);
    key_of(root, &parts)
}

/// The key of the row of an inference request of a turn.
pub fn turn_inference_key(root: &Vec<u8>, session: SessionId, turn: MessageId, request_id: &str) -> (key: Vec<u8>)
    requires
        root@.len() + 2 * encode_utf8(request_id@).len() + 2048 <= u32::MAX,
    ensures
        is_key(
            root@,
            seq![
                PartView::Text("turn_inference"@),
                id_part(session.0),
                id_part(turn.0),
                PartView::Bytes(encode_utf8(request_id@)),
            ],
            key@,
        ),
{
    proof {
        reveal_strlit("turn_inference");
    }
    turn_row_key(root, "turn_inference", session, turn, request_id)
}

/// The key of the row of a tool call of a turn.
pub fn turn_tool_key(root: &Vec<u8>, session: SessionId, turn: MessageId, call_id: &str) -> (key: Vec<u8>)
    requires
        root@.len() + 2 * encode_utf8(call_id@).len() + 2048 <= u32::MAX,
    ensures
        is_key(
            root@,
            seq![
                PartView::Text("turn_tool"@),
                id_part(session.0),
                id_part(turn.0),
                PartView::Bytes(encode_utf8(call_id@)),
            ],
            key@,
        ),
{
    proof {
        reveal_strlit("turn_tool");
    }
    turn_row_key(root, "turn_tool", session, turn, call_id)
}

// ---------------------------------------------------------------------------------------------
// Rows by name
// ---------------------------------------------------------------------------------------------

/// The key of a row by its kind and a name.
pub fn named_key(root: &Vec<u8>, kind: &str, name: &str) -> (key: Vec<u8>)
    requires
        root@.len() + 4 * kind@.len() + 4 * name@.len() + 1024 <= u32::MAX,
    ensures
        is_key(root@, seq![PartView::Text(kind@), PartView::Text(name@)], key@),
{
    let parts = with_text(kind_parts(kind), name);
    assert(part_views(parts@) =~= seq![PartView::Text(kind@), PartView::Text(name@)]);
    key_of(root, &parts)
}

/// The key of a row by its kind, a name and a label under it.
pub fn labelled_key(root: &Vec<u8>, kind: &str, name: &str, label: &str) -> (key: Vec<u8>)
    requires
        root@.len() + 4 * kind@.len() + 4 * name@.len() + 4 * label@.len() + 1024 <= u32::MAX,
    ensures
        is_key(
            root@,
            seq![PartView::Text(kind@), PartView::Text(name@), PartView::Text(label@)],
            key@,
        ),
{
    let parts = with_text(with_text(kind_parts(kind), name), label);
    assert(part_views(parts@) =~= seq![
        PartView::Text(kind@),
        PartView::Text(name@),
        PartView::Text(label@),
    ]);
    key_of(root, &parts)
}

/// The key of the memory that an image asks for at one manifest.
pub fn image_memory_key(root: &Vec<u8>, name: &str, tag: &str, manifest: ManifestId) -> (key: Vec<u8>)
    requires
        root@.len() + 4 * name@.len() + 4 * tag@.len() + 2048 <= u32::MAX,
    ensures
        is_key(
            root@,
            seq![
                PartView::Text("image_memory"@),
                PartView::Text(name@),
                PartView::Text(tag@),
                id_part(manifest.0),
            ],
            key@,
        ),
{
    proof {
        reveal_strlit("image_memory");
    }
    let parts = with_id(
        with_text(with_text(kind_parts("image_memory"), name), tag),
        manifest.0,
    );
    assert(part_views(parts@) =~= seq![
        PartView::Text("image_memory"@),
        PartView::Text(name@),
        PartView::Text(tag@),
        id_part(manifest.0),
    ]);
    key_of(root, &parts)
}

/// The key of a credential entry: its table, the scope's name, the provider and the label.
pub fn entry_key(root: &Vec<u8>, table: &str, scope: &str, provider: &str, label: &str) -> (key: Vec<u8>)
    requires
        root@.len() + 4 * table@.len() + 4 * scope@.len() + 4 * provider@.len() + 4 * label@.len()
            + 1024 <= u32::MAX,
    ensures
        is_key(
            root@,
            seq![
                PartView::Text(table@),
                PartView::Text(scope@),
                PartView::Text(provider@),
                PartView::Text(label@),
            ],
            key@,
        ),
{
    let parts = with_text(with_text(with_text(kind_parts(table), scope), provider), label);
    assert(part_views(parts@) =~= seq![
        PartView::Text(table@),
        PartView::Text(scope@),
        PartView::Text(provider@),
        PartView::Text(label@),
    ]);
    key_of(root, &parts)
}

/// The length of a label, which may be absent.
pub open spec fn label_len(label: Option<Seq<char>>) -> nat {
    match label {
        Some(label) => label.len(),
        None => 0,
    }
}

/// The label that a breaker has in its key.
pub open spec fn breaker_label(label: Option<Seq<char>>) -> Seq<char> {
    match label {
        Some(label) => label,
        None => ""@,
    }
}

/// The key of a breaker. A provider without a stored entry has the empty label.
pub fn breaker_key(root: &Vec<u8>, credential: &CredentialKey) -> (key: Vec<u8>)
    requires
        root@.len() + 4 * credential@.provider.len() + 4 * label_len(credential@.label) + 2048
            <= u32::MAX,
    ensures
        is_key(
            root@,
            seq![
                PartView::Text("inference_breaker"@),
                PartView::Text(credential@.provider),
                PartView::Text(breaker_label(credential@.label)),
            ],
            key@,
        ),
{
    proof {
        reveal_strlit("inference_breaker");
        reveal_strlit("");
    }
    let label = match &credential.label {
        Some(label) => label.as_str(),
        None => "",
    };
    assert(label@ == breaker_label(credential@.label));
    labelled_key(root, "inference_breaker", credential.provider.as_str(), label)
}

/// The key of a row by its kind and some bytes, such as a content hash.
pub fn bytes_key(root: &Vec<u8>, kind: &str, value: &Vec<u8>) -> (key: Vec<u8>)
    requires
        root@.len() + 4 * kind@.len() + 2 * value@.len() + 1024 <= u32::MAX,
    ensures
        is_key(root@, seq![PartView::Text(kind@), PartView::Bytes(value@)], key@),
{
    let mut bytes: Vec<u8> = Vec::new();
    bytes.extend_from_slice(value.as_slice());
    assert(bytes@ =~= value@);
    let parts = with_part(kind_parts(kind), KeyPart::Bytes(bytes));
    assert(part_views(parts@) =~= seq![PartView::Text(kind@), PartView::Bytes(value@)]);
    key_of(root, &parts)
}

// ---------------------------------------------------------------------------------------------
// Spaces
// ---------------------------------------------------------------------------------------------

/// Names as key elements.
pub open spec fn name_parts(names: Seq<Seq<char>>) -> Seq<PartView> {
    names.map_values(|name: Seq<char>| PartView::Text(name))
}

fn texts(names: &Vec<String>) -> (parts: Vec<KeyPart>)
    ensures
        part_views(parts@) == name_parts(text_views(names@)),
        storable(part_views(parts@)),
{
    let mut parts: Vec<KeyPart> = Vec::new();
    let mut i: usize = 0;
    while i < names.len()
        invariant
            i <= names.len(),
            part_views(parts@) =~= name_parts(text_views(names@)).take(i as int),
            storable(part_views(parts@)),
        decreases names.len() - i,
    {
        let ghost before = part_views(parts@);
        parts = with_text(parts, names[i].as_str());
        assert(part_views(parts@) =~= before.push(PartView::Text(names@[i as int]@)));
        i += 1;
    }
    assert(name_parts(text_views(names@)).take(i as int) =~= name_parts(text_views(names@)));
    parts
}

/// The range of the rows under some names, of which the first is their kind.
pub fn space_range(root: &Vec<u8>, names: &Vec<String>) -> (range: (Vec<u8>, Vec<u8>))
    requires
        root@.len() + parts_size(name_parts(text_views(names@))) <= u32::MAX,
    ensures
        forall|key: Seq<PartView>|
            storable(key) ==> (#[trigger] within((range.0@, range.1@), packed(root@, key))
                <==> starts_parts(name_parts(text_views(names@)), key) && names@.len() < key.len()),
{
    let parts = texts(names);
    continuation_range(root, &parts)
}

/// The name that a key holds behind its space; a key of another form is corrupt.
pub fn name_behind(root: &Vec<u8>, names: &Vec<String>, key: &Vec<u8>) -> (result: StoreResult<String>)
    requires
        root@.len() + parts_size(name_parts(text_views(names@))) <= u32::MAX,
    ensures
        match names_of(unpacked(packed(root@, name_parts(text_views(names@))), key@), 1) {
            Some(found) => result matches Ok(name) && found == seq![name@],
            None => result matches Err(error) && error == StoreError::Corrupt,
        },
{
    let space = texts(names);
    let prefix = pack_key(root, &space);
    match unpack_name(&prefix, key) {
        Some((name,)) => Ok(name),
        None => Err(StoreError::Corrupt),
    }
}

/// The name and the label that a key holds behind its space; a key of another form is corrupt.
pub fn label_behind(root: &Vec<u8>, names: &Vec<String>, key: &Vec<u8>) -> (result: StoreResult<(String, String)>)
    requires
        root@.len() + parts_size(name_parts(text_views(names@))) <= u32::MAX,
    ensures
        match names_of(unpacked(packed(root@, name_parts(text_views(names@))), key@), 2) {
            Some(found) => result matches Ok(both) && found == seq![both.0@, both.1@],
            None => result matches Err(error) && error == StoreError::Corrupt,
        },
{
    let space = texts(names);
    let prefix = pack_key(root, &space);
    match unpack_names(&prefix, key) {
        Some(both) => Ok(both),
        None => Err(StoreError::Corrupt),
    }
}

/// Keys tell rows apart: two rows of one kind that an owner and an id name have one key only where
/// both agree.
pub proof fn owned_rows_tell_apart(
    root: Vec<u8>,
    kind: &str,
    owner: u128,
    id: u128,
    other_owner: u128,
    other_id: u128,
    a: Vec<u8>,
    b: Vec<u8>,
)
    requires
        root@.len() + 4 * kind@.len() + 1024 <= u32::MAX,
        call_ensures(owned_key, (&root, kind, owner, id), a),
        call_ensures(owned_key, (&root, kind, other_owner, other_id), b),
    ensures
        a@ == b@ <==> owner == other_owner && id == other_id,
{
    id_round_trip(owner);
    id_round_trip(other_owner);
    id_round_trip(id);
    id_round_trip(other_id);
    let x = seq![PartView::Text(kind@), id_part(owner), id_part(id)];
    let y = seq![PartView::Text(kind@), id_part(other_owner), id_part(other_id)];
    if a@ == b@ {
        assert(x == y);
        assert(x[1] == y[1] && x[2] == y[2]);
    }
}

/// A session's row under its agent is found by the listing of that agent, behind the ids that were
/// seen.
pub proof fn sessions_are_listed_under_their_agent(
    root: Vec<u8>,
    agent: AgentId,
    id: SessionId,
    key: Vec<u8>,
    after: Option<SessionId>,
    limit: usize,
    result: StoreResult<(Vec<u8>, Vec<u8>)>,
)
    requires
        root@.len() + 2048 <= u32::MAX,
        call_ensures(session_agent_key, (&root, agent, id), key),
        call_ensures(list_sessions_by_agent, (&root, agent, after, limit), result),
    ensures
        result matches Ok(range) ==> (within((range.0@, range.1@), key@) <==> (after matches Some(seen)
            ==> seen.0 < id.0)),
        1 <= limit <= 64 ==> result is Ok,
{
    assert(id_row("session_by_agent"@, Some(agent.0), id.0) =~= seq![
        PartView::Text("session_by_agent"@),
        id_part(agent.0),
        id_part(id.0),
    ]);
}

/// A placement's row under its node is found by the listing of that node.
pub proof fn placements_are_listed_under_their_node(
    root: Vec<u8>,
    node: NodeId,
    agent: AgentId,
    key: Vec<u8>,
    after: Option<AgentId>,
    limit: usize,
    result: StoreResult<(Vec<u8>, Vec<u8>)>,
)
    requires
        root@.len() + 2048 <= u32::MAX,
        call_ensures(placement_node_key, (&root, node, agent), key),
        call_ensures(list_by_node, (&root, node, after, limit), result),
    ensures
        result matches Ok(range) ==> (within((range.0@, range.1@), key@) <==> (after matches Some(seen)
            ==> seen.0 < agent.0)),
        1 <= limit <= 64 ==> result is Ok,
{
    assert(id_row("placement_by_node"@, Some(node.0), agent.0) =~= seq![
        PartView::Text("placement_by_node"@),
        id_part(node.0),
        id_part(agent.0),
    ]);
}

/// A turn's summary is found by the listing of its session's turns.
pub proof fn turns_are_listed_under_their_session(
    root: Vec<u8>,
    session: SessionId,
    turn: MessageId,
    key: Vec<u8>,
    after: Option<MessageId>,
    limit: usize,
    result: StoreResult<(Vec<u8>, Vec<u8>)>,
)
    requires
        root@.len() + 2048 <= u32::MAX,
        call_ensures(turn_summary_key, (&root, session, turn), key),
        call_ensures(list_turns, (&root, session, after, limit), result),
    ensures
        result matches Ok(range) ==> (within((range.0@, range.1@), key@) <==> (after matches Some(seen)
            ==> seen.0 < turn.0)),
        1 <= limit <= 64 ==> result is Ok,
{
    assert(id_row("turn_metrics"@, Some(session.0), turn.0) =~= seq![
        PartView::Text("turn_metrics"@),
        id_part(session.0),
        id_part(turn.0),
    ]);
}

/// A session, an agent and a disk are each found by their own listing.
pub proof fn rows_are_listed_by_their_kind(
    root: Vec<u8>,
    kind: &str,
    id: u128,
    key: Vec<u8>,
    limit: usize,
    sessions: StoreResult<(Vec<u8>, Vec<u8>)>,
    agents: StoreResult<(Vec<u8>, Vec<u8>)>,
    volumes: StoreResult<(Vec<u8>, Vec<u8>)>,
    seen: u128,
)
    requires
        1 <= limit <= 64,
        root@.len() + 4 * kind@.len() + 2048 <= u32::MAX,
        call_ensures(id_key, (&root, kind, id), key),
        call_ensures(list_sessions, (&root, Some(SessionId(seen)), limit), sessions),
        call_ensures(list_agents, (&root, Some(AgentId(seen)), limit), agents),
        call_ensures(list_volumes, (&root, Some(VolumeId(seen)), limit), volumes),
    ensures
        kind@ == "session"@ ==> (sessions matches Ok(range) && (within((range.0@, range.1@), key@) <==> seen
            < id)),
        kind@ == "agent"@ ==> (agents matches Ok(range) && (within((range.0@, range.1@), key@) <==> seen < id)),
        kind@ == "volume"@ ==> (volumes matches Ok(range) && (within((range.0@, range.1@), key@) <==> seen < id)),
{
    assert(id_row(kind@, None, id) =~= seq![PartView::Text(kind@), id_part(id)]);
}

/// An event's row is found by a read of its session's log exactly behind the number that was seen.
pub proof fn events_are_read_behind_the_last(
    root: Vec<u8>,
    kind: &str,
    id: SessionId,
    seq: u64,
    key: Vec<u8>,
    after: u64,
    limit: usize,
    result: StoreResult<(Vec<u8>, Vec<u8>)>,
)
    requires
        kind@ == "event"@,
        seq <= i64::MAX,
        after <= i64::MAX,
        root@.len() + 4 * kind@.len() + 2048 <= u32::MAX,
        call_ensures(numbered_key, (&root, kind, id, seq), key),
        call_ensures(read_events, (&root, id, after, limit), result),
    ensures
        result matches Ok(range) ==> (within((range.0@, range.1@), key@) <==> after < seq),
        1 <= limit <= 64 ==> result is Ok,
{
    let row = event_row(id, seq as i64);
    assert(row =~= seq![PartView::Text(kind@), id_part(id.0), PartView::Int(seq as i64)]);
    if let Ok(range) = result {
        assert(within((range.0@, range.1@), packed(root@, row)) <==> after < seq as i64);
    }
}

/// The rows of a turn's request and of its call name the session, the turn and the text of the id, in
/// that order, each under its own kind.
pub proof fn turn_rows_name_their_turn(
    root: Vec<u8>,
    session: SessionId,
    turn: MessageId,
    id: &str,
    request: Vec<u8>,
    call: Vec<u8>,
)
    requires
        root@.len() + 2 * encode_utf8(id@).len() + 2048 <= u32::MAX,
        call_ensures(turn_inference_key, (&root, session, turn, id), request),
        call_ensures(turn_tool_key, (&root, session, turn, id), call),
    ensures
        unpacked(root@, request@) matches Some(parts) && parts.len() == 4 && parts[0] == PartView::Text(
            "turn_inference"@,
        ) && parts[1] == PartView::Bytes(be_bytes(session.0 as nat, 16)) && parts[2] == PartView::Bytes(
            be_bytes(turn.0 as nat, 16),
        ) && parts[3] == PartView::Bytes(encode_utf8(id@)),
        unpacked(root@, call@) matches Some(parts) && parts.len() == 4 && parts[0] == PartView::Text(
            "turn_tool"@,
        ) && parts[1] == PartView::Bytes(be_bytes(session.0 as nat, 16)) && parts[2] == PartView::Bytes(
            be_bytes(turn.0 as nat, 16),
        ) && parts[3] == PartView::Bytes(encode_utf8(id@)),
{
}

/// A timer's rows name the agent and then the timer, each under its own kind.
pub proof fn timer_rows_name_their_agent(root: Vec<u8>, agent: AgentId, timer: TimerId, row: Vec<u8>, origin: Vec<u8>)
    requires
        root@.len() + 2048 <= u32::MAX,
        call_ensures(timer_key, (&root, agent, timer), row),
        call_ensures(timer_origin_key, (&root, agent, timer), origin),
    ensures
        unpacked(root@, row@) == Some(
            seq![
                PartView::Text("timer"@),
                PartView::Bytes(be_bytes(agent.0 as nat, 16)),
                PartView::Bytes(be_bytes(timer.0 as nat, 16)),
            ],
        ),
        unpacked(root@, origin@) == Some(
            seq![
                PartView::Text("timer_origin"@),
                PartView::Bytes(be_bytes(agent.0 as nat, 16)),
                PartView::Bytes(be_bytes(timer.0 as nat, 16)),
            ],
        ),
{
}

/// Rows that texts name tell apart wherever a text differs.
pub proof fn named_rows_tell_apart(
    root: Vec<u8>,
    table: &str,
    scope: &str,
    provider: &str,
    label: &str,
    other_provider: &str,
    other_label: &str,
    a: Vec<u8>,
    b: Vec<u8>,
)
    requires
        root@.len() + 4 * table@.len() + 4 * scope@.len() + 4 * provider@.len() + 4 * label@.len() + 1024
            <= u32::MAX,
        root@.len() + 4 * table@.len() + 4 * scope@.len() + 4 * other_provider@.len() + 4 * other_label@.len()
            + 1024 <= u32::MAX,
        call_ensures(entry_key, (&root, table, scope, provider, label), a),
        call_ensures(entry_key, (&root, table, scope, other_provider, other_label), b),
    ensures
        a@ == b@ <==> provider@ == other_provider@ && label@ == other_label@,
{
    let x = seq![
        PartView::Text(table@),
        PartView::Text(scope@),
        PartView::Text(provider@),
        PartView::Text(label@),
    ];
    let y = seq![
        PartView::Text(table@),
        PartView::Text(scope@),
        PartView::Text(other_provider@),
        PartView::Text(other_label@),
    ];
    if a@ == b@ {
        assert(x == y);
        assert(x[2] == y[2] && x[3] == y[3]);
    }
}

/// A breaker's row names the provider and then the label; an entry without a label shares the
/// provider's own row.
pub proof fn breaker_rows_name_their_entry(root: Vec<u8>, credential: CredentialKey, key: Vec<u8>)
    requires
        root@.len() + 4 * credential@.provider.len() + 4 * label_len(credential@.label) + 2048 <= u32::MAX,
        call_ensures(breaker_key, (&root, &credential), key),
    ensures
        unpacked(root@, key@) matches Some(parts) && parts.len() == 3 && parts[1] == PartView::Text(
            credential.provider@,
        ) && (credential.label matches Some(label) ==> parts[2] == PartView::Text(label@)) && (
        credential.label is None ==> parts[2] == PartView::Text(""@)),
{
}

/// A pending call's row names its session and then the call.
pub proof fn pending_rows_name_their_session(root: Vec<u8>, id: SessionId, call: RequestId, key: Vec<u8>)
    requires
        root@.len() + 2048 <= u32::MAX,
        call_ensures(pending_key, (&root, id, call), key),
    ensures
        unpacked(root@, key@) matches Some(parts) && parts.len() == 3 && parts[1] == PartView::Bytes(
            be_bytes(id.0 as nat, 16),
        ) && parts[2] == PartView::Bytes(request_bytes(call)),
{
}

/// The other rows are named by exactly what they are asked for, in that order.
pub proof fn rows_are_named_in_order(
    root: Vec<u8>,
    kind: &str,
    name: &str,
    label: &str,
    id: SessionId,
    manifest: ManifestId,
    request: RequestId,
    named: Vec<u8>,
    labelled: Vec<u8>,
    image: Vec<u8>,
    link: Vec<u8>,
    asked: Vec<u8>,
)
    requires
        root@.len() + 4 * kind@.len() + 4 * name@.len() + 4 * label@.len() + 2048 <= u32::MAX,
        call_ensures(named_key, (&root, kind, name), named),
        call_ensures(labelled_key, (&root, kind, name, label), labelled),
        call_ensures(image_memory_key, (&root, name, label, manifest), image),
        call_ensures(session_link_key, (&root, name, id), link),
        call_ensures(request_key, (&root, kind, request), asked),
    ensures
        unpacked(root@, named@) == Some(seq![PartView::Text(kind@), PartView::Text(name@)]),
        unpacked(root@, labelled@) == Some(
            seq![PartView::Text(kind@), PartView::Text(name@), PartView::Text(label@)],
        ),
        unpacked(root@, image@) == Some(
            seq![
                PartView::Text("image_memory"@),
                PartView::Text(name@),
                PartView::Text(label@),
                PartView::Bytes(be_bytes(manifest.0 as nat, 16)),
            ],
        ),
        unpacked(root@, link@) == Some(
            seq![
                PartView::Text("session_chain"@),
                PartView::Text(name@),
                PartView::Bytes(be_bytes(id.0 as nat, 16)),
            ],
        ),
        unpacked(root@, asked@) == Some(
            seq![
                PartView::Text(kind@),
                PartView::Bytes(be_bytes(request.session.0 as nat, 16) + be_bytes(request.step as nat, 8)),
            ],
        ),
{
}

} // verus!
