//! Keys of rows.

use foundationdb_tuple::Subspace;
use swarmy_store::error::StoreError;
use swarmy_store::ids::{
    id_bytes, AgentId, ManifestId, MessageId, NodeId, RequestId, SessionId, TimerId,
};
use swarmy_store::keys::timed_session;
use swarmy_store::rows::{
    breaker_key, bytes_key, entry_key, id_key, image_memory_key, kind_key, label_behind, labelled_key, named_key,
    name_behind, numbered_key, owned_key, pending_key, placement_node_key, request_key,
    session_agent_key, session_link_key, space_range, timer_key, timer_origin_key,
    turn_inference_key, turn_summary_key, turn_tool_key,
};
use swarmy_store::waits::CredentialKey;

const ROOT: [u8; 3] = [21, 1, 7];

fn root() -> Vec<u8> {
    ROOT.to_vec()
}

fn space() -> Subspace {
    Subspace::from_bytes(root())
}

#[test]
fn rows_are_keyed_by_identifiers() {
    let (one, two) = (id_bytes(1), id_bytes(2));
    let (one, two) = (one.as_slice(), two.as_slice());
    assert_eq!(kind_key(&root(), "gc_lease"), space().pack(&("gc_lease",)));
    assert_eq!(id_key(&root(), "session", 1), space().pack(&("session", one)));
    assert_eq!(owned_key(&root(), "timer_active", 1, 2), space().pack(&("timer_active", one, two)));
    assert_eq!(
        session_agent_key(&root(), AgentId(1), SessionId(2)),
        space().pack(&("session_by_agent", one, two))
    );
    assert_eq!(
        placement_node_key(&root(), NodeId(1), AgentId(2)),
        space().pack(&("placement_by_node", one, two))
    );
    assert_eq!(timer_key(&root(), AgentId(1), TimerId(2)), space().pack(&("timer", one, two)));
    assert_eq!(
        timer_origin_key(&root(), AgentId(1), TimerId(2)),
        space().pack(&("timer_origin", one, two))
    );
    assert_eq!(
        session_link_key(&root(), "next", SessionId(2)),
        space().pack(&("session_chain", "next", two))
    );
    assert_eq!(
        numbered_key(&root(), "snapshot", SessionId(1), 300),
        space().pack(&("snapshot", one, 300_u64))
    );
}

#[test]
fn requests_have_bytes_of_their_own() {
    let request = RequestId::for_step(SessionId(5), 258);
    let mut bytes = id_bytes(5);
    bytes.extend_from_slice(&[0, 0, 0, 0, 0, 0, 1, 2]);
    assert_eq!(request.as_bytes(), bytes);
    assert_ne!(request.as_bytes(), RequestId::for_step(SessionId(5), 259).as_bytes());
    assert_ne!(request.as_bytes(), RequestId::for_step(SessionId(6), 258).as_bytes());
    assert_eq!(
        request_key(&root(), "inflight", request),
        space().pack(&("inflight", bytes.as_slice()))
    );
    let session = id_bytes(5);
    assert_eq!(
        pending_key(&root(), SessionId(5), request),
        space().pack(&("session_tools", session.as_slice(), bytes.as_slice()))
    );
}

#[test]
fn turn_rows_lie_under_their_turn() {
    let (session, turn) = (id_bytes(3), id_bytes(4));
    let (session, turn) = (session.as_slice(), turn.as_slice());
    let (of, at) = (SessionId(3), MessageId(4));
    assert_eq!(
        turn_summary_key(&root(), of, at),
        space().pack(&("turn_metrics", session, turn))
    );
    assert_eq!(
        turn_inference_key(&root(), of, at, "réq-1"),
        space().pack(&("turn_inference", session, turn, "réq-1".as_bytes()))
    );
    assert_eq!(
        turn_tool_key(&root(), of, at, "call"),
        space().pack(&("turn_tool", session, turn, "call".as_bytes()))
    );
}

#[test]
fn rows_are_keyed_by_names() {
    assert_eq!(
        named_key(&root(), "agent_by_name", "ada"),
        space().pack(&("agent_by_name", "ada"))
    );
    assert_eq!(
        labelled_key(&root(), "image", "base", "latest"),
        space().pack(&("image", "base", "latest"))
    );
    let manifest = id_bytes(9);
    assert_eq!(
        image_memory_key(&root(), "base", "latest", ManifestId(9)),
        space().pack(&("image_memory", "base", "latest", manifest.as_slice()))
    );
    assert_eq!(
        entry_key(&root(), "credential_entry", "cluster", "openai", "main"),
        space().pack(&("credential_entry", "cluster", "openai", "main"))
    );
    assert_eq!(
        breaker_key(&root(), &CredentialKey::provider("openai")),
        space().pack(&("inference_breaker", "openai", ""))
    );
    assert_eq!(
        breaker_key(&root(), &CredentialKey::entry("openai", "main")),
        space().pack(&("inference_breaker", "openai", "main"))
    );
    assert_eq!(
        bytes_key(&root(), "gc_deleting", &vec![0, 255, 3]),
        space().pack(&("gc_deleting", [0_u8, 255, 3].as_slice()))
    );
}

#[test]
fn spaces_hold_their_rows_and_name_them() {
    let image = vec!["image".to_owned()];
    let range = space_range(&root(), &image);
    assert_eq!(range, space().subspace(&("image",)).range());
    let key = labelled_key(&root(), "image", "base", "latest");
    assert!(range.0 <= key && key < range.1);
    let other = named_key(&root(), "image_memory", "base");
    assert!(!(range.0 <= other && other < range.1));
    let both = ("base".to_owned(), "latest".to_owned());
    assert_eq!(label_behind(&root(), &image, &key), Ok(both));
    assert_eq!(name_behind(&root(), &image, &key), Err(StoreError::Corrupt));
    assert_eq!(name_behind(&root(), &image, &other), Err(StoreError::Corrupt));
    let by_id = id_key(&root(), "image", 1);
    assert_eq!(name_behind(&root(), &image, &by_id), Err(StoreError::Corrupt));
    let route = named_key(&root(), "route", "fast");
    let routes = vec!["route".to_owned()];
    assert_eq!(name_behind(&root(), &routes, &route), Ok("fast".to_owned()));
}

#[test]
fn deeply_nested_keys_are_refused() {
    let mut key = space().pack(&("image",));
    key.extend(vec![5; 2_000_000]);
    let image = vec!["image".to_owned()];
    assert_eq!(name_behind(&root(), &image, &key), Err(StoreError::Corrupt));
    assert_eq!(label_behind(&root(), &image, &key), Err(StoreError::Corrupt));
    assert_eq!(timed_session(&root(), "image", &key), Err(StoreError::Corrupt));
}
