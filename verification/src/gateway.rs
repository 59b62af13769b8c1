//! What gateways advertise of providers, and the memory of pinned images.

use crate::ids::{ManifestId, SessionId};
use crate::time::Timestamp;
use std::collections::HashMap;
use vstd::prelude::*;

verus! {

broadcast use vstd::std_specs::hash::group_hash_axioms;

/// Sessions whose image is remembered at most.
pub const IMAGE_CACHE_LIMIT: usize = 4096;

/// A gateway's last word on a provider. One that is skipped is noted as expired, so that the
/// reason shows and no request is routed.
#[derive(Clone, Debug, PartialEq, Eq)]
pub struct GatewayProvider {
    pub expires_at: Timestamp,
    pub reason: String,
}

/// Whether a gateway serves a provider at a moment.
pub fn gateway_serves(record: &Option<GatewayProvider>, now: Timestamp) -> (served: bool)
    ensures
        served == match *record {
            Some(advertised) => advertised.expires_at.nanos > now.nanos,
            None => false,
        },
{
    match record {
        Some(advertised) => advertised.expires_at.nanos > now.nanos,
        None => false,
    }
}

/// Images of sessions, by session. Pins never change, so what was read once stays right.
pub struct ImageCache {
    pub pins: HashMap<u128, u128>,
}

impl View for ImageCache {
    type V = Map<u128, u128>;

    open spec fn view(&self) -> Map<u128, u128> {
        self.pins@
    }
}

impl ImageCache {
    /// Nothing remembered.
    pub fn new() -> (cache: ImageCache)
        ensures
            cache@ == Map::<u128, u128>::empty(),
    {
        ImageCache { pins: HashMap::new() }
    }

    /// The remembered image of a session.
    pub fn get(&self, session: SessionId) -> (manifest: Option<ManifestId>)
        ensures
            manifest == if self@.dom().contains(session.0) {
                Some(ManifestId(self@[session.0]))
            } else {
                None
            },
    {
        match self.pins.get(&session.0) {
            Some(manifest) => Some(ManifestId(*manifest)),
            None => None,
        }
    }

    /// Remembers the image of a session, forgetting all others first when there are too many.
    pub fn remember(&mut self, session: SessionId, manifest: ManifestId)
        ensures
            final(self)@ == if old(self)@.len() >= IMAGE_CACHE_LIMIT {
                Map::<u128, u128>::empty().insert(session.0, manifest.0)
            } else {
                old(self)@.insert(session.0, manifest.0)
            },
    {
        if self.pins.len() >= IMAGE_CACHE_LIMIT {
            self.pins.clear();
        }
        self.pins.insert(session.0, manifest.0);
    }
}

/// A gateway serves exactly until its advertisement runs out.
pub proof fn gateways_serve_while_advertised(record: Option<GatewayProvider>, now: Timestamp, served: bool)
    requires
        call_ensures(gateway_serves, (&record, now), served),
    ensures
        record is None ==> !served,
        record matches Some(advertised) ==> (served <==> now.nanos < advertised.expires_at.nanos),
{
}

/// What is remembered for a session is got for it, and is not forgotten for others while there is
/// room.
pub proof fn remembered_images_are_got(
    cache: &mut ImageCache,
    session: SessionId,
    manifest: ManifestId,
    other: SessionId,
)
    requires
        call_ensures(ImageCache::remember, (cache, session, manifest), ()),
    ensures
        final(cache)@.dom().contains(session.0) && final(cache)@[session.0] == manifest.0,
        other != session && old(cache)@.len() < IMAGE_CACHE_LIMIT ==> (final(cache)@.dom().contains(other.0) <==> old(
            cache)@.dom().contains(other.0)),
        other != session && old(cache)@.len() < IMAGE_CACHE_LIMIT && old(cache)@.dom().contains(other.0) ==> final(
            cache)@[other.0] == old(cache)@[other.0],
{
}

/// What is got for a session is what is held for it.
pub proof fn got_images_are_held(cache: ImageCache, session: SessionId, manifest: Option<ManifestId>)
    requires
        call_ensures(ImageCache::get, (&cache, session), manifest),
    ensures
        manifest is Some <==> cache.pins@.dom().contains(session.0),
        manifest matches Some(found) ==> found.0 == cache.pins@[session.0],
{
}

} // verus!
