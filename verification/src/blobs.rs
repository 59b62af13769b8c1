//! Payloads kept in memory, and how an object store client is set up.

use crate::text::{pieces, same, split, split_first, split_once};
use crate::textmap::TextMap;
use vstd::prelude::*;

verus! {

/// Payloads under their keys.
pub struct MemoryBlobs {
    pub values: TextMap<Vec<u8>>,
}

/// Why a payload could not be read.
#[derive(Clone, Debug, PartialEq, Eq)]
pub enum BlobError {
    Missing(String),
}

impl View for MemoryBlobs {
    type V = Map<Seq<char>, Seq<u8>>;

    open spec fn view(&self) -> Map<Seq<char>, Seq<u8>> {
        self.values@.map_values(|value: Vec<u8>| value@)
    }
}

impl MemoryBlobs {
    /// Whether the keys are in order.
    pub open spec fn wf(&self) -> bool {
        self.values.wf()
    }

    /// No payloads.
    pub fn new() -> (blobs: MemoryBlobs)
        ensures
            blobs.wf(),
            blobs@ == Map::<Seq<char>, Seq<u8>>::empty(),
    {
        let blobs = MemoryBlobs { values: TextMap::new() };
        assert(blobs@ =~= Map::<Seq<char>, Seq<u8>>::empty());
        blobs
    }

    /// Keeps a payload. Repeating is safe.
    pub fn put(&mut self, key: &str, value: Vec<u8>)
        requires
            old(self).wf(),
        ensures
            final(self).wf(),
            final(self)@ == old(self)@.insert(key@, value@),
    {
        let ghost before = self@;
        let ghost bytes = value@;
        self.values.insert(key.to_owned(), value);
        assert(self@ =~= before.insert(key@, bytes));
    }

    /// The payload under a key.
    pub fn get(&self, key: &str) -> (result: Result<Vec<u8>, BlobError>)
        requires
            self.wf(),
        ensures
            match result {
                Ok(value) => self@.dom().contains(key@) && self@[key@] == value@,
                Err(BlobError::Missing(name)) => !self@.dom().contains(key@) && name@ == key@,
            },
    {
        match self.values.get(key) {
            Some(value) => {
                let mut copy: Vec<u8> = Vec::new();
                copy.extend_from_slice(value.as_slice());
                assert(copy@ =~= value@);
                Ok(copy)
            },
            None => Err(BlobError::Missing(key.to_owned())),
        }
    }
}

/// What a read gives back is what was last put under the key, whatever was put under others.
pub proof fn payloads_stay(before: Map<Seq<char>, Seq<u8>>, key: Seq<char>, value: Seq<u8>, other: Seq<char>, more: Seq<u8>)
    requires
        key != other,
    ensures
        before.insert(key, value)[key] == value,
        before.insert(key, value).insert(other, more)[key] == value,
        before.insert(key, value).insert(key, value) == before.insert(key, value),
{
    assert(before.insert(key, value).insert(key, value) =~= before.insert(key, value));
}

/// How an object store is addressed and who signs requests: with no endpoint the regional one is
/// used, and with neither key the default chain of credentials.
pub fn regional_mode(endpoint: &str, access_key: &str, secret_key: &str) -> (mode: (bool, bool))
    ensures
        mode.0 == (endpoint@.len() == 0),
        mode.1 == (access_key@.len() == 0 && secret_key@.len() == 0),
{
    (endpoint.is_empty(), access_key.is_empty() && secret_key.is_empty())
}

/// Whether a segment of an object name keeps its place: not empty, and no step up or in place.
pub open spec fn plain_segment(segment: Seq<char>) -> bool {
    segment.len() > 0 && segment != "."@ && segment != ".."@
}

/// Whether every segment of a prefix keeps its place.
pub open spec fn plain_prefix(prefix: Seq<char>) -> bool {
    forall|i: int| 0 <= i < pieces(prefix, '/').len() ==> plain_segment(#[trigger] pieces(prefix, '/')[i])
}

/// Whether every segment of a prefix keeps its place.
fn is_plain_prefix(prefix: &str) -> (plain: bool)
    ensures
        plain == plain_prefix(prefix@),
{
    let segments = split(prefix, '/');
    let mut i: usize = 0;
    while i < segments.len()
        invariant
            i <= segments.len(),
            segments@.map_values(|part: String| part@) == pieces(prefix@, '/'),
            forall|j: int| 0 <= j < i ==> plain_segment(#[trigger] pieces(prefix@, '/')[j]),
        decreases segments.len() - i,
    {
        let segment = segments[i].as_str();
        assert(pieces(prefix@, '/')[i as int] == segment@);
        if segment.is_empty() || same(segment, ".") || same(segment, "..") {
            return false;
        }
        i += 1;
    }
    true
}

/// The bucket and the prefix that settings stand for: a prefix may be written behind the bucket's
/// name or on its own, not both.
pub open spec fn namespace_of(bucket: Seq<char>, prefix: Seq<char>) -> Option<(Seq<char>, Seq<char>)> {
    match split_first(bucket, '/') {
        Some((name, rest)) => if name.len() > 0 && prefix.len() == 0 && plain_prefix(rest) {
            Some((name, rest))
        } else {
            None
        },
        None => if bucket.len() > 0 && (prefix.len() == 0 || plain_prefix(prefix)) {
            Some((bucket, prefix))
        } else {
            None
        },
    }
}

/// The bucket and the prefix that settings stand for; none where they are invalid or ambiguous.
pub fn s3_namespace(bucket: &str, prefix: &str) -> (namespace: Option<(String, String)>)
    ensures
        match namespace {
            Some((name, path)) => namespace_of(bucket@, prefix@) == Some((name@, path@)),
            None => namespace_of(bucket@, prefix@) is None,
        },
{
    match split_once(bucket, '/') {
        Some((name, rest)) => if !name.as_str().is_empty() && prefix.is_empty() && is_plain_prefix(
            rest.as_str(),
        ) {
            Some((name, rest))
        } else {
            None
        },
        None => if !bucket.is_empty() && (prefix.is_empty() || is_plain_prefix(prefix)) {
            Some((bucket.to_owned(), prefix.to_owned()))
        } else {
            None
        },
    }
}

/// A value that was put is got under its key, and every other key keeps what it had.
pub proof fn puts_are_got(blobs: &mut MemoryBlobs, key: &str, value: Vec<u8>, other: Seq<char>)
    requires
        old(blobs).wf(),
        call_ensures(MemoryBlobs::put, (blobs, key, value), ()),
    ensures
        final(blobs)@.dom().contains(key@) && final(blobs)@[key@] == value@,
        other != key@ ==> (final(blobs)@.dom().contains(other) <==> old(blobs)@.dom().contains(other)),
        other != key@ && old(blobs)@.dom().contains(other) ==> final(blobs)@[other] == old(blobs)@[other],
{
}

/// What is got is what is held, byte for byte; a key that is not held is named in the error.
pub proof fn gets_tell_what_is_held(blobs: MemoryBlobs, key: &str, result: Result<Vec<u8>, BlobError>)
    requires
        blobs.wf(),
        call_ensures(MemoryBlobs::get, (&blobs, key), result),
    ensures
        result is Ok <==> blobs.values@.dom().contains(key@),
        result matches Ok(value) ==> value@ == blobs.values@[key@]@,
        result matches Err(BlobError::Missing(name)) ==> name@ == key@,
{
}

/// A bucket is followed by a prefix of its own, or the prefix is given beside it, never both; put
/// together again they are what was written.
pub proof fn namespaces_keep_bucket_and_prefix(bucket: &str, prefix: &str, namespace: Option<(String, String)>)
    requires
        call_ensures(s3_namespace, (bucket, prefix), namespace),
    ensures
        namespace matches Some((name, path)) ==> {
            &&& name@.len() > 0 && !name@.contains('/')
            &&& bucket@.contains('/') ==> prefix@.len() == 0 && bucket@ == name@ + seq!['/'] + path@
            &&& !bucket@.contains('/') ==> name@ == bucket@ && path@ == prefix@
        },
        bucket@.len() == 0 ==> namespace is None,
{
    crate::text::first_index_marks(bucket@, '/');
    let at = crate::text::first_index(bucket@, '/');
    if bucket@.contains('/') {
        let i = choose|i: int| 0 <= i < bucket@.len() && bucket@[i] == '/';
        assert(at <= i);
        assert(bucket@ =~= bucket@.take(at) + seq!['/'] + bucket@.skip(at + 1));
    } else if at < bucket@.len() {
        assert(bucket@[at] == '/');
    }
}

/// An endpoint, or a pair of keys, that is left empty is left to the region's own.
pub proof fn empty_settings_are_regional(endpoint: &str, access_key: &str, secret_key: &str, mode: (bool, bool))
    requires
        call_ensures(regional_mode, (endpoint, access_key, secret_key), mode),
    ensures
        mode.0 <==> endpoint@.len() == 0,
        mode.1 ==> access_key@.len() == 0 && secret_key@.len() == 0,
        access_key@.len() == 0 && secret_key@.len() == 0 ==> mode.1,
{
}

} // verus!
