//! Encryption of credentials at rest, bound to the scope and the entry they belong to.

use crate::error::{StoreError, StoreResult};
use crate::ids::{base32_digit, base32_text, ulid_text, AgentId};
use crate::INLINE_LIMIT;
use chacha20poly1305::aead::{Aead, KeyInit, Payload};
use chacha20poly1305::{XChaCha20Poly1305, XNonce};
use rand::TryRngCore;
use vstd::prelude::*;
use vstd::string::StrSliceExecFns;
use vstd::utf8::{encode_utf8, encode_utf8_decode_utf8};

verus! {

/// The key of a cluster.
pub struct Keyring {
    pub key: [u8; 32],
}

impl Keyring {
    /// A keyring that holds a key.
    pub fn from_bytes(key: [u8; 32]) -> (keyring: Keyring)
        ensures
            keyring.key@ == key@,
    {
        Keyring { key }
    }
}

/// Who a credential serves.
#[derive(Clone, Copy, Debug, PartialEq, Eq, Structural)]
pub enum CredentialScope {
    Cluster,
    Agent(AgentId),
}

/// A message sealed under a key and a nonce, bound to associated data.
pub uninterp spec fn sealed(key: Seq<u8>, nonce: Seq<u8>, aad: Seq<u8>, message: Seq<u8>) -> Seq<u8>;

/// The message of a sealed value; none when it was not sealed under the key and the nonce for the
/// associated data.
pub uninterp spec fn unsealed(key: Seq<u8>, nonce: Seq<u8>, aad: Seq<u8>, value: Seq<u8>) -> Option<Seq<u8>>;

/// Calls `chacha20poly1305::aead::Aead::encrypt` on `XChaCha20Poly1305`. The result depends on the
/// arguments alone and opens again under the same key, nonce and associated data; it is 16 bytes
/// longer than the message. The call fails only on messages far beyond the bound. That nobody
/// without the key can make such a value is not stated.
#[verifier::external_body]
fn seal(key: &[u8; 32], nonce: &Vec<u8>, aad: &Vec<u8>, message: &Vec<u8>) -> (value: Option<Vec<u8>>)
    requires
        nonce@.len() == 24,
        message@.len() <= INLINE_LIMIT,
    ensures
        match value {
            Some(bytes) => {
                &&& bytes@ == sealed(key@, nonce@, aad@, message@)
                &&& bytes@.len() == message@.len() + 16
                &&& unsealed(key@, nonce@, aad@, bytes@) == Some(message@)
            },
            None => false,
        },
{
    let payload = Payload { msg: message, aad };
    XChaCha20Poly1305::new(key.into()).encrypt(XNonce::from_slice(nonce), payload).ok()
}

/// Calls `chacha20poly1305::aead::Aead::decrypt` on `XChaCha20Poly1305`. The result depends on the
/// arguments alone; a value shorter than the tag of 16 bytes does not open. Which other values do
/// not open is left to the cipher.
#[verifier::external_body]
fn unseal(key: &[u8; 32], nonce: &Vec<u8>, aad: &Vec<u8>, value: &Vec<u8>) -> (message: Option<Vec<u8>>)
    requires
        nonce@.len() == 24,
    ensures
        match message {
            Some(bytes) => unsealed(key@, nonce@, aad@, value@) == Some(bytes@),
            None => unsealed(key@, nonce@, aad@, value@) is None,
        },
        value@.len() < 16 ==> message is None,
{
    let payload = Payload { msg: value, aad };
    XChaCha20Poly1305::new(key.into()).decrypt(XNonce::from_slice(nonce), payload).ok()
}

/// Calls `rand::TryRngCore::try_fill_bytes` on `rand::rngs::OsRng` for a nonce. The bytes are the
/// operating system's; only their number is known, and that the call may fail.
#[verifier::external_body]
fn random_nonce() -> (nonce: Option<Vec<u8>>)
    ensures
        nonce matches Some(bytes) ==> bytes@.len() == 24,
{
    let mut nonce = vec![0; 24];
    rand::rngs::OsRng.try_fill_bytes(&mut nonce).ok()?;
    Some(nonce)
}

// ---------------------------------------------------------------------------------------------
// Associated data
// ---------------------------------------------------------------------------------------------

/// A number in groups of seven bits, least significant first, all but the last marked.
pub open spec fn varint(value: nat) -> Seq<u8>
    decreases value,
{
    if value < 128 {
        seq![value as u8]
    } else {
        seq![(128 + value % 128) as u8] + varint(value / 128)
    }
}

/// A text with its length in front.
pub open spec fn prefixed_text(text: Seq<char>) -> Seq<u8> {
    varint(encode_utf8(text).len()) + encode_utf8(text)
}

/// What a sealed credential is bound to: the version of the encoding, the scope and the identity.
pub open spec fn associated(scope: CredentialScope, identity: Seq<char>) -> Seq<u8> {
    match scope {
        CredentialScope::Cluster => seq![1u8, 0u8] + prefixed_text(identity),
        CredentialScope::Agent(agent) => seq![1u8, 1u8] + prefixed_text(
            base32_text(agent.0 as nat, 26),
        ) + prefixed_text(identity),
    }
}

fn push_text(bytes: &mut Vec<u8>, text: &str)
    ensures
        final(bytes)@ == old(bytes)@ + prefixed_text(text@),
{
    let ghost before = bytes@;
    let utf8 = text.as_bytes_vec();
    let mut rest: usize = utf8.len();
    let ghost all = varint(utf8@.len());
    assert(before + all =~= bytes@ + all);
    while rest >= 128
        invariant
            bytes@ + varint(rest as nat) == before + all,
        decreases rest,
    {
        let ghost held = bytes@;
        bytes.push((128 + rest % 128) as u8);
        assert(held + varint(rest as nat) =~= bytes@ + varint((rest / 128) as nat));
        rest = rest / 128;
    }
    let ghost held = bytes@;
    bytes.push(rest as u8);
    assert(bytes@ =~= held + varint(rest as nat));
    bytes.extend_from_slice(utf8.as_slice());
    assert(bytes@ =~= before + prefixed_text(text@));
}

/// The bytes that a sealed credential is bound to.
pub fn associated_data(scope: CredentialScope, identity: &str) -> (bytes: Vec<u8>)
    ensures
        bytes@ == associated(scope, identity@),
{
    let mut bytes: Vec<u8> = Vec::new();
    bytes.push(1);
    match scope {
        CredentialScope::Cluster => {
            bytes.push(0);
            assert(bytes@ =~= seq![1u8, 0u8]);
        },
        CredentialScope::Agent(agent) => {
            bytes.push(1);
            assert(bytes@ =~= seq![1u8, 1u8]);
            let id = ulid_text(agent.0);
            push_text(&mut bytes, id.as_str());
        },
    }
    push_text(&mut bytes, identity);
    bytes
}

proof fn varint_unique(a: nat, x: Seq<u8>, b: nat, y: Seq<u8>)
    requires
        varint(a) + x == varint(b) + y,
    ensures
        a == b,
        x == y,
    decreases a,
{
    let left = varint(a) + x;
    let right = varint(b) + y;
    assert(left[0] == right[0]);
    if a < 128 {
        assert(varint(a)[0] == a);
        assert(b < 128);
        assert(left.skip(1) =~= x);
        assert(right.skip(1) =~= y);
    } else {
        assert(b >= 128);
        assert(left.skip(1) =~= varint(a / 128) + x);
        assert(right.skip(1) =~= varint(b / 128) + y);
        varint_unique(a / 128, x, b / 128, y);
    }
}

proof fn prefixed_unique(a: Seq<char>, x: Seq<u8>, b: Seq<char>, y: Seq<u8>)
    requires
        prefixed_text(a) + x == prefixed_text(b) + y,
    ensures
        a == b,
        x == y,
{
    let u = encode_utf8(a);
    let v = encode_utf8(b);
    assert(varint(u.len()) + (u + x) =~= prefixed_text(a) + x);
    assert(varint(v.len()) + (v + y) =~= prefixed_text(b) + y);
    varint_unique(u.len(), u + x, v.len(), v + y);
    assert((u + x).take(u.len() as int) =~= u);
    assert((v + y).take(v.len() as int) =~= v);
    assert((u + x).skip(u.len() as int) =~= x);
    assert((v + y).skip(v.len() as int) =~= y);
    encode_utf8_decode_utf8(a);
    encode_utf8_decode_utf8(b);
}

proof fn digit_unique(a: nat, b: nat)
    requires
        a < 32,
        b < 32,
        base32_digit(a) == base32_digit(b),
    ensures
        a == b,
{
    reveal_strlit("0123456789ABCDEFGHJKMNPQRSTVWXYZ");
}

proof fn base32_unique(a: nat, b: nat, width: nat, range: nat)
    requires
        base32_text(a, width) == base32_text(b, width),
        a < range,
        b < range,
        range == thirty_twos(width),
    ensures
        a == b,
    decreases width,
{
    if width > 0 {
        let x = base32_text(a, width);
        let y = base32_text(b, width);
        assert(x.last() == y.last());
        digit_unique(a % 32, b % 32);
        assert(x.drop_last() =~= base32_text(a / 32, (width - 1) as nat));
        assert(y.drop_last() =~= base32_text(b / 32, (width - 1) as nat));
        base32_unique(a / 32, b / 32, (width - 1) as nat, thirty_twos((width - 1) as nat));
    }
}

/// 32 to the power of `width`.
pub open spec fn thirty_twos(width: nat) -> nat
    decreases width,
{
    if width == 0 {
        1
    } else {
        32 * thirty_twos((width - 1) as nat)
    }
}

/// Different credentials are bound to different data: scope and identity can be told from it.
pub proof fn associated_data_tells_apart(a: CredentialScope, x: Seq<char>, b: CredentialScope, y: Seq<char>)
    requires
        associated(a, x) == associated(b, y),
    ensures
        a == b,
        x == y,
{
    let left = associated(a, x);
    let right = associated(b, y);
    assert(left[1] == right[1]);
    let none = Seq::<u8>::empty();
    match (a, b) {
        (CredentialScope::Cluster, CredentialScope::Cluster) => {
            assert(left.skip(2) =~= prefixed_text(x) + none);
            assert(right.skip(2) =~= prefixed_text(y) + none);
            prefixed_unique(x, none, y, none);
        },
        (CredentialScope::Agent(m), CredentialScope::Agent(n)) => {
            let p = base32_text(m.0 as nat, 26);
            let q = base32_text(n.0 as nat, 26);
            assert(left.skip(2) =~= prefixed_text(p) + prefixed_text(x));
            assert(right.skip(2) =~= prefixed_text(q) + prefixed_text(y));
            prefixed_unique(p, prefixed_text(x), q, prefixed_text(y));
            assert(prefixed_text(x) =~= prefixed_text(x) + none);
            assert(prefixed_text(y) =~= prefixed_text(y) + none);
            prefixed_unique(x, none, y, none);
            reveal_with_fuel(thirty_twos, 27);
            base32_unique(m.0 as nat, n.0 as nat, 26, thirty_twos(26));
        },
        _ => {},
    }
}

// ---------------------------------------------------------------------------------------------
// Encryption
// ---------------------------------------------------------------------------------------------

/// What an encrypted value holds: a nonce of 24 bytes and the sealed message.
pub open spec fn decrypted(key: Seq<u8>, scope: CredentialScope, identity: Seq<char>, bytes: Seq<u8>) -> Option<Seq<u8>> {
    if bytes.len() < 24 {
        None
    } else {
        unsealed(key, bytes.take(24), associated(scope, identity), bytes.skip(24))
    }
}

/// Encrypts a message under a nonce that was drawn for it; none stands for a failed draw.
pub fn encrypt_with(keyring: &Keyring, scope: CredentialScope, identity: &str, message: &Vec<u8>, nonce: Option<Vec<u8>>) -> (result: StoreResult<Vec<u8>>)
    requires
        nonce matches Some(bytes) ==> bytes@.len() == 24,
    ensures
        if message@.len() > INLINE_LIMIT {
            result matches Err(error) && error == StoreError::TooLarge
        } else {
            match nonce {
                Some(nonce) => {
                    &&& result matches Ok(bytes)
                    &&& bytes@ == nonce@ + sealed(
                        keyring.key@,
                        nonce@,
                        associated(scope, identity@),
                        message@,
                    )
                    &&& decrypted(keyring.key@, scope, identity@, bytes@) == Some(message@)
                },
                None => result matches Err(error) && error == StoreError::Keyring,
            }
        },
{
    if message.len() > INLINE_LIMIT {
        return Err(StoreError::TooLarge);
    }
    let nonce = match nonce {
        Some(nonce) => nonce,
        None => {
            return Err(StoreError::Keyring);
        },
    };
    let aad = associated_data(scope, identity);
    match seal(&keyring.key, &nonce, &aad, message) {
        Some(value) => {
            let mut bytes: Vec<u8> = Vec::new();
            bytes.extend_from_slice(nonce.as_slice());
            bytes.extend_from_slice(value.as_slice());
            assert(bytes@ =~= nonce@ + value@);
            assert(bytes@.take(24) =~= nonce@);
            assert(bytes@.skip(24) =~= value@);
            Ok(bytes)
        },
        None => Err(StoreError::Keyring),
    }
}

/// Encrypts a message for a scope and an identity under a fresh nonce. What is encrypted can be
/// decrypted under the same key, scope and identity.
pub fn encrypt(keyring: &Keyring, scope: CredentialScope, identity: &str, message: &Vec<u8>) -> (result: StoreResult<Vec<u8>>)
    ensures
        match result {
            Ok(bytes) => message@.len() <= INLINE_LIMIT && decrypted(
                keyring.key@,
                scope,
                identity@,
                bytes@,
            ) == Some(message@),
            Err(error) => if message@.len() > INLINE_LIMIT {
                error == StoreError::TooLarge
            } else {
                error == StoreError::Keyring
            },
        },
{
    if message.len() > INLINE_LIMIT {
        return Err(StoreError::TooLarge);
    }
    encrypt_with(keyring, scope, identity, message, random_nonce())
}

/// Decrypts a value. One that is too short, or was not encrypted under this key for this scope and
/// identity, is refused.
pub fn decrypt(keyring: &Keyring, scope: CredentialScope, identity: &str, bytes: &Vec<u8>) -> (result: StoreResult<Vec<u8>>)
    ensures
        match decrypted(keyring.key@, scope, identity@, bytes@) {
            Some(message) => result matches Ok(found) && found@ == message,
            None => result matches Err(error) && error == StoreError::Keyring,
        },
        bytes@.len() < 40 ==> result is Err,
{
    if bytes.len() < 24 {
        return Err(StoreError::Keyring);
    }
    let mut nonce: Vec<u8> = Vec::new();
    nonce.extend_from_slice(bytes.as_slice());
    let value = nonce.split_off(24);
    assert(nonce@ =~= bytes@.take(24));
    assert(value@ =~= bytes@.skip(24));
    let aad = associated_data(scope, identity);
    match unseal(&keyring.key, &nonce, &aad, &value) {
        Some(message) => Ok(message),
        None => Err(StoreError::Keyring),
    }
}

/// What was sealed under a key, for a scope and an identity, is opened again under the same, byte for
/// byte.
pub proof fn sealed_secrets_are_opened(
    keyring: Keyring,
    scope: CredentialScope,
    identity: &str,
    message: Vec<u8>,
    sealed_bytes: StoreResult<Vec<u8>>,
    result: StoreResult<Vec<u8>>,
)
    requires
        call_ensures(encrypt, (&keyring, scope, identity, &message), sealed_bytes),
        sealed_bytes is Ok,
        call_ensures(decrypt, (&keyring, scope, identity, &sealed_bytes->Ok_0), result),
    ensures
        result matches Ok(found) && found@ == message@,
        message@.len() <= INLINE_LIMIT,
{
}

/// The same holds with a nonce that is given, which then stands in front.
pub proof fn given_nonces_stand_in_front(
    keyring: Keyring,
    scope: CredentialScope,
    identity: &str,
    message: Vec<u8>,
    nonce: Vec<u8>,
    sealed_bytes: StoreResult<Vec<u8>>,
    result: StoreResult<Vec<u8>>,
)
    requires
        nonce@.len() == 24,
        message@.len() <= INLINE_LIMIT,
        call_ensures(encrypt_with, (&keyring, scope, identity, &message, Some(nonce)), sealed_bytes),
        sealed_bytes is Ok,
        call_ensures(decrypt, (&keyring, scope, identity, &sealed_bytes->Ok_0), result),
    ensures
        sealed_bytes->Ok_0@.len() >= 24 && sealed_bytes->Ok_0@.take(24) == nonce@,
        result matches Ok(found) && found@ == message@,
{
    assert(sealed_bytes->Ok_0@.take(24) =~= nonce@);
}

/// A keyring holds the key that it was made of.
pub proof fn keyrings_hold_their_key(key: [u8; 32], keyring: Keyring)
    requires
        call_ensures(Keyring::from_bytes, (key,), keyring),
    ensures
        keyring.key@ == key@,
{
}

} // verus!
