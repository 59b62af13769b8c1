//! Stored payloads: inline up to a limit, otherwise content-addressed in object storage.

use crate::error::{StoreError, StoreResult};
use crate::text::same;
use crate::{INLINE_LIMIT, MAX_BATCH_BYTES};
use vstd::prelude::*;
use vstd::string::StringExecFns;

verus! {

/// The BLAKE3 digest of some bytes.
pub uninterp spec fn blake3_digest(bytes: Seq<u8>) -> Seq<u8>;

/// Calls `blake3::hash` and `Hash::as_bytes`: the digest has 32 bytes and depends on the input
/// bytes alone. Which digest it is, is left to the hash function.
#[verifier::external_body]
pub(crate) fn blake3_hash(bytes: &[u8]) -> (digest: Vec<u8>)
    ensures
        digest@ == blake3_digest(bytes@),
        digest@.len() == 32,
{
    blake3::hash(bytes).as_bytes().to_vec()
}

/// A hexadecimal digit.
pub open spec fn hex_digit(value: int) -> char {
    "0123456789abcdef"@[value]
}

/// Bytes as lower-case hexadecimal digits, two for each byte.
pub open spec fn hex(bytes: Seq<u8>) -> Seq<char>
    decreases bytes.len(),
{
    if bytes.len() == 0 {
        Seq::empty()
    } else {
        hex(bytes.drop_last()) + seq![
            hex_digit(bytes.last() as int / 16),
            hex_digit(bytes.last() as int % 16),
        ]
    }
}

fn digit(value: u8) -> (text: &'static str)
    requires
        value < 16,
    ensures
        text@ == seq![hex_digit(value as int)],
{
    proof {
        reveal_strlit("0123456789abcdef");
        reveal_strlit("0");
        reveal_strlit("1");
        reveal_strlit("2");
        reveal_strlit("3");
        reveal_strlit("4");
        reveal_strlit("5");
        reveal_strlit("6");
        reveal_strlit("7");
        reveal_strlit("8");
        reveal_strlit("9");
        reveal_strlit("a");
        reveal_strlit("b");
        reveal_strlit("c");
        reveal_strlit("d");
        reveal_strlit("e");
        reveal_strlit("f");
    }
    let text = match value {
        0 => "0",
        1 => "1",
        2 => "2",
        3 => "3",
        4 => "4",
        5 => "5",
        6 => "6",
        7 => "7",
        8 => "8",
        9 => "9",
        10 => "a",
        11 => "b",
        12 => "c",
        13 => "d",
        14 => "e",
        _ => "f",
    };
    assert(text@ =~= seq![hex_digit(value as int)]);
    text
}

/// Bytes as lower-case hexadecimal digits.
pub fn hex_text(bytes: &Vec<u8>) -> (text: String)
    ensures
        text@ == hex(bytes@),
{
    let mut text = String::new();
    let mut i: usize = 0;
    assert(text@ =~= hex(bytes@.take(0)));
    while i < bytes.len()
        invariant
            i <= bytes.len(),
            text@ == hex(bytes@.take(i as int)),
        decreases bytes.len() - i,
    {
        let ghost before = text@;
        text.append(digit(bytes[i] / 16));
        text.append(digit(bytes[i] % 16));
        proof {
            assert(bytes@.take(i + 1).drop_last() =~= bytes@.take(i as int));
            assert(text@ =~= before + seq![
                hex_digit(bytes@[i as int] as int / 16),
                hex_digit(bytes@[i as int] as int % 16),
            ]);
        }
        i += 1;
    }
    assert(bytes@.take(i as int) =~= bytes@);
    text
}

/// The key of a content-addressed payload.
pub open spec fn blob_name(bytes: Seq<u8>) -> Seq<char> {
    "blobs/"@ + hex(blake3_digest(bytes))
}

/// The key under which a payload lies in object storage.
pub fn blob_key(bytes: &Vec<u8>) -> (key: String)
    ensures
        key@ == blob_name(bytes@),
{
    let mut key = "blobs/".to_owned();
    let digest = blake3_hash(bytes.as_slice());
    key.append(hex_text(&digest).as_str());
    key
}

/// What a row holds of a payload.
#[derive(Clone, Debug, PartialEq, Eq)]
pub enum StoredValue {
    Inline(Vec<u8>),
    Blob(String),
}

/// A payload ready to store: the row, and what to upload first.
pub struct PreparedValue {
    pub stored: StoredValue,
    pub upload: Option<Vec<u8>>,
}

/// Whether a row stands for `bytes`.
pub open spec fn stands_for(stored: StoredValue, bytes: Seq<u8>) -> bool {
    match stored {
        StoredValue::Inline(held) => held@ == bytes && bytes.len() <= INLINE_LIMIT,
        StoredValue::Blob(key) => key@ == blob_name(bytes) && bytes.len() > INLINE_LIMIT,
    }
}

/// Decides where an encoded payload goes: inline up to the limit, otherwise to object storage
/// under its digest.
pub fn prepare(bytes: Vec<u8>) -> (prepared: PreparedValue)
    ensures
        stands_for(prepared.stored, bytes@),
        match prepared.upload {
            Some(upload) => bytes@.len() > INLINE_LIMIT && upload@ == bytes@,
            None => bytes@.len() <= INLINE_LIMIT,
        },
{
    if bytes.len() > INLINE_LIMIT {
        let key = blob_key(&bytes);
        PreparedValue { stored: StoredValue::Blob(key), upload: Some(bytes) }
    } else {
        PreparedValue { stored: StoredValue::Inline(bytes), upload: None }
    }
}

/// What a row yields, given what object storage returned for its key.
pub open spec fn opened(stored: StoredValue, fetched: Option<Seq<u8>>) -> Option<Seq<u8>> {
    match stored {
        StoredValue::Inline(held) => Some(held@),
        StoredValue::Blob(key) => match fetched {
            Some(bytes) => if key@ == blob_name(bytes) {
                Some(bytes)
            } else {
                None
            },
            None => None,
        },
    }
}

/// Bytes that object storage may return.
pub open spec fn bytes_view(bytes: Option<Vec<u8>>) -> Option<Seq<u8>> {
    match bytes {
        Some(bytes) => Some(bytes@),
        None => None,
    }
}

/// The payload of a row. `fetched` is what object storage returned for the row's key; bytes that
/// do not match the key are corrupt, and so is a key without bytes.
pub fn hydrate(stored: StoredValue, fetched: Option<Vec<u8>>) -> (result: StoreResult<Vec<u8>>)
    ensures
        match opened(stored, bytes_view(fetched)) {
            Some(bytes) => result matches Ok(found) && found@ == bytes,
            None => result matches Err(error) && error == StoreError::Corrupt,
        },
{
    match stored {
        StoredValue::Inline(held) => Ok(held),
        StoredValue::Blob(key) => match fetched {
            Some(bytes) => {
                let expected = blob_key(&bytes);
                if same(key.as_str(), expected.as_str()) {
                    Ok(bytes)
                } else {
                    Err(StoreError::Corrupt)
                }
            },
            None => Err(StoreError::Corrupt),
        },
    }
}

/// A payload comes back as it was stored: the row of prepared bytes, read with the bytes that
/// were uploaded for it, yields those bytes.
pub proof fn payloads_come_back(stored: StoredValue, bytes: Seq<u8>, fetched: Option<Seq<u8>>)
    requires
        stands_for(stored, bytes),
        bytes.len() > INLINE_LIMIT ==> fetched == Some(bytes),
    ensures
        opened(stored, fetched) == Some(bytes),
{
}

/// Bytes that object storage mixed up are refused unless they have the digest of the key.
pub proof fn foreign_bytes_are_refused(stored: StoredValue, bytes: Seq<u8>, fetched: Seq<u8>)
    requires
        stands_for(stored, bytes),
        bytes.len() > INLINE_LIMIT,
        blob_name(fetched) != blob_name(bytes),
    ensures
        opened(stored, Some(fetched)) is None,
{
}

/// Checks the size of one encoded record that has to stay inline.
pub fn check_inline(size: usize) -> (result: StoreResult<()>)
    ensures
        match result {
            Ok(_) => size <= INLINE_LIMIT,
            Err(error) => size > INLINE_LIMIT && error == StoreError::TooLarge,
        },
{
    if size > INLINE_LIMIT {
        Err(StoreError::TooLarge)
    } else {
        Ok(())
    }
}

/// Bytes of the first `count` rows of a batch.
pub open spec fn batch_bytes(sizes: Seq<(usize, usize)>, count: nat) -> nat
    decreases count,
{
    if count == 0 {
        0
    } else {
        batch_bytes(sizes, (count - 1) as nat) + sizes[count - 1].0 as nat + sizes[count
            - 1].1 as nat
    }
}

proof fn batch_bytes_grow(sizes: Seq<(usize, usize)>, count: nat, more: nat)
    requires
        count <= more,
    ensures
        batch_bytes(sizes, count) <= batch_bytes(sizes, more),
    decreases more,
{
    if count < more {
        batch_bytes_grow(sizes, count, (more - 1) as nat);
    }
}

/// Checks the key and value sizes of a batch against the transaction budget.
pub fn check_batch(sizes: &Vec<(usize, usize)>) -> (result: StoreResult<()>)
    ensures
        match result {
            Ok(_) => batch_bytes(sizes@, sizes@.len()) <= MAX_BATCH_BYTES,
            Err(error) => batch_bytes(sizes@, sizes@.len()) > MAX_BATCH_BYTES && error
                == StoreError::TooLarge,
        },
{
    let mut total: usize = 0;
    let mut i: usize = 0;
    while i < sizes.len()
        invariant
            i <= sizes.len(),
            total == batch_bytes(sizes@, i as nat),
            total <= MAX_BATCH_BYTES,
        decreases sizes.len() - i,
    {
        let (key, value) = sizes[i];
        proof {
            batch_bytes_grow(sizes@, (i + 1) as nat, sizes@.len());
        }
        if key > MAX_BATCH_BYTES - total {
            return Err(StoreError::TooLarge);
        }
        if value > MAX_BATCH_BYTES - total - key {
            return Err(StoreError::TooLarge);
        }
        total = total + key + value;
        i += 1;
    }
    Ok(())
}

/// What was prepared comes back byte for byte: from the row alone where it is small, else from the
/// bytes that were uploaded for it.
pub proof fn prepared_bytes_come_back(bytes: Vec<u8>, prepared: PreparedValue, result: StoreResult<Vec<u8>>)
    requires
        call_ensures(prepare, (bytes,), prepared),
        call_ensures(hydrate, (prepared.stored, prepared.upload), result),
    ensures
        result matches Ok(found) && found@ == bytes@,
        prepared.upload is Some <==> bytes@.len() > INLINE_LIMIT,
        prepared.stored is Blob <==> bytes@.len() > INLINE_LIMIT,
{
}

/// A row needs no upload to be read where it holds its bytes, and is refused where its upload is
/// missing.
pub proof fn missing_uploads_are_noticed(stored: StoredValue, result: StoreResult<Vec<u8>>)
    requires
        call_ensures(hydrate, (stored, None::<Vec<u8>>), result),
    ensures
        match stored {
            StoredValue::Inline(held) => result matches Ok(found) && found@ == held@,
            StoredValue::Blob(_) => result matches Err(error) && error == StoreError::Corrupt,
        },
{
}

/// Every byte is written as two digits, in order: the text of two byte strings one after the other is
/// the text of the first and then that of the second.
pub proof fn hex_goes_byte_by_byte(left: Seq<u8>, right: Seq<u8>)
    ensures
        hex(left + right) == hex(left) + hex(right),
        hex(left).len() == 2 * left.len(),
    decreases left.len() + right.len(),
{
    if right.len() > 0 {
        hex_goes_byte_by_byte(left, right.drop_last());
        assert((left + right).drop_last() =~= left + right.drop_last());
        assert((left + right).last() == right.last());
        assert(hex(left + right) =~= hex(left) + hex(right));
    } else {
        assert(left + right =~= left);
        assert(hex(left) + hex(right) =~= hex(left));
        if left.len() > 0 {
            hex_goes_byte_by_byte(left.drop_last(), right);
        }
    }
}

/// Two byte strings with one text are the same.
pub proof fn hex_tells_bytes_apart(left: Seq<u8>, right: Seq<u8>)
    requires
        hex(left) == hex(right),
    ensures
        left == right,
    decreases left.len(),
{
    hex_goes_byte_by_byte(left, right);
    hex_goes_byte_by_byte(right, left);
    if left.len() == 0 {
        assert(left =~= right);
    } else {
        reveal_strlit("0123456789abcdef");
        let a = left.last() as int;
        let b = right.last() as int;
        let n = hex(left).len() as int;
        let x = hex(left.drop_last());
        let y = hex(right.drop_last());
        hex_goes_byte_by_byte(left.drop_last(), right);
        hex_goes_byte_by_byte(right.drop_last(), left);
        assert(hex(left)[n - 2] == hex_digit(a / 16) && hex(left)[n - 1] == hex_digit(a % 16));
        assert(hex(right)[n - 2] == hex_digit(b / 16) && hex(right)[n - 1] == hex_digit(b % 16));
        digits_differ(a / 16, b / 16);
        digits_differ(a % 16, b % 16);
        assert(x =~= hex(left).take(n - 2));
        assert(y =~= hex(right).take(n - 2));
        hex_tells_bytes_apart(left.drop_last(), right.drop_last());
        assert(left =~= left.drop_last().push(left.last()));
        assert(right =~= right.drop_last().push(right.last()));
    }
}

proof fn digits_differ(a: int, b: int)
    requires
        0 <= a < 16,
        0 <= b < 16,
        hex_digit(a) == hex_digit(b),
    ensures
        a == b,
{
    reveal_strlit("0123456789abcdef");
}

/// A value fits in a row up to the limit, and no further.
pub proof fn rows_hold_up_to_the_limit(size: usize, result: StoreResult<()>)
    requires
        call_ensures(check_inline, (size,), result),
    ensures
        result is Ok <==> size <= INLINE_LIMIT,
        result matches Err(error) ==> error == StoreError::TooLarge,
{
}

/// The size of a batch is the sum of the sizes of its keys and its values.
pub proof fn batches_add_up(sizes: Seq<(usize, usize)>, more: (usize, usize), count: nat)
    requires
        count <= sizes.len(),
    ensures
        batch_bytes(sizes, 0) == 0,
        batch_bytes(sizes.push(more), sizes.len() + 1) == batch_bytes(sizes, sizes.len()) + more.0 + more.1,
        batch_bytes(sizes.push(more), count) == batch_bytes(sizes, count),
    decreases count,
{
    if count > 0 {
        batches_add_up(sizes, more, (count - 1) as nat);
    }
    batches_agree(sizes, more, sizes.len());
}

proof fn batches_agree(sizes: Seq<(usize, usize)>, more: (usize, usize), count: nat)
    requires
        count <= sizes.len(),
    ensures
        batch_bytes(sizes.push(more), count) == batch_bytes(sizes, count),
    decreases count,
{
    if count > 0 {
        batches_agree(sizes, more, (count - 1) as nat);
    }
}

/// A batch of one key and one value is taken exactly where both together fit.
pub proof fn single_batches_fit_together(sizes: Vec<(usize, usize)>, result: StoreResult<()>)
    requires
        sizes@.len() == 1,
        call_ensures(check_batch, (&sizes,), result),
    ensures
        result is Ok <==> sizes@[0].0 + sizes@[0].1 <= MAX_BATCH_BYTES,
{
    reveal_with_fuel(batch_bytes, 2);
}

/// A blob is named by the digest of its bytes, in hexadecimal digits.
pub proof fn blobs_are_named_by_their_bytes(bytes: Vec<u8>, key: String, digest: Vec<u8>, text: String)
    requires
        digest@ == blake3_digest(bytes@),
        call_ensures(blob_key, (&bytes,), key),
        call_ensures(hex_text, (&digest,), text),
    ensures
        key@ == "blobs/"@ + text@,
        text@.len() == 2 * digest@.len(),
{
    hex_goes_byte_by_byte(digest@, Seq::empty());
}

} // verus!
