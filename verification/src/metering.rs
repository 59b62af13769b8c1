//! Hourly metering buckets.
//!
//! Each counter of a bucket is a row of its own. Single dimensions are keyed by dimension, hour,
//! key and field; combined dimensions by dimension, owner, hour, entry and field. The hour always
//! comes before the parts that vary, so every read is one range over the queried hours.

use crate::error::{StoreError, StoreResult};
use crate::events::TokenUsage;
use crate::keys::{
    bucket_parts, continuation_range, continuations, continuations_keep_order, key_range, pack_key,
    packed, part_views, parts_less, parts_size, storable, unpack_bucket, unpacked, within, KeyPart,
    PartView,
};
use crate::text::{first_index_unique, join2, same, split_first, split_once};
use vstd::prelude::*;

verus! {

/// What usage is summed by. An entry is a provider and a label. The combined dimensions serve the
/// breakdowns of one agent or session and are not asked for by name.
#[derive(Clone, Copy, Debug, PartialEq, Eq, Structural)]
pub enum MeteringDimension {
    Session,
    Agent,
    Provider,
    Entry,
    EntryKind,
    Model,
    AgentEntry,
    SessionEntry,
}

/// The name of a dimension in keys.
pub open spec fn dimension_name(dimension: MeteringDimension) -> Seq<char> {
    match dimension {
        MeteringDimension::Session => "session"@,
        MeteringDimension::Agent => "agent"@,
        MeteringDimension::Provider => "provider"@,
        MeteringDimension::Entry => "entry"@,
        MeteringDimension::EntryKind => "entry_kind"@,
        MeteringDimension::Model => "model"@,
        MeteringDimension::AgentEntry => "agent_entry"@,
        MeteringDimension::SessionEntry => "session_entry"@,
    }
}

/// The dimension that a name asks for.
pub open spec fn named_dimension(name: Seq<char>) -> Option<MeteringDimension> {
    if name == "session"@ {
        Some(MeteringDimension::Session)
    } else if name == "agent"@ {
        Some(MeteringDimension::Agent)
    } else if name == "provider"@ {
        Some(MeteringDimension::Provider)
    } else if name == "entry"@ {
        Some(MeteringDimension::Entry)
    } else if name == "entry_kind"@ || name == "kind"@ {
        Some(MeteringDimension::EntryKind)
    } else if name == "model"@ {
        Some(MeteringDimension::Model)
    } else {
        None
    }
}

impl MeteringDimension {
    /// The name of the dimension in keys.
    pub fn as_str(self) -> (name: &'static str)
        ensures
            name@ == dimension_name(self),
    {
        match self {
            MeteringDimension::Session => "session",
            MeteringDimension::Agent => "agent",
            MeteringDimension::Provider => "provider",
            MeteringDimension::Entry => "entry",
            MeteringDimension::EntryKind => "entry_kind",
            MeteringDimension::Model => "model",
            MeteringDimension::AgentEntry => "agent_entry",
            MeteringDimension::SessionEntry => "session_entry",
        }
    }

    /// The dimension that a name asks for: one of the six single ones, `kind` being short for
    /// `entry_kind`.
    pub fn parse(value: &str) -> (dimension: Option<MeteringDimension>)
        ensures
            dimension == named_dimension(value@),
    {
        if same(value, "session") {
            Some(MeteringDimension::Session)
        } else if same(value, "agent") {
            Some(MeteringDimension::Agent)
        } else if same(value, "provider") {
            Some(MeteringDimension::Provider)
        } else if same(value, "entry") {
            Some(MeteringDimension::Entry)
        } else if same(value, "entry_kind") || same(value, "kind") {
            Some(MeteringDimension::EntryKind)
        } else if same(value, "model") {
            Some(MeteringDimension::Model)
        } else {
            None
        }
    }
}

/// Whether a dimension nests an owner in its keys.
pub open spec fn combined(dimension: MeteringDimension) -> bool {
    dimension == MeteringDimension::AgentEntry || dimension == MeteringDimension::SessionEntry
}

/// Whether a dimension nests an owner in its keys.
pub fn is_combined(dimension: MeteringDimension) -> (found: bool)
    ensures
        found == combined(dimension),
{
    dimension == MeteringDimension::AgentEntry || dimension == MeteringDimension::SessionEntry
}

/// Names go both ways: every single dimension is found by its own name, and the combined ones by
/// none.
pub proof fn dimension_names_go_both_ways(dimension: MeteringDimension, name: Seq<char>)
    ensures
        !combined(dimension) ==> named_dimension(dimension_name(dimension)) == Some(dimension),
        combined(dimension) ==> named_dimension(name) != Some(dimension),
{
    reveal_strlit("session");
    reveal_strlit("agent");
    reveal_strlit("provider");
    reveal_strlit("entry");
    reveal_strlit("entry_kind");
    reveal_strlit("kind");
    reveal_strlit("model");
    assert("session"@.len() == 7 && "agent"@.len() == 5 && "provider"@.len() == 8);
    assert("entry"@.len() == 5 && "entry_kind"@.len() == 10 && "model"@.len() == 5);
    assert("agent"@[0] == 'a' && "entry"@[0] == 'e' && "model"@[0] == 'm');
}

/// The start of the hour of a second.
pub open spec fn hour_of(second: int) -> int {
    second - second % 3_600
}

/// Truncates a second to its hour.
pub fn hour_floor(second: i64) -> (hour: i64)
    requires
        hour_of(second as int) >= i64::MIN,
    ensures
        hour == hour_of(second as int),
{
    if second >= 0 {
        second - second % 3_600
    } else {
        let size: i128 = -(second as i128);
        let rest: i128 = size % 3_600;
        proof {
            let s = second as int;
            assert(s % 3_600 == if rest == 0 {
                0
            } else {
                3_600 - rest
            });
        }
        if rest == 0 {
            second
        } else {
            (second as i128 - (3_600 - rest)) as i64
        }
    }
}

/// Hours are whole: a second lies in its hour, and the hour of an hour is that hour.
pub proof fn hours_are_whole(second: int)
    ensures
        hour_of(second) % 3_600 == 0,
        hour_of(second) <= second < hour_of(second) + 3_600,
        hour_of(hour_of(second)) == hour_of(second),
{
}

/// The name of an entry: provider and label.
pub open spec fn entry_name(provider: Seq<char>, label: Seq<char>) -> Seq<char> {
    provider + "/"@ + label
}

/// Joins provider and label.
pub fn entry_key(provider: &str, label: &str) -> (key: String)
    ensures
        key@ == entry_name(provider@, label@),
{
    let start = join2(provider, "/");
    join2(start.as_str(), label)
}

/// The entry of completions that name none: the provider stays known.
pub fn unknown_entry_key(provider: &str) -> (key: String)
    ensures
        key@ == entry_name(provider@, "-"@),
{
    entry_key(provider, "-")
}

/// Splits an owner from an entry at the first slash.
pub fn split_combined_key(key: &str) -> (result: StoreResult<(String, String)>)
    ensures
        match split_first(key@, '/') {
            Some((owner, entry)) => result matches Ok(parts) && parts.0@ == owner && parts.1@ == entry,
            None => result matches Err(error) && error == StoreError::Corrupt,
        },
{
    match split_once(key, '/') {
        Some(parts) => Ok(parts),
        None => Err(StoreError::Corrupt),
    }
}

/// An owner without slashes comes back from a combined key, and so does the entry with all of its
/// own slashes.
pub proof fn combined_keys_split(owner: Seq<char>, entry: Seq<char>)
    requires
        !owner.contains('/'),
    ensures
        split_first(entry_name(owner, entry), '/') == Some((owner, entry)),
{
    reveal_strlit("/");
    let key = entry_name(owner, entry);
    let at = owner.len() as int;
    assert(key[at] == '/');
    assert forall|i: int| 0 <= i < at implies key[i] != '/' by {
        assert(owner.contains(owner[i]));
    }
    first_index_unique(key, '/', at);
    assert(key.take(at) =~= owner);
    assert(key.skip(at + 1) =~= entry);
}

// ---------------------------------------------------------------------------------------------
// Counters
// ---------------------------------------------------------------------------------------------

/// The counters of a bucket.
#[derive(Clone, Copy, Debug, PartialEq, Eq, Structural)]
pub struct Counters {
    pub input: u64,
    pub cached: u64,
    pub cache_write: u64,
    pub output: u64,
    pub reasoning: u64,
    pub total: u64,
    pub cost: u64,
    pub completions: u64,
}

/// A counter of a bucket.
#[derive(Clone, Copy, Debug, PartialEq, Eq, Structural)]
pub enum Field {
    Input,
    Cached,
    CacheWrite,
    Output,
    Reasoning,
    Total,
    Cost,
    Completions,
}

/// The name of a counter in keys.
pub open spec fn field_name(field: Field) -> Seq<char> {
    match field {
        Field::Input => "input"@,
        Field::Cached => "cached"@,
        Field::CacheWrite => "cache_write"@,
        Field::Output => "output"@,
        Field::Reasoning => "reasoning"@,
        Field::Total => "total"@,
        Field::Cost => "cost"@,
        Field::Completions => "completions"@,
    }
}

/// The counter that a name stands for.
pub open spec fn named_field(name: Seq<char>) -> Option<Field> {
    if name == "input"@ {
        Some(Field::Input)
    } else if name == "cached"@ {
        Some(Field::Cached)
    } else if name == "cache_write"@ {
        Some(Field::CacheWrite)
    } else if name == "output"@ {
        Some(Field::Output)
    } else if name == "reasoning"@ {
        Some(Field::Reasoning)
    } else if name == "total"@ {
        Some(Field::Total)
    } else if name == "cost"@ {
        Some(Field::Cost)
    } else if name == "completions"@ {
        Some(Field::Completions)
    } else {
        None
    }
}

impl Field {
    /// The name of the counter in keys.
    pub fn name(self) -> (name: &'static str)
        ensures
            name@ == field_name(self),
    {
        match self {
            Field::Input => "input",
            Field::Cached => "cached",
            Field::CacheWrite => "cache_write",
            Field::Output => "output",
            Field::Reasoning => "reasoning",
            Field::Total => "total",
            Field::Cost => "cost",
            Field::Completions => "completions",
        }
    }

    /// The counter that a name stands for.
    pub fn parse(value: &str) -> (field: Option<Field>)
        ensures
            field == named_field(value@),
    {
        if same(value, "input") {
            Some(Field::Input)
        } else if same(value, "cached") {
            Some(Field::Cached)
        } else if same(value, "cache_write") {
            Some(Field::CacheWrite)
        } else if same(value, "output") {
            Some(Field::Output)
        } else if same(value, "reasoning") {
            Some(Field::Reasoning)
        } else if same(value, "total") {
            Some(Field::Total)
        } else if same(value, "cost") {
            Some(Field::Cost)
        } else if same(value, "completions") {
            Some(Field::Completions)
        } else {
            None
        }
    }
}

/// Counters with one of them set.
pub open spec fn with_field(c: Counters, field: Field, value: u64) -> Counters {
    match field {
        Field::Input => Counters { input: value, ..c },
        Field::Cached => Counters { cached: value, ..c },
        Field::CacheWrite => Counters { cache_write: value, ..c },
        Field::Output => Counters { output: value, ..c },
        Field::Reasoning => Counters { reasoning: value, ..c },
        Field::Total => Counters { total: value, ..c },
        Field::Cost => Counters { cost: value, ..c },
        Field::Completions => Counters { completions: value, ..c },
    }
}

/// The value of a counter.
pub open spec fn field_of(c: Counters, field: Field) -> u64 {
    match field {
        Field::Input => c.input,
        Field::Cached => c.cached,
        Field::CacheWrite => c.cache_write,
        Field::Output => c.output,
        Field::Reasoning => c.reasoning,
        Field::Total => c.total,
        Field::Cost => c.cost,
        Field::Completions => c.completions,
    }
}

/// Counters of nothing.
pub open spec fn no_counters() -> Counters {
    Counters {
        input: 0,
        cached: 0,
        cache_write: 0,
        output: 0,
        reasoning: 0,
        total: 0,
        cost: 0,
        completions: 0,
    }
}

impl Counters {
    /// Counters of nothing.
    pub fn zero() -> (counters: Counters)
        ensures
            counters == no_counters(),
    {
        Counters {
            input: 0,
            cached: 0,
            cache_write: 0,
            output: 0,
            reasoning: 0,
            total: 0,
            cost: 0,
            completions: 0,
        }
    }

    /// The value of a counter.
    pub fn field(&self, field: Field) -> (value: u64)
        ensures
            value == field_of(*self, field),
    {
        match field {
            Field::Input => self.input,
            Field::Cached => self.cached,
            Field::CacheWrite => self.cache_write,
            Field::Output => self.output,
            Field::Reasoning => self.reasoning,
            Field::Total => self.total,
            Field::Cost => self.cost,
            Field::Completions => self.completions,
        }
    }

    /// Counters with one of them set.
    pub fn set(self, field: Field, value: u64) -> (counters: Counters)
        ensures
            counters == with_field(self, field, value),
    {
        match field {
            Field::Input => Counters { input: value, ..self },
            Field::Cached => Counters { cached: value, ..self },
            Field::CacheWrite => Counters { cache_write: value, ..self },
            Field::Output => Counters { output: value, ..self },
            Field::Reasoning => Counters { reasoning: value, ..self },
            Field::Total => Counters { total: value, ..self },
            Field::Cost => Counters { cost: value, ..self },
            Field::Completions => Counters { completions: value, ..self },
        }
    }
}

/// What one completion adds to each counter, in the order in which they are written.
pub open spec fn deltas(usage: TokenUsage, cost_micros: u64) -> Seq<(Field, u64)> {
    seq![
        (Field::Input, usage.input_tokens),
        (Field::Cached, usage.cached_input_tokens),
        (Field::CacheWrite, usage.cache_write_input_tokens),
        (Field::Output, usage.output_tokens),
        (Field::Reasoning, usage.reasoning_output_tokens),
        (Field::Total, usage.total_tokens),
        (Field::Cost, cost_micros),
        (Field::Completions, 1u64),
    ]
}

/// Additions that change a counter.
pub open spec fn nonzero(list: Seq<(Field, u64)>) -> Seq<(Field, u64)>
    decreases list.len(),
{
    if list.len() == 0 {
        Seq::empty()
    } else if list.last().1 == 0 {
        nonzero(list.drop_last())
    } else {
        nonzero(list.drop_last()).push(list.last())
    }
}

/// What one completion adds to each counter. Counters that stay as they are are left out.
pub fn bucket_deltas(usage: &TokenUsage, cost_micros: u64) -> (added: Vec<(Field, u64)>)
    ensures
        added@ == nonzero(deltas(*usage, cost_micros)),
{
    let mut all: Vec<(Field, u64)> = Vec::new();
    all.push((Field::Input, usage.input_tokens));
    all.push((Field::Cached, usage.cached_input_tokens));
    all.push((Field::CacheWrite, usage.cache_write_input_tokens));
    all.push((Field::Output, usage.output_tokens));
    all.push((Field::Reasoning, usage.reasoning_output_tokens));
    all.push((Field::Total, usage.total_tokens));
    all.push((Field::Cost, cost_micros));
    all.push((Field::Completions, 1));
    assert(all@ =~= deltas(*usage, cost_micros));
    let mut added: Vec<(Field, u64)> = Vec::new();
    let mut i: usize = 0;
    assert(all@.take(0) =~= Seq::<(Field, u64)>::empty());
    while i < all.len()
        invariant
            i <= all.len(),
            added@ == nonzero(all@.take(i as int)),
        decreases all.len() - i,
    {
        proof {
            assert(all@.take(i + 1).drop_last() =~= all@.take(i as int));
        }
        if all[i].1 != 0 {
            added.push(all[i]);
        }
        i += 1;
    }
    assert(all@.take(i as int) =~= all@);
    added
}

/// The number that bytes stand for, least significant first.
pub open spec fn le_value(bytes: Seq<u8>) -> nat
    decreases bytes.len(),
{
    if bytes.len() == 0 {
        0
    } else {
        bytes[0] as nat + 256 * le_value(bytes.drop_first())
    }
}

/// The first eight bytes of a counter row.
pub open spec fn counter_bytes(bytes: Seq<u8>) -> Seq<u8> {
    if bytes.len() <= 8 {
        bytes
    } else {
        bytes.take(8)
    }
}

/// `256` to the power of `count`.
pub open spec fn byte_places(count: nat) -> nat
    decreases count,
{
    if count == 0 {
        1
    } else {
        256 * byte_places((count - 1) as nat)
    }
}

proof fn le_value_grows(bytes: Seq<u8>, last: u8)
    ensures
        le_value(bytes.push(last)) == le_value(bytes) + last * byte_places(bytes.len()),
        le_value(bytes) < byte_places(bytes.len()),
    decreases bytes.len(),
{
    if bytes.len() == 0 {
        assert(bytes.push(last).drop_first() =~= Seq::<u8>::empty());
        reveal_with_fuel(le_value, 2);
        assert(byte_places(0) == 1);
    } else {
        assert(bytes.push(last).drop_first() =~= bytes.drop_first().push(last));
        le_value_grows(bytes.drop_first(), last);
        let places = byte_places((bytes.len() - 1) as nat);
        assert(256 * (last * places) == last * (256 * places)) by (nonlinear_arith);
    }
}

/// The value of a counter row: up to eight bytes, least significant first; nothing counts as zero.
pub fn counter(bytes: &Vec<u8>) -> (value: u64)
    ensures
        value == le_value(counter_bytes(bytes@)),
{
    let width: usize = if bytes.len() < 8 {
        bytes.len()
    } else {
        8
    };
    let mut value: u64 = 0;
    let mut scale: u128 = 1;
    let mut i: usize = 0;
    proof {
        reveal_with_fuel(byte_places, 9);
    }
    while i < width
        invariant
            i <= width <= 8,
            width <= bytes.len(),
            value == le_value(bytes@.take(i as int)),
            scale == byte_places(i as nat),
            byte_places(8) == 0x1_0000_0000_0000_0000,
        decreases width - i,
    {
        let ghost head = bytes@.take(i as int);
        proof {
            le_value_grows(head, bytes@[i as int]);
            assert(head.push(bytes@[i as int]) =~= bytes@.take(i + 1));
            le_value_grows(bytes@.take(i + 1), 0);
            places_grow((i + 1) as nat, 8);
            assert(bytes@[i as int] * scale < 0x1_0000_0000_0000_0000);
        }
        let more: u128 = bytes[i] as u128 * scale;
        value = value + more as u64;
        scale = scale * 256;
        i += 1;
    }
    assert(bytes@.take(i as int) =~= counter_bytes(bytes@));
    value
}

proof fn places_grow(a: nat, b: nat)
    requires
        a <= b,
    ensures
        byte_places(a) <= byte_places(b),
        byte_places(a) >= 1,
    decreases b,
{
    if a < b {
        places_grow(a, (b - 1) as nat);
    } else if a > 0 {
        places_grow((a - 1) as nat, (a - 1) as nat);
    }
}

// ---------------------------------------------------------------------------------------------
// Bucket keys
// ---------------------------------------------------------------------------------------------

/// Elements of a counter's key in a single dimension.
pub open spec fn single_parts(dimension: Seq<char>, hour: i64, key: Seq<char>, field: Seq<char>) -> Seq<PartView> {
    seq![
        PartView::Text("metering_hour"@),
        PartView::Text(dimension),
        PartView::Int(hour),
        PartView::Text(key),
        PartView::Text(field),
    ]
}

/// Elements of a counter's key in a combined dimension.
pub open spec fn combined_parts(
    dimension: Seq<char>,
    owner: Seq<char>,
    hour: i64,
    entry: Seq<char>,
    field: Seq<char>,
) -> Seq<PartView> {
    seq![
        PartView::Text("metering_hour"@),
        PartView::Text(dimension),
        PartView::Text(owner),
        PartView::Int(hour),
        PartView::Text(entry),
        PartView::Text(field),
    ]
}

/// Elements that all counters of a dimension, or of one owner in it, start with.
pub open spec fn bucket_start(dimension: Seq<char>, owner: Option<Seq<char>>) -> Seq<PartView> {
    match owner {
        Some(owner) => seq![
            PartView::Text("metering_hour"@),
            PartView::Text(dimension),
            PartView::Text(owner),
        ],
        None => seq![PartView::Text("metering_hour"@), PartView::Text(dimension)],
    }
}

/// View of a text that may be absent.
pub open spec fn text_of(value: Option<&str>) -> Option<Seq<char>> {
    match value {
        Some(text) => Some(text@),
        None => None,
    }
}

/// Length of a text that may be absent.
pub open spec fn length_of(value: Option<&str>) -> nat {
    match value {
        Some(text) => text@.len(),
        None => 0,
    }
}

fn start_parts(dimension: &str, owner: Option<&str>) -> (parts: Vec<KeyPart>)
    ensures
        part_views(parts@) == bucket_start(dimension@, text_of(owner)),
        storable(part_views(parts@)),
        parts_size(part_views(parts@)) <= 4 * dimension@.len() + 4 * length_of(owner) + 100,
{
    let mut parts: Vec<KeyPart> = Vec::new();
    parts.push(KeyPart::Text("metering_hour".to_owned()));
    parts.push(KeyPart::Text(dimension.to_owned()));
    if let Some(owner) = owner {
        parts.push(KeyPart::Text(owner.to_owned()));
    }
    proof {
        reveal_strlit("metering_hour");
        let views = bucket_start(dimension@, text_of(owner));
        assert(part_views(parts@) =~= views);
        reveal_with_fuel(parts_size, 4);
        let short = seq![PartView::Text("metering_hour"@), PartView::Text(dimension@)];
        if owner is Some {
            assert(views.drop_last() =~= short);
        }
        assert(short.drop_last() =~= seq![PartView::Text("metering_hour"@)]);
        assert(short.drop_last().drop_last() =~= Seq::<PartView>::empty());
    }
    parts
}

fn hour_parts(dimension: &str, owner: Option<&str>, hour: i64) -> (parts: Vec<KeyPart>)
    ensures
        part_views(parts@) == bucket_start(dimension@, text_of(owner)).push(PartView::Int(hour)),
        storable(part_views(parts@)),
        parts_size(part_views(parts@)) <= 4 * dimension@.len() + 4 * length_of(owner) + 109,
{
    let mut parts = start_parts(dimension, owner);
    let ghost start = parts@;
    parts.push(KeyPart::Int(hour));
    proof {
        let views = part_views(parts@);
        assert(views =~= part_views(start).push(PartView::Int(hour)));
        assert(views.drop_last() =~= part_views(start));
        reveal_with_fuel(parts_size, 2);
    }
    parts
}

/// The end of a slice of hours: one hour past the last one.
pub open spec fn end_hour(to_hour: i64) -> i64 {
    if to_hour + 3_600 <= i64::MAX {
        (to_hour + 3_600) as i64
    } else {
        to_hour
    }
}

fn next_hour(hour: i64) -> (next: i64)
    ensures
        next == end_hour(hour),
{
    match hour.checked_add(3_600) {
        Some(next) => next,
        None => hour,
    }
}

proof fn hour_rows_in_order(start: Seq<PartView>, hour: i64, rest: Seq<PartView>, bound: i64)
    requires
        rest.len() > 0,
    ensures
        parts_less(start.push(PartView::Int(hour)) + rest, start.push(PartView::Int(bound))) <==> hour < bound,
{
    let tail = seq![PartView::Int(hour)] + rest;
    let limit = seq![PartView::Int(bound)];
    assert(start.push(PartView::Int(hour)) + rest =~= start + tail);
    assert(start.push(PartView::Int(bound)) =~= start + limit);
    continuations_keep_order(start, tail, limit);
    assert(limit.drop_first() =~= Seq::<PartView>::empty());
    reveal_with_fuel(parts_less, 2);
}

proof fn single_row(dimension: Seq<char>, hour: i64, key: Seq<char>, field: Seq<char>)
    ensures
        single_parts(dimension, hour, key, field) == bucket_start(dimension, None).push(
            PartView::Int(hour),
        ) + seq![PartView::Text(key), PartView::Text(field)],
        storable(single_parts(dimension, hour, key, field)),
{
    assert(single_parts(dimension, hour, key, field) =~= bucket_start(dimension, None).push(
        PartView::Int(hour),
    ) + seq![PartView::Text(key), PartView::Text(field)]);
}

proof fn combined_row(dimension: Seq<char>, owner: Seq<char>, hour: i64, entry: Seq<char>, field: Seq<char>)
    ensures
        combined_parts(dimension, owner, hour, entry, field) == bucket_start(
            dimension,
            Some(owner),
        ).push(PartView::Int(hour)) + seq![PartView::Text(entry), PartView::Text(field)],
        storable(combined_parts(dimension, owner, hour, entry, field)),
{
    assert(combined_parts(dimension, owner, hour, entry, field) =~= bucket_start(
        dimension,
        Some(owner),
    ).push(PartView::Int(hour)) + seq![PartView::Text(entry), PartView::Text(field)]);
}

/// One slice of hours of a single dimension: every key of the hours from `from_hour` to `to_hour`,
/// and no row of another hour or dimension.
pub fn single_hour_range(root: &Vec<u8>, dimension: &str, from_hour: i64, to_hour: i64) -> (range: (Vec<u8>, Vec<u8>))
    requires
        root@.len() + 4 * dimension@.len() + 1024 <= u32::MAX,
    ensures
        range.0@ == packed(root@, bucket_start(dimension@, None).push(PartView::Int(from_hour))),
        range.1@ == packed(
            root@,
            bucket_start(dimension@, None).push(PartView::Int(end_hour(to_hour))),
        ),
        forall|hour: i64, key: Seq<char>, field: Seq<char>|
            #[trigger] within(
                (range.0@, range.1@),
                packed(root@, single_parts(dimension@, hour, key, field)),
            ) <==> from_hour <= hour < end_hour(to_hour),
        forall|other: Seq<char>, hour: i64, key: Seq<char>, field: Seq<char>|
            other != dimension@ ==> !(#[trigger] within(
                (range.0@, range.1@),
                packed(root@, single_parts(other, hour, key, field)),
            )),
{
    let from = hour_parts(dimension, None, from_hour);
    let to = hour_parts(dimension, None, next_hour(to_hour));
    let ghost start = bucket_start(dimension@, None);
    let range = key_range(root, &from, &to);
    assert forall|hour: i64, key: Seq<char>, field: Seq<char>| #[trigger] within(
        (range.0@, range.1@),
        packed(root@, single_parts(dimension@, hour, key, field)),
    ) <==> from_hour <= hour < end_hour(to_hour) by {
        let rest = seq![PartView::Text(key), PartView::Text(field)];
        single_row(dimension@, hour, key, field);
        hour_rows_in_order(start, hour, rest, from_hour);
        hour_rows_in_order(start, hour, rest, end_hour(to_hour));
    }
    assert forall|other: Seq<char>, hour: i64, key: Seq<char>, field: Seq<char>|
        other != dimension@ implies !(#[trigger] within(
        (range.0@, range.1@),
        packed(root@, single_parts(other, hour, key, field)),
    )) by {
        single_row(other, hour, key, field);
        let row = single_parts(other, hour, key, field);
        let low = start.push(PartView::Int(from_hour));
        let high = start.push(PartView::Int(end_hour(to_hour)));
        assert(row.drop_first()[0] == PartView::Text(other));
        assert(low.drop_first()[0] == PartView::Text(dimension@));
        assert(high.drop_first()[0] == PartView::Text(dimension@));
        reveal_with_fuel(parts_less, 3);
    }
    range
}

/// One owner's slice of a combined dimension, narrowed to a window of hours where there is one.
/// It holds exactly that owner's rows of those hours.
pub fn owner_hour_range(root: &Vec<u8>, dimension: &str, owner: &str, hours: Option<(i64, i64)>) -> (range: (Vec<u8>, Vec<u8>))
    requires
        root@.len() + 4 * dimension@.len() + 4 * owner@.len() + 1024 <= u32::MAX,
    ensures
        match hours {
            Some((from_hour, to_hour)) => {
                &&& range.0@ == packed(
                    root@,
                    bucket_start(dimension@, Some(owner@)).push(PartView::Int(from_hour)),
                )
                &&& range.1@ == packed(
                    root@,
                    bucket_start(dimension@, Some(owner@)).push(
                        PartView::Int(end_hour(to_hour)),
                    ),
                )
            },
            None => (range.0@, range.1@) == continuations(
                root@,
                bucket_start(dimension@, Some(owner@)),
            ),
        },
        forall|hour: i64, entry: Seq<char>, field: Seq<char>|
            #[trigger] within(
                (range.0@, range.1@),
                packed(root@, combined_parts(dimension@, owner@, hour, entry, field)),
            ) <==> (hours matches Some((from_hour, to_hour)) ==> from_hour <= hour < end_hour(to_hour)),
        forall|other: Seq<char>, hour: i64, entry: Seq<char>, field: Seq<char>|
            other != owner@ ==> !(#[trigger] within(
                (range.0@, range.1@),
                packed(root@, combined_parts(dimension@, other, hour, entry, field)),
            )),
{
    let ghost start = bucket_start(dimension@, Some(owner@));
    match hours {
        None => {
            let parts = start_parts(dimension, Some(owner));
            let range = continuation_range(root, &parts);
            assert forall|hour: i64, entry: Seq<char>, field: Seq<char>| #[trigger] within(
                (range.0@, range.1@),
                packed(root@, combined_parts(dimension@, owner@, hour, entry, field)),
            ) by {
                combined_row(dimension@, owner@, hour, entry, field);
                assert(combined_parts(dimension@, owner@, hour, entry, field).take(3) =~= start);
            }
            assert forall|other: Seq<char>, hour: i64, entry: Seq<char>, field: Seq<char>|
                other != owner@ implies !(#[trigger] within(
                (range.0@, range.1@),
                packed(root@, combined_parts(dimension@, other, hour, entry, field)),
            )) by {
                combined_row(dimension@, other, hour, entry, field);
                let row = combined_parts(dimension@, other, hour, entry, field);
                assert(row.take(3)[2] == PartView::Text(other));
            }
            range
        },
        Some((from_hour, to_hour)) => {
            let from = hour_parts(dimension, Some(owner), from_hour);
            let to = hour_parts(dimension, Some(owner), next_hour(to_hour));
            let range = key_range(root, &from, &to);
            assert forall|hour: i64, entry: Seq<char>, field: Seq<char>| #[trigger] within(
                (range.0@, range.1@),
                packed(root@, combined_parts(dimension@, owner@, hour, entry, field)),
            ) <==> from_hour <= hour < end_hour(to_hour) by {
                let rest = seq![PartView::Text(entry), PartView::Text(field)];
                combined_row(dimension@, owner@, hour, entry, field);
                hour_rows_in_order(start, hour, rest, from_hour);
                hour_rows_in_order(start, hour, rest, end_hour(to_hour));
            }
            assert forall|other: Seq<char>, hour: i64, entry: Seq<char>, field: Seq<char>|
                other != owner@ implies !(#[trigger] within(
                (range.0@, range.1@),
                packed(root@, combined_parts(dimension@, other, hour, entry, field)),
            )) by {
                combined_row(dimension@, other, hour, entry, field);
                let row = combined_parts(dimension@, other, hour, entry, field);
                let low = start.push(PartView::Int(from_hour));
                let high = start.push(PartView::Int(end_hour(to_hour)));
                assert(row.drop_first()[0] == PartView::Text(dimension@));
                assert(low.drop_first()[0] == PartView::Text(dimension@));
                assert(high.drop_first()[0] == PartView::Text(dimension@));
                assert(row.drop_first().drop_first()[0] == PartView::Text(other));
                assert(low.drop_first().drop_first()[0] == PartView::Text(owner@));
                assert(high.drop_first().drop_first()[0] == PartView::Text(owner@));
                reveal_with_fuel(parts_less, 4);
            }
            range
        },
    }
}

/// A slice of whole hours holds exactly its hours: with hours that are multiples of 3600, the end
/// one hour past the last one leaves out just the hours behind it.
pub proof fn slices_hold_their_hours(hour: i64, to_hour: i64)
    requires
        hour % 3_600 == 0,
        to_hour % 3_600 == 0,
        to_hour + 3_600 <= i64::MAX,
    ensures
        hour < end_hour(to_hour) <==> hour <= to_hour,
{
}

/// The key of one counter. Single dimensions pass no owner.
pub fn bucket_key(root: &Vec<u8>, dimension: &str, owner: Option<&str>, hour: i64, key: &str, field: Field) -> (bytes: Vec<u8>)
    requires
        root@.len() + 4 * dimension@.len() + 4 * length_of(owner) + 4 * key@.len() + 1024 <= u32::MAX,
    ensures
        bytes@ == packed(
            root@,
            match text_of(owner) {
                Some(owner) => combined_parts(dimension@, owner, hour, key@, field_name(field)),
                None => single_parts(dimension@, hour, key@, field_name(field)),
            },
        ),
        unpacked(packed(root@, bucket_start(dimension@, text_of(owner))), bytes@) == Some(
            seq![PartView::Int(hour), PartView::Text(key@), PartView::Text(field_name(field))],
        ),
{
    let mut parts = hour_parts(dimension, owner, hour);
    let ghost start = part_views(parts@);
    parts.push(KeyPart::Text(key.to_owned()));
    parts.push(KeyPart::Text(field.name().to_owned()));
    proof {
        let views = part_views(parts@);
        let name = field_name(field);
        let head = bucket_start(dimension@, text_of(owner));
        reveal_strlit("input");
        reveal_strlit("cached");
        reveal_strlit("cache_write");
        reveal_strlit("output");
        reveal_strlit("reasoning");
        reveal_strlit("total");
        reveal_strlit("cost");
        reveal_strlit("completions");
        assert(name.len() <= 11);
        assert(views =~= start.push(PartView::Text(key@)).push(PartView::Text(name)));
        assert(views.drop_last() =~= start.push(PartView::Text(key@)));
        assert(views.drop_last().drop_last() =~= start);
        reveal_with_fuel(parts_size, 3);
        if let Some(owner) = text_of(owner) {
            combined_row(dimension@, owner, hour, key@, name);
            assert(views =~= combined_parts(dimension@, owner, hour, key@, name));
        } else {
            single_row(dimension@, hour, key@, name);
            assert(views =~= single_parts(dimension@, hour, key@, name));
        }
        assert(views.take(head.len() as int) =~= head);
        assert(views.skip(head.len() as int) =~= seq![
            PartView::Int(hour),
            PartView::Text(key@),
            PartView::Text(name),
        ]);
        assert(storable(views));
    }
    pack_key(root, &parts)
}

/// One counter row that a scan read.
#[derive(Clone, Debug, PartialEq, Eq)]
pub struct BucketRow {
    pub hour: i64,
    pub key: String,
    pub field: String,
    pub value: u64,
}

/// View of a counter row.
pub ghost struct BucketView {
    pub hour: i64,
    pub key: Seq<char>,
    pub field: Seq<char>,
    pub value: u64,
}

impl View for BucketRow {
    type V = BucketView;

    open spec fn view(&self) -> BucketView {
        BucketView { hour: self.hour, key: self.key@, field: self.field@, value: self.value }
    }
}

/// Views of counter rows in order.
pub open spec fn bucket_views(rows: Seq<BucketRow>) -> Seq<BucketView> {
    rows.map_values(|row: BucketRow| row@)
}

/// Reads a counter row of a dimension, or of one owner in it. A key of another form is corrupt.
pub fn read_bucket(root: &Vec<u8>, dimension: &str, owner: Option<&str>, key: &Vec<u8>, value: &Vec<u8>) -> (result: StoreResult<BucketRow>)
    requires
        root@.len() + 4 * dimension@.len() + 4 * length_of(owner) + 1024 <= u32::MAX,
    ensures
        match bucket_parts(
            unpacked(packed(root@, bucket_start(dimension@, text_of(owner))), key@),
        ) {
            Some((hour, name, field)) => result matches Ok(row) && row@ == (BucketView {
                hour,
                key: name,
                field,
                value: le_value(counter_bytes(value@)) as u64,
            }),
            None => result matches Err(error) && error == StoreError::Corrupt,
        },
{
    let start = start_parts(dimension, owner);
    let prefix = pack_key(root, &start);
    match unpack_bucket(&prefix, key) {
        Some((hour, name, field)) => Ok(
            BucketRow { hour, key: name, field, value: counter(value) },
        ),
        None => Err(StoreError::Corrupt),
    }
}

/// A counter that was written is read back: the key of a counter names its hour, key and field.
pub proof fn buckets_read_back(hour: i64, key: Seq<char>, field: Field)
    ensures
        bucket_parts(
            Some(
                seq![PartView::Int(hour), PartView::Text(key), PartView::Text(field_name(field))],
            ),
        ) == Some((hour, key, field_name(field))),
        named_field(field_name(field)) == Some(field),
{
    reveal_strlit("input");
    reveal_strlit("cached");
    reveal_strlit("cache_write");
    reveal_strlit("output");
    reveal_strlit("reasoning");
    reveal_strlit("total");
    reveal_strlit("cost");
    reveal_strlit("completions");
    assert("input"@.len() == 5 && "cached"@.len() == 6 && "cache_write"@.len() == 11);
    assert("output"@.len() == 6 && "reasoning"@.len() == 9 && "total"@.len() == 5);
    assert("cost"@.len() == 4 && "completions"@.len() == 11);
    assert("input"@[0] == 'i' && "total"@[0] == 't' && "cached"@[0] == 'c' && "output"@[0] == 'o');
    assert("cache_write"@[1] == 'a' && "completions"@[1] == 'o');
}

/// What one completion adds to a counter.
pub open spec fn amount(usage: TokenUsage, cost_micros: u64, field: Field) -> u64 {
    match field {
        Field::Input => usage.input_tokens,
        Field::Cached => usage.cached_input_tokens,
        Field::CacheWrite => usage.cache_write_input_tokens,
        Field::Output => usage.output_tokens,
        Field::Reasoning => usage.reasoning_output_tokens,
        Field::Total => usage.total_tokens,
        Field::Cost => cost_micros,
        Field::Completions => 1,
    }
}

proof fn nonzero_holds(list: Seq<(Field, u64)>)
    ensures
        nonzero(list).len() <= list.len(),
        forall|i: int|
            0 <= i < nonzero(list).len() ==> (#[trigger] nonzero(list)[i]).1 > 0 && list.contains(nonzero(list)[i]),
        forall|i: int| 0 <= i < list.len() && (#[trigger] list[i]).1 > 0 ==> nonzero(list).contains(list[i]),
    decreases list.len(),
{
    if list.len() > 0 {
        let rest = list.drop_last();
        nonzero_holds(rest);
        let before = nonzero(rest);
        let all = nonzero(list);
        assert forall|i: int| 0 <= i < all.len() implies (#[trigger] all[i]).1 > 0 && list.contains(all[i]) by {
            if i < before.len() {
                assert(all[i] == before[i]);
                let k = choose|k: int| 0 <= k < rest.len() && rest[k] == before[i];
                assert(list[k] == all[i]);
            } else {
                assert(list[list.len() - 1] == all[i]);
            }
        }
        assert forall|i: int| 0 <= i < list.len() && (#[trigger] list[i]).1 > 0 implies all.contains(list[i]) by {
            if i < rest.len() {
                assert(rest[i] == list[i]);
                let k = choose|k: int| 0 <= k < before.len() && before[k] == list[i];
                assert(all[k] == list[i]);
            } else {
                assert(all[all.len() - 1] == list[i]);
            }
        }
    }
}

/// A completion adds to each counter the tokens, or the cost, of that name and one completion, and
/// nothing where there is nothing to add.
pub proof fn completions_add_to_each_counter(usage: TokenUsage, cost_micros: u64, added: Vec<(Field, u64)>, field: Field)
    requires
        call_ensures(bucket_deltas, (&usage, cost_micros), added),
    ensures
        added@.len() <= 8,
        amount(usage, cost_micros, field) > 0 ==> added@.contains((field, amount(usage, cost_micros, field))),
        forall|i: int|
            0 <= i < added@.len() ==> (#[trigger] added@[i]).1 > 0 && added@[i].1 == amount(
                usage,
                cost_micros,
                added@[i].0,
            ),
{
    let list = deltas(usage, cost_micros);
    nonzero_holds(list);
    assert(list[0].0 is Input && list[1].0 is Cached && list[2].0 is CacheWrite && list[3].0 is Output);
    assert(list[4].0 is Reasoning && list[5].0 is Total && list[6].0 is Cost && list[7].0 is Completions);
    assert forall|i: int| 0 <= i < added@.len() implies (#[trigger] added@[i]).1 > 0 && added@[i].1 == amount(
        usage,
        cost_micros,
        added@[i].0,
    ) by {
        assert(list.contains(added@[i]));
        let k = choose|k: int| 0 <= k < list.len() && list[k] == added@[i];
        assert(list[k].1 == amount(usage, cost_micros, list[k].0));
    }
}

/// A counter is stored under the name of what it counts, and the name is read back as that counter.
pub proof fn counters_have_their_names(field: Field, name: &'static str, read: Option<Field>)
    requires
        call_ensures(Field::name, (field,), name),
        call_ensures(Field::parse, (name,), read),
    ensures
        read == Some(field),
        match field {
            Field::Input => name@ == "input"@,
            Field::Cached => name@ == "cached"@,
            Field::CacheWrite => name@ == "cache_write"@,
            Field::Output => name@ == "output"@,
            Field::Reasoning => name@ == "reasoning"@,
            Field::Total => name@ == "total"@,
            Field::Cost => name@ == "cost"@,
            Field::Completions => name@ == "completions"@,
        },
{
    buckets_read_back(0, Seq::empty(), field);
}

/// A counter that is set is read back as it was set, and no other counter changes. A fresh set of
/// counters is empty.
pub proof fn set_counters_are_read_back(
    counters: Counters,
    field: Field,
    value: u64,
    other: Field,
    next: Counters,
    same_field: u64,
    other_field: u64,
    before: u64,
    zero: Counters,
)
    requires
        call_ensures(Counters::set, (counters, field, value), next),
        call_ensures(Counters::field, (&next, field), same_field),
        call_ensures(Counters::field, (&next, other), other_field),
        call_ensures(Counters::field, (&counters, other), before),
        call_ensures(Counters::zero, (), zero),
    ensures
        same_field == value,
        other != field ==> other_field == before,
        zero.input == 0 && zero.cached == 0 && zero.cache_write == 0 && zero.output == 0 && zero.reasoning == 0
            && zero.total == 0 && zero.cost == 0 && zero.completions == 0,
        field is Input ==> next.input == value,
        field is Cached ==> next.cached == value,
        field is CacheWrite ==> next.cache_write == value,
        field is Output ==> next.output == value,
        field is Reasoning ==> next.reasoning == value,
        field is Total ==> next.total == value,
        field is Cost ==> next.cost == value,
        field is Completions ==> next.completions == value,
{
}

/// A dimension that stands alone is read back from its name; one that combines two is never read.
pub proof fn dimensions_have_their_names(dimension: MeteringDimension, name: &'static str, read: Option<MeteringDimension>, both: bool)
    requires
        call_ensures(MeteringDimension::as_str, (dimension,), name),
        call_ensures(MeteringDimension::parse, (name,), read),
        call_ensures(is_combined, (dimension,), both),
    ensures
        both <==> dimension is AgentEntry || dimension is SessionEntry,
        !both ==> read == Some(dimension),
        match dimension {
            MeteringDimension::Session => name@ == "session"@,
            MeteringDimension::Agent => name@ == "agent"@,
            MeteringDimension::Provider => name@ == "provider"@,
            MeteringDimension::Entry => name@ == "entry"@,
            MeteringDimension::EntryKind => name@ == "entry_kind"@,
            MeteringDimension::Model => name@ == "model"@,
            MeteringDimension::AgentEntry => name@ == "agent_entry"@,
            MeteringDimension::SessionEntry => name@ == "session_entry"@,
        },
{
    dimension_names_go_both_ways(dimension, name@);
}

/// The hour of a moment is the last whole hour up to it.
pub proof fn hours_begin_before_their_seconds(second: i64, hour: i64)
    requires
        hour_of(second as int) >= i64::MIN,
        call_ensures(hour_floor, (second,), hour),
    ensures
        hour <= second < hour + 3_600,
        hour % 3_600 == 0,
{
}


/// A stored counter is read from its first eight bytes, the lowest first: a byte in front takes the
/// lowest place.
pub proof fn counters_start_with_the_lowest_byte(byte: u8, rest: Seq<u8>, bytes: Vec<u8>, value: u64)
    requires
        call_ensures(counter, (&bytes,), value),
    ensures
        bytes@.len() == 0 ==> value == 0,
        bytes@ == seq![byte] ==> value == byte,
        le_value(seq![byte] + rest) == byte + 256 * le_value(rest),
        bytes@.len() <= 8 ==> value == le_value(bytes@),
        bytes@.len() > 8 ==> value == le_value(bytes@.take(8)),
{
    reveal_with_fuel(le_value, 2);
    assert((seq![byte] + rest).drop_first() =~= rest);
    assert(seq![byte].drop_first() =~= Seq::empty());
}

/// What is stored under a bucket's key is read back: the hour, the key, the counter's name and the
/// value.
pub proof fn buckets_are_read_back(
    root: Vec<u8>,
    dimension: &str,
    owner: Option<&str>,
    hour: i64,
    key: &str,
    field: Field,
    bytes: Vec<u8>,
    value: Vec<u8>,
    number: u64,
    result: StoreResult<BucketRow>,
)
    requires
        root@.len() + 4 * dimension@.len() + 4 * length_of(owner) + 4 * key@.len() + 1024 <= u32::MAX,
        call_ensures(bucket_key, (&root, dimension, owner, hour, key, field), bytes),
        call_ensures(counter, (&value,), number),
        call_ensures(read_bucket, (&root, dimension, owner, &bytes, &value), result),
    ensures
        result matches Ok(row) && row.hour == hour && row.key@ == key@ && row.field@ == field_name(field)
            && row.value == number,
{
    buckets_read_back(hour, key@, field);
}

} // verus!
