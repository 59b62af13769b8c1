//! Settings of a scheduler: which partitions it owns and how often it looks.

use crate::text::{join2, parse_unsigned, pieces, split, split_first, split_once, trim, trimmed, unsigned_number};
use crate::time::Duration;
use std::collections::BTreeSet;
use vstd::prelude::*;

verus! {

broadcast use vstd::std_specs::btree::group_btree_axioms;

/// Partitions of the runnable index.
pub const RUNNABLE_PARTITIONS: u16 = 256;

/// What a scheduler is told to do.
pub struct Config {
    pub partitions: BTreeSet<u16>,
    pub scan_interval: Duration,
    pub resend_interval: Duration,
}

/// What is wrong with a setting.
#[derive(Clone, Debug, PartialEq, Eq)]
pub enum ConfigError {
    /// The named interval is no number of milliseconds.
    NotANumber(String),
    /// The named interval is zero.
    NotPositive(String),
    /// A component of the partition list is no number or range.
    InvalidComponent(String),
    /// A range descends or leaves the partitions.
    InvalidRange,
}

/// The sentence shown for a wrong setting.
pub open spec fn config_error_text(error: ConfigError) -> Seq<char> {
    match error {
        ConfigError::NotANumber(name) => name@ + " must be a positive number of milliseconds"@,
        ConfigError::NotPositive(name) => name@ + " must be positive"@,
        ConfigError::InvalidComponent(component) =>
            "invalid SWARMY_SCHEDULER_PARTITIONS component: "@ + component@,
        ConfigError::InvalidRange =>
            "SWARMY_SCHEDULER_PARTITIONS must be in 0-255 with ascending ranges"@,
    }
}

impl ConfigError {
    /// The sentence shown for this error.
    pub fn message(&self) -> (text: String)
        ensures
            text@ == config_error_text(*self),
    {
        match self {
            ConfigError::NotANumber(name) => join2(
                name.as_str(),
                " must be a positive number of milliseconds",
            ),
            ConfigError::NotPositive(name) => join2(name.as_str(), " must be positive"),
            ConfigError::InvalidComponent(component) => join2(
                "invalid SWARMY_SCHEDULER_PARTITIONS component: ",
                component.as_str(),
            ),
            ConfigError::InvalidRange =>
                "SWARMY_SCHEDULER_PARTITIONS must be in 0-255 with ascending ranges".to_owned(),
        }
    }
}

/// What one component of a partition list says.
pub ghost enum Component {
    /// A range of partitions, both ends included.
    Range(nat, nat),
    /// No number or range.
    Invalid,
    /// A range that descends or leaves the partitions.
    Outside,
}

/// Reads one component: a number or a range of two numbers.
pub open spec fn component(text: Seq<char>) -> Component {
    let (first, last) = match split_first(text, '-') {
        Some((first, last)) => (first, last),
        None => (text, text),
    };
    match (
        unsigned_number(trimmed(first), u16::MAX as nat),
        unsigned_number(trimmed(last), u16::MAX as nat),
    ) {
        (Some(first), Some(last)) => if first > last || last >= RUNNABLE_PARTITIONS {
            Component::Outside
        } else {
            Component::Range(first, last)
        },
        _ => Component::Invalid,
    }
}

/// Whether component `i` of a list names a partition.
pub open spec fn names_partition(parts: Seq<Seq<char>>, i: int, partition: u16) -> bool {
    component(trimmed(parts[i])) matches Component::Range(first, last) && first <= partition <= last
}

/// Whether some of the first `count` components names a partition.
pub open spec fn named_within(parts: Seq<Seq<char>>, count: int, partition: u16) -> bool {
    exists|i: int| 0 <= i < count && #[trigger] names_partition(parts, i, partition)
}

/// Whether the first `count` components are ranges.
pub open spec fn readable(parts: Seq<Seq<char>>, count: int) -> bool {
    forall|i: int| 0 <= i < count ==> (#[trigger] component(trimmed(parts[i]))) is Range
}

/// Whether an error is that of the first component that cannot be read.
pub open spec fn first_unreadable(parts: Seq<Seq<char>>, error: ConfigError) -> bool {
    exists|i: int|
        #![trigger parts[i]]
        0 <= i < parts.len() && readable(parts, i) && match component(trimmed(parts[i])) {
            Component::Range(_, _) => false,
            Component::Invalid => error matches ConfigError::InvalidComponent(text) && text@
                == trimmed(parts[i]),
            Component::Outside => error is InvalidRange,
        }
}

/// Reads a list of partitions: numbers and ascending ranges, separated by commas. The first
/// component that cannot be read decides the error.
pub fn parse_partitions(value: &str) -> (result: Result<BTreeSet<u16>, ConfigError>)
    ensures
        ({
            let parts = pieces(value@, ',');
            match result {
                Ok(partitions) => readable(parts, parts.len() as int) && forall|partition: u16|
                    #![trigger partitions@.contains(partition)]
                    partitions@.contains(partition) <==> named_within(
                        parts,
                        parts.len() as int,
                        partition,
                    ),
                Err(error) => first_unreadable(parts, error),
            }
        }),
{
    let list = split(value, ',');
    let ghost parts = pieces(value@, ',');
    let mut partitions: BTreeSet<u16> = BTreeSet::new();
    let mut i: usize = 0;
    while i < list.len()
        invariant
            i <= list.len(),
            list@.map_values(|part: String| part@) == parts,
            parts == pieces(value@, ','),
            readable(parts, i as int),
            forall|partition: u16|
                #![trigger partitions@.contains(partition)]
                partitions@.contains(partition) <==> named_within(parts, i as int, partition),
        decreases list.len() - i,
    {
        assert(parts[i as int] == list@[i as int]@);
        let text = trim(list[i].as_str());
        let (first, last) = match split_once(text.as_str(), '-') {
            Some((first, last)) => (first, last),
            None => (text.clone(), text.clone()),
        };
        let first_trimmed = trim(first.as_str());
        let last_trimmed = trim(last.as_str());
        let from: u64 = match parse_unsigned(first_trimmed.as_str(), 65_535) {
            Some(number) => number,
            None => {
                return Err(ConfigError::InvalidComponent(text));
            },
        };
        let to: u64 = match parse_unsigned(last_trimmed.as_str(), 65_535) {
            Some(number) => number,
            None => {
                return Err(ConfigError::InvalidComponent(text));
            },
        };
        if from > to || to >= 256 {
            return Err(ConfigError::InvalidRange);
        }
        let ghost before = partitions@;
        let mut at: u64 = from;
        while at <= to
            invariant
                from <= at <= to + 1,
                to < 256,
                forall|partition: u16|
                    #![trigger partitions@.contains(partition)]
                    partitions@.contains(partition) <==> before.contains(partition) || from
                        <= partition < at,
            decreases to + 1 - at,
        {
            let ghost held = partitions@;
            let added: u16 = at as u16;
            partitions.insert(added);
            assert(partitions@ == held.insert(added));
            at += 1;
        }
        assert(component(trimmed(parts[i as int])) == Component::Range(from as nat, to as nat));
        assert forall|partition: u16|
            #![trigger partitions@.contains(partition)]
            partitions@.contains(partition) <==> named_within(parts, i + 1, partition) by {
            if named_within(parts, i as int, partition) {
                let k = choose|k: int| 0 <= k < i && #[trigger] names_partition(parts, k, partition);
                assert(names_partition(parts, k, partition));
            }
            if from <= partition <= to {
                assert(names_partition(parts, i as int, partition));
            }
            if named_within(parts, i + 1, partition) {
                let k = choose|k: int| 0 <= k < i + 1 && #[trigger] names_partition(parts, k, partition);
                if k < i {
                    assert(named_within(parts, i as int, partition));
                }
            }
        }
        i += 1;
    }
    Ok(partitions)
}

/// Every partition that a list names exists.
pub proof fn partitions_exist(parts: Seq<Seq<char>>, partition: u16)
    requires
        named_within(parts, parts.len() as int, partition),
    ensures
        partition < RUNNABLE_PARTITIONS,
{
}

/// Reads a positive number of milliseconds.
pub fn interval(name: &str, value: &str) -> (result: Result<Duration, ConfigError>)
    ensures
        match unsigned_number(value@, u64::MAX as nat) {
            Some(millis) => if millis > 0 {
                result matches Ok(duration) && duration.nanos == millis * 1_000_000
            } else {
                result matches Err(ConfigError::NotPositive(text)) && text@ == name@
            },
            None => result matches Err(ConfigError::NotANumber(text)) && text@ == name@,
        },
{
    match parse_unsigned(value, u64::MAX) {
        Some(millis) => {
            if millis == 0 {
                return Err(ConfigError::NotPositive(name.to_owned()));
            }
            Ok(Duration::from_millis(millis))
        },
        None => Err(ConfigError::NotANumber(name.to_owned())),
    }
}

/// A setting, or its default when it is absent.
pub open spec fn setting_text(value: Option<String>, default: Seq<char>) -> Seq<char> {
    match value {
        Some(text) => text@,
        None => default,
    }
}

/// A setting, or its default when it is absent.
pub fn setting(value: &Option<String>, default: &str) -> (text: String)
    ensures
        text@ == setting_text(*value, default@),
{
    match value {
        Some(text) => text.clone(),
        None => default.to_owned(),
    }
}

impl Config {
    /// Reads the scheduler's settings out of environment values: the partitions it owns, how often
    /// it scans and how long it waits before it sends a nudge again.
    pub fn from_env(
        partitions: &Option<String>,
        scan_interval: &Option<String>,
        resend_interval: &Option<String>,
    ) -> (result: Result<Config, ConfigError>)
        ensures
            ({
                let parts = pieces(setting_text(*partitions, "0-255"@), ',');
                let scan = unsigned_number(setting_text(*scan_interval, "1000"@), u64::MAX as nat);
                let resend = unsigned_number(
                    setting_text(*resend_interval, "5000"@),
                    u64::MAX as nat,
                );
                &&& result is Ok <==> readable(parts, parts.len() as int) && (scan matches Some(n)
                    && n > 0) && (resend matches Some(n) && n > 0)
                &&& result matches Ok(config) ==> {
                    &&& config.scan_interval.nanos == scan->0 * 1_000_000
                    &&& config.resend_interval.nanos == resend->0 * 1_000_000
                    &&& forall|partition: u16|
                        #![trigger config.partitions@.contains(partition)]
                        config.partitions@.contains(partition) <==> named_within(
                            parts,
                            parts.len() as int,
                            partition,
                        )
                }
                &&& result matches Err(error) ==> if !readable(parts, parts.len() as int) {
                    first_unreadable(parts, error)
                } else if !(scan matches Some(n) && n > 0) {
                    match error {
                        ConfigError::NotANumber(name) => scan is None && name@
                            == "SWARMY_SCHEDULER_SCAN_INTERVAL_MS"@,
                        ConfigError::NotPositive(name) => scan is Some && name@
                            == "SWARMY_SCHEDULER_SCAN_INTERVAL_MS"@,
                        _ => false,
                    }
                } else {
                    match error {
                        ConfigError::NotANumber(name) => resend is None && name@
                            == "SWARMY_SCHEDULER_RESEND_INTERVAL_MS"@,
                        ConfigError::NotPositive(name) => resend is Some && name@
                            == "SWARMY_SCHEDULER_RESEND_INTERVAL_MS"@,
                        _ => false,
                    }
                }
            }),
    {
        let list = setting(partitions, "0-255");
        let owned = match parse_partitions(list.as_str()) {
            Ok(owned) => owned,
            Err(error) => {
                return Err(error);
            },
        };
        let scan = setting(scan_interval, "1000");
        let scan_interval = match interval("SWARMY_SCHEDULER_SCAN_INTERVAL_MS", scan.as_str()) {
            Ok(found) => found,
            Err(error) => {
                return Err(error);
            },
        };
        let resend = setting(resend_interval, "5000");
        let resend_interval = match interval("SWARMY_SCHEDULER_RESEND_INTERVAL_MS", resend.as_str()) {
            Ok(found) => found,
            Err(error) => {
                return Err(error);
            },
        };
        Ok(Config { partitions: owned, scan_interval, resend_interval })
    }
}

/// How often ephemeral sessions are swept: as often as they may expire, at least once a minute.
pub fn sweep_interval(retention_seconds: u64) -> (every: Duration)
    ensures
        every.nanos == if retention_seconds < 60 {
            retention_seconds * 1_000_000_000
        } else {
            60_000_000_000
        },
{
    Duration::from_secs(retention_seconds).min(Duration::from_secs(60))
}

/// Components of a store directory; none may be empty.
pub fn store_directory(path: &str) -> (components: Option<Vec<String>>)
    ensures
        match components {
            Some(parts) => {
                &&& parts@.map_values(|part: String| part@) == pieces(path@, '/')
                &&& forall|i: int| 0 <= i < parts@.len() ==> (#[trigger] parts@[i])@.len() > 0
            },
            None => exists|i: int|
                0 <= i < pieces(path@, '/').len() && (#[trigger] pieces(path@, '/')[i]).len() == 0,
        },
{
    let parts = split(path, '/');
    let mut i: usize = 0;
    while i < parts.len()
        invariant
            i <= parts.len(),
            parts@.map_values(|part: String| part@) == pieces(path@, '/'),
            forall|j: int| 0 <= j < i ==> (#[trigger] parts@[j])@.len() > 0,
        decreases parts.len() - i,
    {
        if parts[i].as_str().is_empty() {
            assert(pieces(path@, '/')[i as int] == parts@[i as int]@);
            return None;
        }
        i += 1;
    }
    Some(parts)
}

/// An interval is as many milliseconds as were written, and at least one.
pub proof fn intervals_are_milliseconds(name: &str, value: &str, result: Result<Duration, ConfigError>)
    requires
        call_ensures(interval, (name, value), result),
    ensures
        result matches Ok(duration) ==> duration.nanos > 0 && duration.nanos % 1_000_000 == 0 && (
        unsigned_number(value@, u64::MAX as nat) matches Some(millis) && duration.nanos / 1_000_000 == millis),
        result matches Err(ConfigError::NotANumber(text)) ==> text@ == name@,
        result matches Err(ConfigError::NotPositive(text)) ==> text@ == name@,
        result matches Err(error) ==> error is NotANumber || error is NotPositive,
{
}

/// A setting that is given is taken as it is, else the default.
pub proof fn given_settings_are_taken(value: Option<String>, default: &str, text: String)
    requires
        call_ensures(setting, (&value, default), text),
    ensures
        value matches Some(given) ==> text@ == given@,
        value is None ==> text@ == default@,
{
}

/// A sweep comes at least every minute and at least once per retention.
pub proof fn sweeps_come_often_enough(retention_seconds: u64, every: Duration)
    requires
        call_ensures(sweep_interval, (retention_seconds,), every),
    ensures
        every.nanos <= 60_000_000_000,
        every.nanos <= retention_seconds * 1_000_000_000,
        every.nanos == 60_000_000_000 || every.nanos == retention_seconds * 1_000_000_000,
{
}

/// Every partition that is owned is within some range that was written, lies below the number of
/// partitions, and every number within a written range is owned.
pub proof fn written_ranges_are_owned(value: &str, result: Result<BTreeSet<u16>, ConfigError>, i: int, first: nat, last: nat, partition: u16)
    requires
        call_ensures(parse_partitions, (value,), result),
        result is Ok,
        0 <= i < pieces(value@, ',').len(),
        component(trimmed(pieces(value@, ',')[i])) == Component::Range(first, last),
    ensures
        first <= partition <= last ==> result->Ok_0@.contains(partition),
        first <= last < 256,
        result->Ok_0@.contains(partition) ==> partition < 256,
{
    let parts = pieces(value@, ',');
    if first <= partition <= last {
        assert(names_partition(parts, i, partition));
    }
    if result->Ok_0@.contains(partition) {
        let k = choose|k: int| 0 <= k < parts.len() && #[trigger] names_partition(parts, k, partition);
        assert(component(trimmed(parts[k])) is Range);
    }
}

/// A range is written as its first and its last number with a dash between, or as one number.
pub proof fn ranges_are_first_and_last(first: Seq<char>, last: Seq<char>, a: nat, b: nat)
    requires
        !first.contains('-'),
        unsigned_number(trimmed(first), u16::MAX as nat) == Some(a),
        unsigned_number(trimmed(last), u16::MAX as nat) == Some(b),
    ensures
        a <= b < 256 ==> component(first + seq!['-'] + last) == Component::Range(a, b),
        a > b || b >= 256 ==> component(first + seq!['-'] + last) is Outside,
        a < 256 ==> component(first) == Component::Range(a, a),
{
    let text = first + seq!['-'] + last;
    let at = first.len() as int;
    assert(text[at] == '-');
    assert forall|i: int| 0 <= i < at implies text[i] != '-' by {
        assert(first.contains(first[i]));
    }
    crate::text::first_index_unique(text, '-', at);
    assert(text.take(at) =~= first);
    assert(text.skip(at + 1) =~= last);
    crate::text::first_index_marks(first, '-');
    if crate::text::first_index(first, '-') < first.len() {
        assert(first.contains(first[crate::text::first_index(first, '-')]));
    }
}

/// A directory is made of the parts between its slashes, none of them empty.
pub proof fn directories_are_their_parts(path: &str, components: Option<Vec<String>>)
    requires
        call_ensures(store_directory, (path,), components),
    ensures
        components matches Some(parts) ==> crate::text::joined(parts@.map_values(|part: String| part@), '/')
            == path@ && parts@.len() > 0,
        path@.len() == 0 ==> components is None,
{
    crate::text::pieces_make_up_the_text(path@, '/');
    if path@.len() == 0 {
        assert(pieces(path@, '/') =~= seq![path@]);
        assert(pieces(path@, '/')[0].len() == 0);
        if let Some(parts) = components {
            let views = parts@.map_values(|part: String| part@);
            assert(views[0] == parts@[0]@);
        }
    }
}

/// A configuration is made of the settings that were given: each interval is the one of its own
/// setting, in milliseconds.
pub proof fn configurations_keep_their_settings(
    partitions: Option<String>,
    scan_interval: Option<String>,
    resend_interval: Option<String>,
    result: Result<Config, ConfigError>,
)
    requires
        call_ensures(Config::from_env, (&partitions, &scan_interval, &resend_interval), result),
    ensures
        result matches Ok(config) ==> {
            &&& config.scan_interval.nanos > 0 && config.resend_interval.nanos > 0
            &&& scan_interval matches Some(text) ==> (unsigned_number(text@, u64::MAX as nat) matches Some(millis)
                && config.scan_interval.nanos == millis * 1_000_000)
            &&& resend_interval matches Some(text) ==> (unsigned_number(text@, u64::MAX as nat) matches Some(
                millis,
            ) && config.resend_interval.nanos == millis * 1_000_000)
        },
        scan_interval matches Some(text) ==> (unsigned_number(text@, u64::MAX as nat) is None ==> result is Err),
        resend_interval matches Some(text) ==> (unsigned_number(text@, u64::MAX as nat) is None ==> result is Err),
{
}

} // verus!
