//! Billed usage of inference requests.

use crate::events::TokenUsage;
use crate::text::copy_option;
use crate::time::Timestamp;
use vstd::prelude::*;

verus! {

/// Billed tokens and cost, summed.
#[derive(Clone, Copy, Debug, PartialEq, Eq, Structural)]
pub struct UsageTotals {
    pub usage: TokenUsage,
    pub cost_micros: u64,
}

/// Sum that stops at the largest counter.
pub open spec fn capped_sum(a: u64, b: u64) -> u64 {
    if a + b > u64::MAX {
        u64::MAX
    } else {
        (a + b) as u64
    }
}

/// Totals of nothing.
pub open spec fn no_usage() -> UsageTotals {
    UsageTotals {
        usage: TokenUsage {
            input_tokens: 0,
            cached_input_tokens: 0,
            cache_write_input_tokens: 0,
            output_tokens: 0,
            reasoning_output_tokens: 0,
            total_tokens: 0,
        },
        cost_micros: 0,
    }
}

/// Totals with one more completion.
pub open spec fn with_usage(totals: UsageTotals, usage: TokenUsage, cost_micros: u64) -> UsageTotals {
    let t = totals.usage;
    UsageTotals {
        usage: TokenUsage {
            input_tokens: capped_sum(t.input_tokens, usage.input_tokens),
            cached_input_tokens: capped_sum(t.cached_input_tokens, usage.cached_input_tokens),
            cache_write_input_tokens: capped_sum(
                t.cache_write_input_tokens,
                usage.cache_write_input_tokens,
            ),
            output_tokens: capped_sum(t.output_tokens, usage.output_tokens),
            reasoning_output_tokens: capped_sum(
                t.reasoning_output_tokens,
                usage.reasoning_output_tokens,
            ),
            total_tokens: capped_sum(t.total_tokens, usage.total_tokens),
        },
        cost_micros: capped_sum(totals.cost_micros, cost_micros),
    }
}

impl UsageTotals {
    /// Totals of nothing.
    pub fn zero() -> (totals: UsageTotals)
        ensures
            totals == no_usage(),
    {
        UsageTotals {
            usage: TokenUsage {
                input_tokens: 0,
                cached_input_tokens: 0,
                cache_write_input_tokens: 0,
                output_tokens: 0,
                reasoning_output_tokens: 0,
                total_tokens: 0,
            },
            cost_micros: 0,
        }
    }

    /// Adds one completion; counters stop at their largest value.
    pub fn count(&mut self, usage: &TokenUsage, cost_micros: u64)
        ensures
            *final(self) == with_usage(*old(self), *usage, cost_micros),
    {
        self.usage.input_tokens = self.usage.input_tokens.saturating_add(usage.input_tokens);
        self.usage.cached_input_tokens = self.usage.cached_input_tokens.saturating_add(
            usage.cached_input_tokens,
        );
        self.usage.cache_write_input_tokens = self.usage.cache_write_input_tokens.saturating_add(
            usage.cache_write_input_tokens,
        );
        self.usage.output_tokens = self.usage.output_tokens.saturating_add(usage.output_tokens);
        self.usage.reasoning_output_tokens = self.usage.reasoning_output_tokens.saturating_add(
            usage.reasoning_output_tokens,
        );
        self.usage.total_tokens = self.usage.total_tokens.saturating_add(usage.total_tokens);
        self.cost_micros = self.cost_micros.saturating_add(cost_micros);
    }
}

/// Who a completion is billed to, kept for each request.
#[derive(Clone, Debug, PartialEq, Eq)]
pub struct UsageRecord {
    pub provider: String,
    pub entry: Option<String>,
    pub usage: TokenUsage,
    pub cost_micros: u64,
    pub recorded_at: Option<Timestamp>,
}

/// What billing a completion writes: its record and the totals of its session and agent.
pub struct BilledUsage {
    pub record: UsageRecord,
    pub session: UsageTotals,
    pub agent: UsageTotals,
}

/// Totals of a row that may be absent.
pub open spec fn totals_or_zero(row: Option<UsageTotals>) -> UsageTotals {
    match row {
        Some(totals) => totals,
        None => no_usage(),
    }
}

/// Bills a completion. `entry` is what the gateway recorded as the entry of the request; the row
/// goes once it is used.
pub fn record_usage(
    session: Option<UsageTotals>,
    agent: Option<UsageTotals>,
    entry: &Option<Option<String>>,
    provider: &str,
    usage: &TokenUsage,
    cost_micros: u64,
    now: Timestamp,
) -> (billed: BilledUsage)
    ensures
        billed.record.provider@ == provider@,
        billed.record.entry == match *entry {
            Some(label) => label,
            None => None,
        },
        billed.record.usage == *usage,
        billed.record.cost_micros == cost_micros,
        billed.record.recorded_at == Some(now),
        billed.session == with_usage(totals_or_zero(session), *usage, cost_micros),
        billed.agent == with_usage(totals_or_zero(agent), *usage, cost_micros),
{
    let mut session_totals = match session {
        Some(totals) => totals,
        None => UsageTotals::zero(),
    };
    session_totals.count(usage, cost_micros);
    let mut agent_totals = match agent {
        Some(totals) => totals,
        None => UsageTotals::zero(),
    };
    agent_totals.count(usage, cost_micros);
    let label = match entry {
        Some(label) => copy_option(label),
        None => None,
    };
    BilledUsage {
        record: UsageRecord {
            provider: provider.to_owned(),
            entry: label,
            usage: *usage,
            cost_micros,
            recorded_at: Some(now),
        },
        session: session_totals,
        agent: agent_totals,
    }
}

/// Totals never go down.
pub proof fn totals_never_fall(totals: UsageTotals, usage: TokenUsage, cost_micros: u64)
    ensures
        with_usage(totals, usage, cost_micros).cost_micros >= totals.cost_micros,
        with_usage(totals, usage, cost_micros).usage.input_tokens >= totals.usage.input_tokens,
        with_usage(totals, usage, cost_micros).usage.output_tokens >= totals.usage.output_tokens,
        with_usage(totals, usage, cost_micros).usage.total_tokens >= totals.usage.total_tokens,
{
}

/// Whether each counter is the sum of the two counters of its name, or stands at the end of its range
/// where the sum lies beyond.
pub open spec fn adds_up(sum: UsageTotals, before: UsageTotals, usage: TokenUsage, cost_micros: u64) -> bool {
    let s = sum.usage;
    let b = before.usage;
    &&& s.input_tokens == b.input_tokens + usage.input_tokens || s.input_tokens == u64::MAX < b.input_tokens
        + usage.input_tokens
    &&& s.cached_input_tokens == b.cached_input_tokens + usage.cached_input_tokens || s.cached_input_tokens
        == u64::MAX < b.cached_input_tokens + usage.cached_input_tokens
    &&& s.cache_write_input_tokens == b.cache_write_input_tokens + usage.cache_write_input_tokens
        || s.cache_write_input_tokens == u64::MAX < b.cache_write_input_tokens
        + usage.cache_write_input_tokens
    &&& s.output_tokens == b.output_tokens + usage.output_tokens || s.output_tokens == u64::MAX
        < b.output_tokens + usage.output_tokens
    &&& s.reasoning_output_tokens == b.reasoning_output_tokens + usage.reasoning_output_tokens
        || s.reasoning_output_tokens == u64::MAX < b.reasoning_output_tokens + usage.reasoning_output_tokens
    &&& s.total_tokens == b.total_tokens + usage.total_tokens || s.total_tokens == u64::MAX < b.total_tokens
        + usage.total_tokens
    &&& sum.cost_micros == before.cost_micros + cost_micros || sum.cost_micros == u64::MAX
        < before.cost_micros + cost_micros
}

/// Counting adds each counter to the counter of its name.
pub proof fn counting_adds_each_counter(totals: &mut UsageTotals, usage: TokenUsage, cost_micros: u64)
    requires
        call_ensures(UsageTotals::count, (totals, &usage, cost_micros), ()),
    ensures
        adds_up(*final(totals), *old(totals), usage, cost_micros),
{
}

/// Counting from nothing gives back what was counted, counter by counter.
pub proof fn first_usage_is_the_total(zero: UsageTotals, totals: &mut UsageTotals, usage: TokenUsage, cost_micros: u64)
    requires
        call_ensures(UsageTotals::zero, (), zero),
        *old(totals) == zero,
        call_ensures(UsageTotals::count, (totals, &usage, cost_micros), ()),
    ensures
        final(totals).usage.input_tokens == usage.input_tokens,
        final(totals).usage.cached_input_tokens == usage.cached_input_tokens,
        final(totals).usage.cache_write_input_tokens == usage.cache_write_input_tokens,
        final(totals).usage.output_tokens == usage.output_tokens,
        final(totals).usage.reasoning_output_tokens == usage.reasoning_output_tokens,
        final(totals).usage.total_tokens == usage.total_tokens,
        final(totals).cost_micros == cost_micros,
{
}

/// The order of two counts does not matter.
pub proof fn counts_commute(totals: UsageTotals, a: TokenUsage, x: u64, b: TokenUsage, y: u64)
    ensures
        with_usage(with_usage(totals, a, x), b, y) == with_usage(with_usage(totals, b, y), a, x),
{
}

/// A billed request is recorded as it was: its provider, the label of its entry, its tokens and its
/// cost, at that moment. The session and the agent are charged the same, each on top of its own
/// totals.
pub proof fn bills_charge_session_and_agent(
    session: Option<UsageTotals>,
    agent: Option<UsageTotals>,
    entry: Option<Option<String>>,
    provider: &str,
    usage: TokenUsage,
    cost_micros: u64,
    now: Timestamp,
    billed: BilledUsage,
)
    requires
        call_ensures(record_usage, (session, agent, &entry, provider, &usage, cost_micros, now), billed),
    ensures
        billed.record.provider@ == provider@,
        billed.record.usage == usage,
        billed.record.cost_micros == cost_micros,
        billed.record.recorded_at == Some(now),
        entry matches Some(label) ==> billed.record.entry == label,
        entry is None ==> billed.record.entry is None,
        session matches Some(before) ==> adds_up(billed.session, before, usage, cost_micros),
        agent matches Some(before) ==> adds_up(billed.agent, before, usage, cost_micros),
        session is None ==> billed.session.usage == usage && billed.session.cost_micros == cost_micros,
        agent is None ==> billed.agent.usage == usage && billed.agent.cost_micros == cost_micros,
{
}

} // verus!
