//! Pages of turns, the walk over recent turns, and the rollup of an agent's turns.

use crate::metrics::{Millis, TurnSummary, TurnSummaryView};
use crate::metrics_store::DecodedSummary;
use crate::metrics_turns::{
    assemble_legacy, assembled, legacy_rows, legacy_summary, migrate_legacy, token_totals, totals_fit,
    StageTiming, TurnMetrics, TurnMetricsView,
};
use crate::sort::{key_views, sort_order, stable_order, SortKey};
use crate::text::{copy_option, same, text_less};
use crate::MAX_SCAN_LIMIT;
use vstd::prelude::*;

verus! {

/// Views of turns in order.
pub open spec fn turn_views(turns: Seq<TurnMetrics>) -> Seq<TurnMetricsView> {
    turns.map_values(|turn: TurnMetrics| turn@)
}

/// Whether a later turn has the id of turn `i`.
pub open spec fn superseded(turns: Seq<TurnMetricsView>, i: int) -> bool {
    exists|j: int| i < j < turns.len() && (#[trigger] turns[j]).turn_id == turns[i].turn_id
}

/// The first `count` turns without those that a later turn supersedes.
pub open spec fn standing(turns: Seq<TurnMetricsView>, count: nat) -> Seq<TurnMetricsView>
    decreases count,
{
    if count == 0 {
        Seq::empty()
    } else if superseded(turns, count - 1) {
        standing(turns, (count - 1) as nat)
    } else {
        standing(turns, (count - 1) as nat).push(turns[count - 1])
    }
}

/// Sort keys of turns.
pub open spec fn turn_keys(turns: Seq<TurnMetricsView>) -> Seq<(int, Seq<char>)> {
    turns.map_values(|turn: TurnMetricsView| (0int, turn.turn_id))
}

/// Turns in stable order of their ids.
pub open spec fn by_turn_id(turns: Seq<TurnMetricsView>) -> Seq<TurnMetricsView> {
    Seq::new(turns.len(), |i: int| turns[stable_order(turn_keys(turns), turns.len())[i]])
}

fn copy_stage(stage: &StageTiming) -> (copy: StageTiming)
    ensures
        copy@ == stage@,
{
    StageTiming {
        stage: stage.stage.clone(),
        request_id: copy_option(&stage.request_id),
        clock_id: stage.clock_id.clone(),
        monotonic_ns: stage.monotonic_ns,
        unix_ns: stage.unix_ns,
    }
}

fn copy_turn(turn: &TurnMetrics) -> (copy: TurnMetrics)
    ensures
        copy@ == turn@,
{
    let mut stages: Vec<StageTiming> = Vec::new();
    let mut i: usize = 0;
    while i < turn.stages.len()
        invariant
            i <= turn.stages.len(),
            stages@.len() == i,
            forall|j: int| 0 <= j < i ==> (#[trigger] stages@[j])@ == turn.stages@[j]@,
        decreases turn.stages.len() - i,
    {
        stages.push(copy_stage(&turn.stages[i]));
        i += 1;
    }
    let mut inference = Vec::new();
    let mut n: usize = 0;
    while n < turn.inference.len()
        invariant
            n <= turn.inference.len(),
            inference@.len() == n,
            forall|j: int| 0 <= j < n ==> (#[trigger] inference@[j]) == turn.inference@[j],
        decreases turn.inference.len() - n,
    {
        inference.push(turn.inference[n].copy());
        n += 1;
    }
    let mut tools = Vec::new();
    let mut k: usize = 0;
    while k < turn.tools.len()
        invariant
            k <= turn.tools.len(),
            tools@.len() == k,
            forall|j: int| 0 <= j < k ==> (#[trigger] tools@[j]) == turn.tools@[j],
        decreases turn.tools.len() - k,
    {
        tools.push(turn.tools[k].copy());
        k += 1;
    }
    let copy = TurnMetrics {
        session_id: turn.session_id.clone(),
        turn_id: turn.turn_id.clone(),
        stages,
        inference,
        tools,
        computer: turn.computer,
        append_to_first_token_ns: turn.append_to_first_token_ns,
        inference_duration_ns: turn.inference_duration_ns,
        append_to_idle_ns: turn.append_to_idle_ns,
        error: copy_option(&turn.error),
        dropped_stages: turn.dropped_stages,
        dropped_inference: turn.dropped_inference,
        dropped_tools: turn.dropped_tools,
    };
    assert(copy@ =~= turn@);
    copy
}

fn is_superseded(turns: &Vec<TurnMetrics>, i: usize) -> (later: bool)
    requires
        i < turns@.len(),
    ensures
        later == superseded(turn_views(turns@), i as int),
{
    let ghost views = turn_views(turns@);
    let count: usize = turns.len();
    let mut j: usize = i + 1;
    while j < count
        invariant
            i < j <= count,
            count == turns@.len(),
            views == turn_views(turns@),
            forall|k: int| i < k < j ==> (#[trigger] views[k]).turn_id != views[i as int].turn_id,
        decreases count - j,
    {
        if same(turns[j].turn_id.as_str(), turns[i].turn_id.as_str()) {
            assert(views[j as int].turn_id == views[i as int].turn_id);
            return true;
        }
        j += 1;
    }
    false
}

/// Summaries of a page that have rows of their own, in order.
pub open spec fn row_summaries(page: Seq<Option<DecodedSummary>>, count: nat) -> Seq<TurnSummaryView>
    decreases count,
{
    if count == 0 {
        Seq::empty()
    } else {
        match page[count - 1] {
            Some(DecodedSummary::V2(summary)) => row_summaries(page, (count - 1) as nat).push(
                summary@,
            ),
            _ => row_summaries(page, (count - 1) as nat),
        }
    }
}

/// Turns of a page that were stored whole, as they are shown: their arrays sorted and cut like
/// those of any other turn.
pub open spec fn whole_turns(
    page: Seq<Option<DecodedSummary>>,
    count: nat,
    inference_limit: Option<usize>,
    tools_limit: Option<usize>,
) -> Seq<TurnMetricsView>
    decreases count,
{
    if count == 0 {
        Seq::empty()
    } else {
        match page[count - 1] {
            Some(DecodedSummary::Legacy(record)) => whole_turns(
                page,
                (count - 1) as nat,
                inference_limit,
                tools_limit,
            ).push(
                assembled(
                    legacy_summary(record@),
                    legacy_rows(record@),
                    record@.tools,
                    inference_limit,
                    tools_limit,
                ),
            ),
            _ => whole_turns(page, (count - 1) as nat, inference_limit, tools_limit),
        }
    }
}

/// Parts a page into summaries whose rows are still to be read and turns that are complete.
/// Values that fit no layout are left out.
pub fn split_page(
    page: Vec<Option<DecodedSummary>>,
    inference_limit: Option<usize>,
    tools_limit: Option<usize>,
) -> (parts: (Vec<TurnSummary>, Vec<TurnMetrics>))
    requires
        forall|i: int|
            0 <= i < page@.len() ==> (#[trigger] page@[i] matches Some(
                DecodedSummary::Legacy(record),
            ) ==> totals_fit(token_totals(record@.inference))),
    ensures
        summary_views(parts.0@) == row_summaries(page@, page@.len()),
        turn_views(parts.1@) == whole_turns(page@, page@.len(), inference_limit, tools_limit),
{
    let ghost all = page@;
    let mut reversed: Vec<Option<DecodedSummary>> = Vec::new();
    let mut rest = page;
    while rest.len() > 0
        invariant
            rest@ == all.take(rest@.len() as int),
            reversed@.len() + rest@.len() == all.len(),
            forall|j: int| 0 <= j < reversed@.len() ==> reversed@[j] == all[all.len() - 1 - j],
        decreases rest@.len(),
    {
        match rest.pop() {
            Some(value) => {
                reversed.push(value);
                assert(rest@ =~= all.take(rest@.len() as int));
            },
            None => {},
        }
    }
    let ghost mut seen: nat = 0;
    let mut summaries: Vec<TurnSummary> = Vec::new();
    let mut turns: Vec<TurnMetrics> = Vec::new();
    assert(summary_views(summaries@) =~= row_summaries(all, 0));
    assert(turn_views(turns@) =~= whole_turns(all, 0, inference_limit, tools_limit));
    while reversed.len() > 0
        invariant
            seen + reversed@.len() == all.len(),
            forall|j: int| 0 <= j < reversed@.len() ==> reversed@[j] == all[all.len() - 1 - j],
            forall|i: int|
                0 <= i < all.len() ==> (#[trigger] all[i] matches Some(
                    DecodedSummary::Legacy(record),
                ) ==> totals_fit(token_totals(record@.inference))),
            summary_views(summaries@) == row_summaries(all, seen),
            turn_views(turns@) == whole_turns(all, seen, inference_limit, tools_limit),
        decreases reversed@.len(),
    {
        let ghost old_summaries = summaries@;
        let ghost old_turns = turns@;
        match reversed.pop() {
            Some(value) => {
                assert(value == all[seen as int]);
                proof {
                    seen = seen + 1;
                }
                match value {
                    Some(DecodedSummary::V2(summary)) => {
                        summaries.push(summary);
                        assert(summary_views(summaries@) =~= summary_views(old_summaries).push(
                            summary@,
                        ));
                    },
                    Some(DecodedSummary::Legacy(record)) => {
                        let turn = assemble_legacy(&record, inference_limit, tools_limit);
                        turns.push(turn);
                        assert(turn_views(turns@) =~= turn_views(old_turns).push(turn@));
                    },
                    None => {},
                }
            },
            None => {},
        }
    }
    (summaries, turns)
}

/// One page of turns in order of their ids: turns assembled from rows, and turns that were stored
/// whole, of which the last with an id counts.
pub fn list_turn_metrics_paged(assembled: Vec<TurnMetrics>, legacy: &Vec<TurnMetrics>) -> (page: Vec<TurnMetrics>)
    ensures
        turn_views(page@) == by_turn_id(
            turn_views(assembled@) + standing(turn_views(legacy@), legacy@.len()),
        ),
{
    let ghost first = turn_views(assembled@);
    let ghost old_turns = turn_views(legacy@);
    let mut turns = assembled;
    assert(turn_views(turns@) =~= first + standing(old_turns, 0));
    let mut i: usize = 0;
    while i < legacy.len()
        invariant
            i <= legacy.len(),
            old_turns == turn_views(legacy@),
            turn_views(turns@) == first + standing(old_turns, i as nat),
        decreases legacy.len() - i,
    {
        if !is_superseded(legacy, i) {
            let ghost before = turns@;
            let turn = copy_turn(&legacy[i]);
            turns.push(turn);
            assert(turn@ == old_turns[i as int]);
            assert(turn_views(turns@) =~= turn_views(before).push(turn@));
            assert(turn_views(turns@) =~= first + standing(old_turns, (i + 1) as nat));
        }
        i += 1;
    }
    let ghost views = turn_views(turns@);
    let mut keys: Vec<SortKey> = Vec::new();
    let mut n: usize = 0;
    while n < turns.len()
        invariant
            n <= turns.len(),
            keys@.len() == n,
            forall|j: int| 0 <= j < n ==> (#[trigger] keys@[j])@ == (0int, turns@[j]@.turn_id),
        decreases turns.len() - n,
    {
        keys.push(SortKey { number: 0, text: turns[n].turn_id.clone() });
        n += 1;
    }
    assert(key_views(keys@) =~= turn_keys(views));
    let order = sort_order(&keys);
    let ghost indices = order@.map_values(|k: usize| k as int);
    let mut page: Vec<TurnMetrics> = Vec::new();
    let mut k: usize = 0;
    while k < order.len()
        invariant
            k <= order.len(),
            order@.len() == turns@.len(),
            views == turn_views(turns@),
            indices == order@.map_values(|k: usize| k as int),
            indices == stable_order(turn_keys(views), views.len()),
            forall|j: int| 0 <= j < order@.len() ==> order@[j] < turns@.len(),
            page@.len() == k,
            forall|j: int| 0 <= j < k ==> (#[trigger] page@[j])@ == views[indices[j]],
        decreases order.len() - k,
    {
        assert(indices[k as int] == order@[k as int]);
        page.push(copy_turn(&turns[order[k]]));
        k += 1;
    }
    assert(turn_views(page@) =~= by_turn_id(views));
    page
}

// ---------------------------------------------------------------------------------------------
// Recent turns
// ---------------------------------------------------------------------------------------------

/// A walk over a session's turns, newest first, that stops at a limit.
pub struct RecentTurns {
    pub limit: usize,
    pub newest: Vec<TurnSummary>,
}

/// Views of summaries in order.
pub open spec fn summary_views(summaries: Seq<TurnSummary>) -> Seq<TurnSummaryView> {
    summaries.map_values(|summary: TurnSummary| summary@)
}

/// The summary that a stored value stands for.
pub open spec fn summary_of(decoded: DecodedSummary) -> TurnSummaryView {
    match decoded {
        DecodedSummary::V2(summary) => summary@,
        DecodedSummary::Legacy(record) => legacy_summary(record@),
    }
}

/// Summaries of the first `count` values of a page; values that fit no layout are left out.
pub open spec fn page_summaries(page: Seq<Option<DecodedSummary>>, count: nat) -> Seq<TurnSummaryView>
    decreases count,
{
    if count == 0 {
        Seq::empty()
    } else {
        match page[count - 1] {
            Some(decoded) => page_summaries(page, (count - 1) as nat).push(summary_of(decoded)),
            None => page_summaries(page, (count - 1) as nat),
        }
    }
}

/// The first `limit` of a sequence.
pub open spec fn at_most<T>(list: Seq<T>, limit: nat) -> Seq<T> {
    if list.len() <= limit {
        list
    } else {
        list.take(limit as int)
    }
}

impl RecentTurns {
    /// Whether the walk is within its limit.
    pub open spec fn wf(&self) -> bool {
        self.newest@.len() <= self.limit
    }

    /// A walk that has seen nothing.
    pub fn start(limit: usize) -> (walk: RecentTurns)
        ensures
            walk.wf(),
            walk.limit == limit,
            walk.newest@.len() == 0,
    {
        RecentTurns { limit, newest: Vec::new() }
    }

    /// How many older values to read next; none once the limit is reached.
    pub fn next_take(&self) -> (take: Option<usize>)
        requires
            self.wf(),
        ensures
            match take {
                Some(count) => self.newest@.len() < self.limit && count == if self.limit
                    - self.newest@.len() < MAX_SCAN_LIMIT {
                    self.limit - self.newest@.len()
                } else {
                    MAX_SCAN_LIMIT as int
                },
                None => self.newest@.len() == self.limit,
            },
    {
        if self.newest.len() >= self.limit {
            return None;
        }
        let missing: usize = self.limit - self.newest.len();
        if missing < MAX_SCAN_LIMIT {
            Some(missing)
        } else {
            Some(MAX_SCAN_LIMIT)
        }
    }

    /// Adds a page of older values, up to the limit.
    pub fn accept(&mut self, page: Vec<Option<DecodedSummary>>)
        requires
            old(self).wf(),
            forall|i: int|
                0 <= i < page@.len() ==> (#[trigger] page@[i] matches Some(
                    DecodedSummary::Legacy(record),
                ) ==> totals_fit(token_totals(record@.inference))),
        ensures
            final(self).wf(),
            final(self).limit == old(self).limit,
            summary_views(final(self).newest@) == at_most(
                summary_views(old(self).newest@) + page_summaries(page@, page@.len()),
                old(self).limit as nat,
            ),
    {
        let ghost all = page@;
        let ghost held = summary_views(self.newest@);
        let ghost limit = self.limit;
        let mut reversed: Vec<Option<DecodedSummary>> = Vec::new();
        let mut rest = page;
        while rest.len() > 0
            invariant
                rest@ == all.take(rest@.len() as int),
                reversed@.len() + rest@.len() == all.len(),
                forall|j: int| 0 <= j < reversed@.len() ==> reversed@[j] == all[all.len() - 1 - j],
            decreases rest@.len(),
        {
            match rest.pop() {
                Some(value) => {
                    reversed.push(value);
                    assert(rest@ =~= all.take(rest@.len() as int));
                },
                None => {},
            }
        }
        let ghost mut seen: nat = 0;
        assert(summary_views(self.newest@) =~= at_most(held + page_summaries(all, 0), limit as nat));
        while reversed.len() > 0
            invariant
                self.wf(),
                self.limit == limit,
                seen + reversed@.len() == all.len(),
                forall|j: int| 0 <= j < reversed@.len() ==> reversed@[j] == all[all.len() - 1 - j],
                forall|i: int|
                    0 <= i < all.len() ==> (#[trigger] all[i] matches Some(
                        DecodedSummary::Legacy(record),
                    ) ==> totals_fit(token_totals(record@.inference))),
                summary_views(self.newest@) == at_most(held + page_summaries(all, seen), limit as nat),
            decreases reversed@.len(),
        {
            let ghost before = self.newest@;
            let ghost shown = held + page_summaries(all, seen);
            match reversed.pop() {
                Some(value) => {
                    assert(value == all[seen as int]);
                    proof {
                        seen = seen + 1;
                    }
                    if let Some(decoded) = value {
                        if self.newest.len() < self.limit {
                            let summary = match decoded {
                                DecodedSummary::V2(summary) => summary,
                                DecodedSummary::Legacy(record) => migrate_legacy(&record).0,
                            };
                            self.newest.push(summary);
                            assert(summary_views(self.newest@) =~= summary_views(before).push(
                                summary@,
                            ));
                            assert(shown.len() == summary_views(before).len());
                        }
                        proof {
                            assert(held + page_summaries(all, seen) =~= shown.push(
                                summary_of(decoded),
                            ));
                            assert(summary_views(self.newest@) =~= at_most(
                                held + page_summaries(all, seen),
                                limit as nat,
                            ));
                        }
                    }
                },
                None => {},
            }
        }
    }

    /// The turns seen, oldest first.
    pub fn finish(self) -> (oldest_first: Vec<TurnSummary>)
        ensures
            oldest_first@ == self.newest@.reverse(),
    {
        let ghost all = self.newest@;
        let mut rest = self.newest;
        let mut oldest_first: Vec<TurnSummary> = Vec::new();
        while rest.len() > 0
            invariant
                rest@ == all.take(rest@.len() as int),
                oldest_first@.len() + rest@.len() == all.len(),
                forall|j: int|
                    0 <= j < oldest_first@.len() ==> oldest_first@[j] == all[all.len() - 1 - j],
            decreases rest@.len(),
        {
            match rest.pop() {
                Some(value) => {
                    oldest_first.push(value);
                    assert(rest@ =~= all.take(rest@.len() as int));
                },
                None => {},
            }
        }
        assert(oldest_first@ =~= all.reverse());
        oldest_first
    }
}

/// Turns that a rollup covers: zero asks for the usual tail, and nothing exceeds it.
pub fn rollup_limit(limit: usize) -> (turns: usize)
    ensures
        turns == if limit == 0 || limit > 200 {
            200
        } else {
            limit as int
        },
{
    if limit == 0 || limit > 200 {
        200
    } else {
        limit
    }
}

// ---------------------------------------------------------------------------------------------
// Rollup
// ---------------------------------------------------------------------------------------------

/// Half-way and near-worst sample of a latency.
#[derive(Clone, Copy, Debug, PartialEq, Eq, Structural)]
pub struct Percentiles {
    pub p50: i128,
    pub p95: i128,
}

/// Totals over an agent's recent turns. Latencies are nanoseconds; placement latencies are the
/// ordered bits of measured milliseconds.
#[derive(Clone, Copy, Debug, PartialEq, Eq, Structural)]
pub struct AgentMetrics {
    pub turns: u64,
    pub errors: u64,
    pub input_tokens: u64,
    pub cached_input_tokens: u64,
    pub output_tokens: u64,
    pub reasoning_tokens: u64,
    pub cost_micros: u64,
    pub retries: u64,
    pub throughput_count: u64,
    pub append_to_first_token: Option<Percentiles>,
    pub inference: Option<Percentiles>,
    pub append_to_idle: Option<Percentiles>,
    pub placement: Option<Percentiles>,
}

/// Running totals of a rollup.
pub ghost struct RollupTotals {
    pub errors: nat,
    pub input: nat,
    pub cached: nat,
    pub output: nat,
    pub reasoning: nat,
    pub cost: nat,
    pub retries: nat,
    pub rates: nat,
}

/// Totals over turns. A turn's own error counts beside those of its requests.
pub open spec fn rollup_totals(turns: Seq<TurnSummaryView>) -> RollupTotals
    decreases turns.len(),
{
    if turns.len() == 0 {
        RollupTotals {
            errors: 0,
            input: 0,
            cached: 0,
            output: 0,
            reasoning: 0,
            cost: 0,
            retries: 0,
            rates: 0,
        }
    } else {
        let t = rollup_totals(turns.drop_last());
        let s = turns.last();
        RollupTotals {
            errors: t.errors + s.inference_errors as nat + if s.error is Some {
                1nat
            } else {
                0nat
            },
            input: t.input + s.input_tokens as nat,
            cached: t.cached + s.cached_input_tokens as nat,
            output: t.output + s.output_tokens as nat,
            reasoning: t.reasoning + s.reasoning_tokens as nat,
            cost: t.cost + s.cost_micros as nat,
            retries: t.retries + s.retries as nat,
            rates: t.rates + s.throughput_count as nat,
        }
    }
}

/// Whether totals fit the counters of a rollup.
pub open spec fn rollup_fits(t: RollupTotals) -> bool {
    &&& t.errors <= u64::MAX
    &&& t.input <= u64::MAX
    &&& t.cached <= u64::MAX
    &&& t.output <= u64::MAX
    &&& t.reasoning <= u64::MAX
    &&& t.cost <= u64::MAX
    &&& t.retries <= u64::MAX
    &&& t.rates <= u64::MAX
}

/// Tells whether the totals over turns fit the counters of a rollup.
pub fn turns_fit(turns: &Vec<TurnSummary>) -> (fits: bool)
    ensures
        fits == rollup_fits(rollup_totals(summary_views(turns@))),
{
    let ghost views = summary_views(turns@);
    let mut errors: u128 = 0;
    let mut input: u128 = 0;
    let mut cached: u128 = 0;
    let mut output: u128 = 0;
    let mut reasoning: u128 = 0;
    let mut cost: u128 = 0;
    let mut retries: u128 = 0;
    let mut rates: u128 = 0;
    let mut i: usize = 0;
    assert(views.take(0) =~= Seq::<TurnSummaryView>::empty());
    while i < turns.len()
        invariant
            i <= turns.len(),
            views == summary_views(turns@),
            rollup_totals(views.take(i as int)) == (RollupTotals {
                errors: errors as nat,
                input: input as nat,
                cached: cached as nat,
                output: output as nat,
                reasoning: reasoning as nat,
                cost: cost as nat,
                retries: retries as nat,
                rates: rates as nat,
            }),
            errors <= i * 0x1_0000_0000_0000_0000,
            input <= i * 0x1_0000_0000_0000_0000,
            cached <= i * 0x1_0000_0000_0000_0000,
            output <= i * 0x1_0000_0000_0000_0000,
            reasoning <= i * 0x1_0000_0000_0000_0000,
            cost <= i * 0x1_0000_0000_0000_0000,
            retries <= i * 0x1_0000_0000_0000_0000,
            rates <= i * 0x1_0000_0000_0000_0000,
        decreases turns.len() - i,
    {
        let turn = &turns[i];
        proof {
            assert(views.take(i + 1).drop_last() =~= views.take(i as int));
            assert(views.take(i + 1).last() == turn@);
        }
        errors = errors + turn.inference_errors as u128;
        input = input + turn.input_tokens as u128;
        cached = cached + turn.cached_input_tokens as u128;
        output = output + turn.output_tokens as u128;
        reasoning = reasoning + turn.reasoning_tokens as u128;
        cost = cost + turn.cost_micros as u128;
        retries = retries + turn.retries as u128;
        rates = rates + turn.throughput_count as u128;
        if turn.error.is_some() {
            errors = errors + 1;
        }
        i += 1;
    }
    assert(views.take(i as int) =~= views);
    let most: u128 = u64::MAX as u128;
    errors <= most
        && input <= most
        && cached <= most
        && output <= most
        && reasoning <= most
        && cost <= most
        && retries <= most
        && rates <= most
}

proof fn rollup_prefix_fits(turns: Seq<TurnSummaryView>, count: int)
    requires
        0 <= count <= turns.len(),
        rollup_fits(rollup_totals(turns)),
    ensures
        rollup_fits(rollup_totals(turns.take(count))),
    decreases turns.len() - count,
{
    if count < turns.len() {
        rollup_prefix_fits(turns, count + 1);
        assert(turns.take(count + 1).drop_last() =~= turns.take(count));
    } else {
        assert(turns.take(count) =~= turns);
    }
}

/// A latency that a rollup samples.
pub enum Latency {
    AppendToFirstToken,
    Inference,
    AppendToIdle,
    Placement,
}

/// Position of measured milliseconds in the total order of floating-point numbers.
pub open spec fn total_key(value: Millis) -> int {
    if value.bits < 0x8000_0000_0000_0000 {
        value.bits as int
    } else {
        0x7fff_ffff_ffff_ffff - value.bits
    }
}

/// The sample that a turn brings to a latency.
pub open spec fn sample_of(turn: TurnSummaryView, latency: Latency) -> Option<int> {
    match latency {
        Latency::AppendToFirstToken => match turn.append_to_first_token_ns {
            Some(ns) => Some(ns as int),
            None => None,
        },
        Latency::Inference => match turn.inference_duration_ns {
            Some(ns) => Some(ns as int),
            None => None,
        },
        Latency::AppendToIdle => match turn.append_to_idle_ns {
            Some(ns) => Some(ns as int),
            None => None,
        },
        Latency::Placement => match turn.computer {
            Some(computer) => match computer.placement_ms {
                Some(value) => Some(total_key(value)),
                None => None,
            },
            None => None,
        },
    }
}

/// Samples of a latency in the order of turns.
pub open spec fn samples(turns: Seq<TurnSummaryView>, latency: Latency) -> Seq<int>
    decreases turns.len(),
{
    if turns.len() == 0 {
        Seq::empty()
    } else {
        match sample_of(turns.last(), latency) {
            Some(value) => samples(turns.drop_last(), latency).push(value),
            None => samples(turns.drop_last(), latency),
        }
    }
}

/// Sort keys of samples.
pub open spec fn sample_keys(values: Seq<int>) -> Seq<(int, Seq<char>)> {
    values.map_values(|value: int| (value, Seq::<char>::empty()))
}

/// The sample at `p` percent of the sorted samples.
pub open spec fn percentile(values: Seq<int>, p: int) -> int {
    let at = values.len() * p / 100;
    let last = values.len() - 1;
    values[stable_order(sample_keys(values), values.len())[if at < last {
        at
    } else {
        last
    }]]
}

/// Percentiles of samples; none without samples.
pub open spec fn percentiles(values: Seq<int>) -> Option<(int, int)> {
    if values.len() == 0 {
        None
    } else {
        Some((percentile(values, 50), percentile(values, 95)))
    }
}

/// Percentiles as numbers.
pub open spec fn numbers(value: Option<Percentiles>) -> Option<(int, int)> {
    match value {
        Some(p) => Some((p.p50 as int, p.p95 as int)),
        None => None,
    }
}

fn order_key(value: Millis) -> (key: i128)
    ensures
        key == total_key(value),
{
    if value.bits < 0x8000_0000_0000_0000 {
        value.bits as i128
    } else {
        0x7fff_ffff_ffff_ffff - value.bits as i128
    }
}

fn take_sample(turn: &TurnSummary, latency: &Latency) -> (sample: Option<i128>)
    ensures
        match sample {
            Some(value) => sample_of(turn@, *latency) == Some(value as int),
            None => sample_of(turn@, *latency) is None,
        },
{
    match latency {
        Latency::AppendToFirstToken => match turn.append_to_first_token_ns {
            Some(ns) => Some(ns as i128),
            None => None,
        },
        Latency::Inference => match turn.inference_duration_ns {
            Some(ns) => Some(ns as i128),
            None => None,
        },
        Latency::AppendToIdle => match turn.append_to_idle_ns {
            Some(ns) => Some(ns as i128),
            None => None,
        },
        Latency::Placement => match turn.computer {
            Some(computer) => match computer.placement_ms {
                Some(value) => Some(order_key(value)),
                None => None,
            },
            None => None,
        },
    }
}

fn latency_percentiles(turns: &Vec<TurnSummary>, latency: Latency) -> (result: Option<Percentiles>)
    requires
        turns@.len() <= 200,
    ensures
        numbers(result) == percentiles(samples(summary_views(turns@), latency)),
{
    let ghost views = summary_views(turns@);
    let mut keys: Vec<SortKey> = Vec::new();
    let mut i: usize = 0;
    while i < turns.len()
        invariant
            i <= turns.len(),
            turns@.len() <= 200,
            views == summary_views(turns@),
            keys@.len() <= i,
            keys@.len() == samples(views.take(i as int), latency).len(),
            forall|j: int|
                0 <= j < keys@.len() ==> (#[trigger] keys@[j])@ == (
                    samples(views.take(i as int), latency)[j],
                    Seq::<char>::empty(),
                ),
        decreases turns.len() - i,
    {
        proof {
            assert(views.take(i + 1).drop_last() =~= views.take(i as int));
            assert(views.take(i + 1).last() == turns@[i as int]@);
        }
        if let Some(value) = take_sample(&turns[i], &latency) {
            keys.push(SortKey { number: value, text: String::new() });
        }
        i += 1;
    }
    assert(views.take(i as int) =~= views);
    let ghost values = samples(views, latency);
    assert(key_views(keys@) =~= sample_keys(values));
    if keys.len() == 0 {
        return None;
    }
    let order = sort_order(&keys);
    let ghost indices = order@.map_values(|k: usize| k as int);
    let last: usize = keys.len() - 1;
    let mut half: usize = keys.len() * 50 / 100;
    if half > last {
        half = last;
    }
    let mut worst: usize = keys.len() * 95 / 100;
    if worst > last {
        worst = last;
    }
    assert(indices[half as int] == order@[half as int]);
    assert(indices[worst as int] == order@[worst as int]);
    assert(keys@[order@[half as int] as int]@.0 == values[indices[half as int]]);
    assert(keys@[order@[worst as int] as int]@.0 == values[indices[worst as int]]);
    Some(Percentiles { p50: keys[order[half]].number, p95: keys[order[worst]].number })
}

/// Rolls up an agent's recent turns from their summaries alone.
pub fn agent_turn_metrics(turns: &Vec<TurnSummary>) -> (metrics: AgentMetrics)
    requires
        turns@.len() <= 200,
        rollup_fits(rollup_totals(summary_views(turns@))),
    ensures
        ({
            let views = summary_views(turns@);
            let t = rollup_totals(views);
            &&& metrics.turns == turns@.len()
            &&& metrics.errors == t.errors
            &&& metrics.input_tokens == t.input
            &&& metrics.cached_input_tokens == t.cached
            &&& metrics.output_tokens == t.output
            &&& metrics.reasoning_tokens == t.reasoning
            &&& metrics.cost_micros == t.cost
            &&& metrics.retries == t.retries
            &&& metrics.throughput_count == t.rates
            &&& numbers(metrics.append_to_first_token) == percentiles(
                samples(views, Latency::AppendToFirstToken),
            )
            &&& numbers(metrics.inference) == percentiles(samples(views, Latency::Inference))
            &&& numbers(metrics.append_to_idle) == percentiles(samples(views, Latency::AppendToIdle))
            &&& numbers(metrics.placement) == percentiles(samples(views, Latency::Placement))
        }),
{
    let ghost views = summary_views(turns@);
    let mut metrics = AgentMetrics {
        turns: 0,
        errors: 0,
        input_tokens: 0,
        cached_input_tokens: 0,
        output_tokens: 0,
        reasoning_tokens: 0,
        cost_micros: 0,
        retries: 0,
        throughput_count: 0,
        append_to_first_token: latency_percentiles(turns, Latency::AppendToFirstToken),
        inference: latency_percentiles(turns, Latency::Inference),
        append_to_idle: latency_percentiles(turns, Latency::AppendToIdle),
        placement: latency_percentiles(turns, Latency::Placement),
    };
    let ghost base = metrics;
    let mut i: usize = 0;
    while i < turns.len()
        invariant
            i <= turns.len(),
            turns@.len() <= 200,
            views == summary_views(turns@),
            rollup_fits(rollup_totals(views)),
            ({
                let t = rollup_totals(views.take(i as int));
                &&& rollup_fits(t)
                &&& metrics == (AgentMetrics {
                    turns: i as u64,
                    errors: t.errors as u64,
                    input_tokens: t.input as u64,
                    cached_input_tokens: t.cached as u64,
                    output_tokens: t.output as u64,
                    reasoning_tokens: t.reasoning as u64,
                    cost_micros: t.cost as u64,
                    retries: t.retries as u64,
                    throughput_count: t.rates as u64,
                    ..base
                })
            }),
        decreases turns.len() - i,
    {
        proof {
            rollup_prefix_fits(views, i + 1);
            assert(views.take(i + 1).drop_last() =~= views.take(i as int));
            assert(views.take(i + 1).last() == turns@[i as int]@);
        }
        metrics.turns = metrics.turns + 1;
        metrics.errors = metrics.errors + turns[i].inference_errors;
        if turns[i].error.is_some() {
            metrics.errors = metrics.errors + 1;
        }
        metrics.input_tokens = metrics.input_tokens + turns[i].input_tokens;
        metrics.cached_input_tokens = metrics.cached_input_tokens + turns[i].cached_input_tokens;
        metrics.output_tokens = metrics.output_tokens + turns[i].output_tokens;
        metrics.reasoning_tokens = metrics.reasoning_tokens + turns[i].reasoning_tokens;
        metrics.cost_micros = metrics.cost_micros + turns[i].cost_micros;
        metrics.retries = metrics.retries + turns[i].retries;
        metrics.throughput_count = metrics.throughput_count + turns[i].throughput_count;
        i += 1;
    }
    assert(views.take(i as int) =~= views);
    metrics
}

/// The counters of two lists of turns one after the other are the sums of the counters of each.
pub proof fn totals_add_up(left: Seq<TurnSummaryView>, right: Seq<TurnSummaryView>)
    ensures
        ({
            let a = rollup_totals(left);
            let b = rollup_totals(right);
            let both = rollup_totals(left + right);
            &&& both.errors == a.errors + b.errors
            &&& both.input == a.input + b.input
            &&& both.cached == a.cached + b.cached
            &&& both.output == a.output + b.output
            &&& both.reasoning == a.reasoning + b.reasoning
            &&& both.cost == a.cost + b.cost
            &&& both.retries == a.retries + b.retries
            &&& both.rates == a.rates + b.rates
        }),
    decreases right.len(),
{
    if right.len() == 0 {
        assert(left + right =~= left);
    } else {
        totals_add_up(left, right.drop_last());
        assert((left + right).drop_last() =~= left + right.drop_last());
        assert((left + right).last() == right.last());
    }
}

/// The latencies of two lists of turns one after the other are those of the first and then those of
/// the second.
pub proof fn samples_line_up(left: Seq<TurnSummaryView>, right: Seq<TurnSummaryView>, latency: Latency)
    ensures
        samples(left + right, latency) == samples(left, latency) + samples(right, latency),
    decreases right.len(),
{
    if right.len() == 0 {
        assert(left + right =~= left);
        assert(samples(left, latency) + samples(right, latency) =~= samples(left, latency));
    } else {
        samples_line_up(left, right.drop_last(), latency);
        assert((left + right).drop_last() =~= left + right.drop_last());
        assert((left + right).last() == right.last());
        assert(samples(left + right, latency) =~= samples(left, latency) + samples(right, latency));
    }
}

proof fn lone_percentile(value: int)
    ensures
        percentiles(seq![value]) == Some((value, value)),
{
    crate::sort::stable_order_laws(sample_keys(seq![value]), 1);
}

/// Whether both percentiles are this one value, or absent with it.
pub open spec fn both_are(found: Option<Percentiles>, value: Option<i64>) -> bool {
    match value {
        Some(ns) => found matches Some(p) && p.p50 == ns && p.p95 == ns,
        None => found is None,
    }
}

/// The rollup of one turn is that turn: each counter is the turn's own counter of that name, with
/// one more error where the turn itself failed, and each percentile is the turn's own latency.
pub proof fn one_turn_rolls_up_to_itself(turns: Vec<TurnSummary>, metrics: AgentMetrics)
    requires
        turns@.len() == 1,
        rollup_fits(rollup_totals(summary_views(turns@))),
        call_ensures(agent_turn_metrics, (&turns,), metrics),
    ensures
        metrics.turns == 1,
        metrics.input_tokens == turns@[0].input_tokens,
        metrics.cached_input_tokens == turns@[0].cached_input_tokens,
        metrics.output_tokens == turns@[0].output_tokens,
        metrics.reasoning_tokens == turns@[0].reasoning_tokens,
        metrics.cost_micros == turns@[0].cost_micros,
        metrics.retries == turns@[0].retries,
        metrics.throughput_count == turns@[0].throughput_count,
        turns@[0].error is None ==> metrics.errors == turns@[0].inference_errors,
        turns@[0].error is Some ==> metrics.errors == turns@[0].inference_errors + 1,
        both_are(metrics.append_to_first_token, turns@[0].append_to_first_token_ns),
        both_are(metrics.inference, turns@[0].inference_duration_ns),
        both_are(metrics.append_to_idle, turns@[0].append_to_idle_ns),
        metrics.placement is Some <==> (turns@[0].computer matches Some(computer) && computer.placement_ms is Some),
        metrics.placement matches Some(p) ==> p.p50 == p.p95,
{
    let views = summary_views(turns@);
    assert(views.len() == 1 && views[0] == turns@[0]@);
    assert(views.drop_last() =~= Seq::empty());
    reveal_with_fuel(rollup_totals, 2);
    one_sample(views, Latency::AppendToFirstToken);
    one_sample(views, Latency::Inference);
    one_sample(views, Latency::AppendToIdle);
    one_sample(views, Latency::Placement);
}

proof fn one_sample(views: Seq<TurnSummaryView>, latency: Latency)
    requires
        views.len() == 1,
    ensures
        percentiles(samples(views, latency)) == (match sample_of(views[0], latency) {
            Some(value) => Some((value, value)),
            None => None::<(int, int)>,
        }),
{
    reveal_with_fuel(samples, 2);
    assert(views.drop_last() =~= Seq::empty());
    match sample_of(views[0], latency) {
        Some(value) => {
            assert(samples(views, latency) =~= seq![value]);
            lone_percentile(value);
        },
        None => {},
    }
}

/// The rollup of two lists of turns one after the other is the sum of their rollups, counter by
/// counter.
pub proof fn rollups_add_up(
    left: Vec<TurnSummary>,
    right: Vec<TurnSummary>,
    both: Vec<TurnSummary>,
    a: AgentMetrics,
    b: AgentMetrics,
    sum: AgentMetrics,
)
    requires
        both@ == left@ + right@,
        both@.len() <= 200,
        rollup_fits(rollup_totals(summary_views(left@))),
        rollup_fits(rollup_totals(summary_views(right@))),
        rollup_fits(rollup_totals(summary_views(both@))),
        call_ensures(agent_turn_metrics, (&left,), a),
        call_ensures(agent_turn_metrics, (&right,), b),
        call_ensures(agent_turn_metrics, (&both,), sum),
    ensures
        sum.turns == a.turns + b.turns,
        sum.errors == a.errors + b.errors,
        sum.input_tokens == a.input_tokens + b.input_tokens,
        sum.cached_input_tokens == a.cached_input_tokens + b.cached_input_tokens,
        sum.output_tokens == a.output_tokens + b.output_tokens,
        sum.reasoning_tokens == a.reasoning_tokens + b.reasoning_tokens,
        sum.cost_micros == a.cost_micros + b.cost_micros,
        sum.retries == a.retries + b.retries,
        sum.throughput_count == a.throughput_count + b.throughput_count,
{
    assert(summary_views(both@) =~= summary_views(left@) + summary_views(right@));
    totals_add_up(summary_views(left@), summary_views(right@));
}

/// Whether a list holds these numbers in ascending order, and no others.
pub open spec fn sorts(sorted: Seq<int>, values: Seq<int>) -> bool {
    &&& sorted.len() == values.len()
    &&& forall|i: int, j: int| 0 <= i < j < sorted.len() ==> #[trigger] sorted[i] <= #[trigger] sorted[j]
    &&& forall|i: int| 0 <= i < values.len() ==> sorted.contains(#[trigger] values[i])
    &&& forall|i: int| 0 <= i < sorted.len() ==> values.contains(#[trigger] sorted[i])
}

/// A percentile is the number at its rank of the sorted numbers: half of them up, or nineteen
/// twentieths up, and never beyond the last. The lower percentile is at most the upper one.
pub proof fn percentiles_are_ranks(values: Seq<int>)
    requires
        values.len() > 0,
    ensures
        percentiles(values) matches Some(p) && p.0 <= p.1 && exists|sorted: Seq<int>|
            #[trigger] sorts(sorted, values) && p.0 == sorted[values.len() as int / 2] && p.1 == sorted[
                values.len() as int * 95 / 100
            ],
{
    let n = values.len();
    let keys = sample_keys(values);
    let order = stable_order(keys, n);
    crate::sort::stable_order_laws(keys, n);
    let sorted = Seq::new(n, |i: int| values[order[i]]);
    assert forall|i: int, j: int| 0 <= i < j < sorted.len() implies #[trigger] sorted[i] <= #[trigger] sorted[j] by {
        let a = order[i];
        let b = order[j];
        assert(keys[a].0 == values[a] && keys[b].0 == values[b]);
    }
    assert forall|i: int| 0 <= i < values.len() implies sorted.contains(#[trigger] values[i]) by {
        assert(order.contains(i));
        let k = choose|k: int| 0 <= k < order.len() && order[k] == i;
        assert(sorted[k] == values[i]);
    }
    assert forall|i: int| 0 <= i < sorted.len() implies values.contains(#[trigger] sorted[i]) by {
        assert(values[order[i]] == sorted[i]);
    }
    assert(sorts(sorted, values));
    let lo = n as int * 50 / 100;
    let hi = n as int * 95 / 100;
    assert(lo == n as int / 2 && lo <= hi && hi < n);
    assert(sorted[lo] == percentile(values, 50));
    assert(sorted[hi] == percentile(values, 95));
}

/// A rollup is over at most two hundred turns and at least one, and over as many as were asked for
/// where that many are allowed.
pub proof fn rollups_are_bounded(limit: usize, turns: usize)
    requires
        call_ensures(rollup_limit, (limit,), turns),
    ensures
        1 <= turns <= 200,
        1 <= limit <= 200 ==> turns == limit,
{
}

/// The walk over recent turns collects newest first and hands out oldest first.
pub proof fn recent_turns_come_out_oldest_first(walk: RecentTurns, turns: Vec<TurnSummary>)
    requires
        call_ensures(RecentTurns::finish, (walk,), turns),
    ensures
        turns@.len() == walk.newest@.len(),
        forall|i: int|
            0 <= i < turns@.len() ==> #[trigger] turns@[i] == walk.newest@[turns@.len() - 1 - i],
{
}

/// A walk asks for no more than it lacks and no more than one page, and stops when it has enough.
pub proof fn walks_take_what_they_lack(walk: RecentTurns, take: Option<usize>)
    requires
        walk.wf(),
        call_ensures(RecentTurns::next_take, (&walk,), take),
    ensures
        take is None <==> walk.newest@.len() == walk.limit,
        take matches Some(count) ==> 0 < count <= MAX_SCAN_LIMIT && walk.newest@.len() + count <= walk.limit
            && (count == MAX_SCAN_LIMIT || walk.newest@.len() + count == walk.limit),
{
}

/// A page of turns is in the order of the turns' ids.
pub proof fn pages_are_in_turn_order(assembled: Vec<TurnMetrics>, legacy: Vec<TurnMetrics>, page: Vec<TurnMetrics>)
    requires
        call_ensures(list_turn_metrics_paged, (assembled, &legacy), page),
    ensures
        forall|i: int, j: int|
            0 <= i < j < page@.len() ==> !text_less(
                (#[trigger] page@[j]).turn_id@,
                (#[trigger] page@[i]).turn_id@,
            ),
        forall|k: int|
            0 <= k < assembled@.len() ==> turn_views(page@).contains((#[trigger] assembled@[k])@),
        page@.len() >= assembled@.len(),
        page@.len() <= assembled@.len() + legacy@.len(),
{
    let all = turn_views(assembled@) + standing(turn_views(legacy@), legacy@.len());
    let keys = turn_keys(all);
    crate::sort::stable_order_laws(keys, all.len());
    let order = stable_order(keys, all.len());
    standing_is_short(turn_views(legacy@), legacy@.len());
    assert(turn_views(page@).len() == page@.len());
    assert forall|i: int, j: int| 0 <= i < j < page@.len() implies !text_less(
        (#[trigger] page@[j]).turn_id@,
        (#[trigger] page@[i]).turn_id@,
    ) by {
        assert(turn_views(page@)[i] == page@[i]@ && turn_views(page@)[j] == page@[j]@);
        let a = order[i];
        let b = order[j];
        assert(keys[a] == (0int, all[a].turn_id));
        assert(keys[b] == (0int, all[b].turn_id));
    }
    assert forall|k: int| 0 <= k < assembled@.len() implies turn_views(page@).contains(
        (#[trigger] assembled@[k])@,
    ) by {
        assert(order.contains(k));
        let i = choose|i: int| 0 <= i < order.len() && order[i] == k;
        assert(turn_views(page@)[i] == all[k]);
        assert(all[k] == assembled@[k]@);
    }
}

proof fn standing_is_short(turns: Seq<TurnMetricsView>, count: nat)
    ensures
        standing(turns, count).len() <= count,
    decreases count,
{
    if count > 0 {
        standing_is_short(turns, (count - 1) as nat);
    }
}

/// The sums of ordinary turns fit.
pub proof fn ordinary_turns_fit(turns: Vec<TurnSummary>, fits: bool)
    requires
        turns@.len() <= 200,
        forall|i: int| 0 <= i < turns@.len() ==> ordinary((#[trigger] turns@[i])@),
        call_ensures(turns_fit, (&turns,), fits),
    ensures
        fits,
{
    let views = summary_views(turns@);
    assert(views.len() == turns@.len());
    assert forall|i: int| 0 <= i < views.len() implies ordinary(#[trigger] views[i]) by {
        assert(views[i] == turns@[i]@);
    }
    sums_are_bounded(views);
}

/// Whether a turn's counters are far from the end of their range.
pub open spec fn ordinary(turn: TurnSummaryView) -> bool {
    &&& turn.inference_errors < 0x0100_0000_0000_0000
    &&& turn.input_tokens <= 0x0100_0000_0000_0000
    &&& turn.cached_input_tokens <= 0x0100_0000_0000_0000
    &&& turn.output_tokens <= 0x0100_0000_0000_0000
    &&& turn.reasoning_tokens <= 0x0100_0000_0000_0000
    &&& turn.cost_micros <= 0x0100_0000_0000_0000
    &&& turn.retries <= 0x0100_0000_0000_0000
    &&& turn.throughput_count <= 0x0100_0000_0000_0000
}

proof fn sums_are_bounded(turns: Seq<TurnSummaryView>)
    requires
        forall|i: int| 0 <= i < turns.len() ==> ordinary(#[trigger] turns[i]),
    ensures
        ({
            let t = rollup_totals(turns);
            let most = turns.len() * 0x0100_0000_0000_0000;
            &&& t.errors <= most && t.input <= most && t.cached <= most && t.output <= most
            &&& t.reasoning <= most && t.cost <= most && t.retries <= most && t.rates <= most
        }),
    decreases turns.len(),
{
    if turns.len() > 0 {
        let rest = turns.drop_last();
        assert forall|i: int| 0 <= i < rest.len() implies ordinary(#[trigger] rest[i]) by {
            assert(rest[i] == turns[i]);
        }
        sums_are_bounded(rest);
        assert(ordinary(turns[turns.len() - 1]));
    }
}

/// A walk over recent turns starts empty, takes the turns of each page behind those that it has, and
/// never more than its limit.
pub proof fn walks_take_pages_in_order(walk: &mut RecentTurns, page: Vec<Option<DecodedSummary>>)
    requires
        old(walk).wf(),
        forall|i: int|
            0 <= i < page@.len() ==> (#[trigger] page@[i] matches Some(DecodedSummary::Legacy(record))
                ==> totals_fit(token_totals(record@.inference))),
        call_ensures(RecentTurns::accept, (walk, page), ()),
    ensures
        final(walk).limit == old(walk).limit && final(walk).newest@.len() <= final(walk).limit,
        final(walk).newest@.len() >= old(walk).newest@.len(),
        forall|i: int|
            0 <= i < old(walk).newest@.len() ==> (#[trigger] final(walk).newest@[i])@ == old(walk).newest@[i]@,
        page@.len() == 1 && old(walk).newest@.len() < old(walk).limit ==> (page@[0] matches Some(
            DecodedSummary::V2(summary),
        ) ==> final(walk).newest@.len() == old(walk).newest@.len() + 1 && final(walk).newest@.last()@
            == summary@),
        page@.len() == 1 ==> (page@[0] is None ==> final(walk).newest@.len() == old(walk).newest@.len()),
{
    reveal_with_fuel(page_summaries, 2);
    let before = summary_views(old(walk).newest@);
    let after = summary_views(final(walk).newest@);
    assert(before.len() == old(walk).newest@.len() && after.len() == final(walk).newest@.len());
    assert forall|i: int| 0 <= i < old(walk).newest@.len() implies (#[trigger] final(walk).newest@[i])@ == old(walk).newest@[i]@ by {
        assert(after[i] == final(walk).newest@[i]@);
        assert(before[i] == old(walk).newest@[i]@);
    }
    if page@.len() == 1 && after.len() > before.len() {
        assert(after.last() == final(walk).newest@.last()@);
    }
}

/// The sorted page of a part of the store has its rows apart: those of the new layout, and whole turns
/// of the old one, each in order.
pub proof fn pages_are_split_by_layout(
    page: Vec<Option<DecodedSummary>>,
    inference_limit: Option<usize>,
    tools_limit: Option<usize>,
    parts: (Vec<TurnSummary>, Vec<TurnMetrics>),
)
    requires
        forall|i: int|
            0 <= i < page@.len() ==> (#[trigger] page@[i] matches Some(DecodedSummary::Legacy(record))
                ==> totals_fit(token_totals(record@.inference))),
        call_ensures(split_page, (page, inference_limit, tools_limit), parts),
    ensures
        parts.0@.len() + parts.1@.len() <= page@.len(),
        (forall|i: int| 0 <= i < page@.len() ==> (#[trigger] page@[i]) is Some) ==> parts.0@.len() + parts.1@.len()
            == page@.len(),
        page@.len() == 1 ==> (page@[0] matches Some(DecodedSummary::V2(summary)) ==> parts.0@.len() == 1
            && parts.0@[0]@ == summary@ && parts.1@.len() == 0),
        page@.len() == 1 ==> (page@[0] matches Some(DecodedSummary::Legacy(record)) ==> parts.1@.len() == 1
            && parts.1@[0].turn_id@ == record.turn_id@ && parts.1@[0].session_id@ == record.session_id@
            && parts.0@.len() == 0),
{
    reveal_with_fuel(row_summaries, 2);
    reveal_with_fuel(whole_turns, 2);
    let rows = summary_views(parts.0@);
    let turns = turn_views(parts.1@);
    assert(rows.len() == parts.0@.len() && turns.len() == parts.1@.len());
    split_counts(page@, page@.len(), inference_limit, tools_limit);
    if page@.len() == 1 {
        if rows.len() > 0 {
            assert(rows[0] == parts.0@[0]@);
        }
        if turns.len() > 0 {
            assert(turns[0] == parts.1@[0]@);
        }
    }
}

proof fn split_counts(page: Seq<Option<DecodedSummary>>, count: nat, inference_limit: Option<usize>, tools_limit: Option<usize>)
    requires
        count <= page.len(),
    ensures
        row_summaries(page, count).len() + whole_turns(page, count, inference_limit, tools_limit).len() <= count,
        (forall|i: int| 0 <= i < count ==> (#[trigger] page[i]) is Some) ==> row_summaries(page, count).len()
            + whole_turns(page, count, inference_limit, tools_limit).len() == count,
    decreases count,
{
    if count > 0 {
        split_counts(page, (count - 1) as nat, inference_limit, tools_limit);
    }
}

} // verus!
