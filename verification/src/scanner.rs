//! One tick of the range scanner, as a function of what the chain returned.
//!
//! The caller reads the cursor, asks the chain for its latest block, plans
//! the range with `plan_range`, fetches the logs of the five watched event
//! kinds over that range and hands them to `scan_tick`. It then stores the
//! events of the outcome and, after them, the new cursor. A tick that fails
//! yields nothing to store and leaves the cursor where it was.

use vstd::prelude::*;
use crate::events::{batch, decode_many, decoded_as, first_fault, DecodedEvent, EventKind};
use crate::raw_log::{lemma_u256_of_bounded, lemma_u256_of_value, u256_of};
use crate::raw_log::{DecodeError, RawLog};
use crate::scope::{lemma_retained_all, lemma_retained_contains, retained, ScanScope};
use crate::types::U256;

verus! {

/// The block that scanning starts from where no cursor is stored.
pub const DEFAULT_START_SEARCH_BLOCK: u128 = 0;

/// The largest number of blocks that one tick goes beyond its start.
pub const DEFAULT_SEARCH_RANGE: u128 = 1000;

/// The blocks that one tick scans, both ends included.
#[derive(Clone, Copy, Debug, PartialEq, Eq, Structural)]
pub struct ScanRange {
    pub start: U256,
    pub end: U256,
}

/// What the chain returned for the five watched event kinds over one range.
/// A kind whose fetch failed has no logs.
#[derive(Clone, Debug, PartialEq, Eq)]
pub struct Fetched {
    pub init_pool: Option<Vec<RawLog>>,
    pub mint_ranged: Option<Vec<RawLog>>,
    pub mint_ambient: Option<Vec<RawLog>>,
    pub burn_ranged: Option<Vec<RawLog>>,
    pub burn_ambient: Option<Vec<RawLog>>,
}

/// Why a tick was aborted.
#[derive(Clone, Copy, Debug, PartialEq, Eq, Structural)]
pub enum ScanError {
    /// The chain could not be reached, or did not answer in time.
    Transport,
    /// A log that the chain returned does not decode.
    Decode(DecodeError),
}

/// What a tick that succeeded asks the caller to do.
#[derive(Debug)]
pub struct TickOutcome {
    /// The events to store, in this order.
    pub events: Vec<DecodedEvent>,
    /// The cursor to store once the events are stored.
    pub cursor: U256,
    /// Whether the range held new blocks, so that what is derived from the
    /// chain's latest state is to be refreshed.
    pub refresh: bool,
}

/// The block that a tick starts from: the cursor, or the first block where
/// there is no cursor yet.
pub open spec fn planned_start(cursor: Option<U256>) -> nat {
    match cursor {
        Some(c) => c.value(),
        None => DEFAULT_START_SEARCH_BLOCK as nat,
    }
}

/// The block that a tick ends with: the chain's latest block, but at most
/// the search range beyond the start.
pub open spec fn planned_end(cursor: Option<U256>, latest: U256) -> nat {
    if planned_start(cursor) + DEFAULT_SEARCH_RANGE <= latest.value() {
        planned_start(cursor) + DEFAULT_SEARCH_RANGE as nat
    } else {
        latest.value()
    }
}

/// The range of the tick that follows the cursor `cursor` while the chain's
/// latest block is `latest`.
pub open spec fn planned_range(cursor: Option<U256>, latest: U256) -> ScanRange {
    ScanRange {
        start: u256_of(planned_start(cursor)),
        end: u256_of(planned_end(cursor, latest)),
    }
}

/// The end of a planned range is a number of 256 bits.
pub proof fn lemma_planned_end_is_a_word(cursor: Option<U256>, latest: U256)
    ensures
        u256_of(planned_end(cursor, latest)).value() == planned_end(cursor, latest),
{
    U256::lemma_value_bound(latest);
    lemma_u256_of_bounded(planned_end(cursor, latest));
}

/// Plans the range of the next tick from the stored cursor and the chain's
/// latest block.
pub fn plan_range(cursor: Option<U256>, latest: U256) -> (range: ScanRange)
    ensures
        range == planned_range(cursor, latest),
        range.start.value() == planned_start(cursor),
        range.end.value() == planned_end(cursor, latest),
{
    let start = match cursor {
        Some(c) => c,
        None => U256::from_u128(DEFAULT_START_SEARCH_BLOCK),
    };
    proof {
        U256::lemma_value_bound(latest);
    }
    let end = start.saturating_add(DEFAULT_SEARCH_RANGE).min(latest);
    proof {
        lemma_u256_of_value(start);
        lemma_u256_of_value(end);
    }
    ScanRange { start, end }
}

impl DecodedEvent {
    /// Whether a scan of scope `scope` stores this event. A new pool is
    /// always stored; an event of a position is stored where the scope admits
    /// its pool.
    pub open spec fn is_kept(&self, scope: &ScanScope) -> bool {
        match *self {
            DecodedEvent::InitPool(_) => true,
            DecodedEvent::MintRanged(e) => scope.admits(e.base, e.quote, e.pool_idx),
            DecodedEvent::BurnRanged(e) => scope.admits(e.base, e.quote, e.pool_idx),
            DecodedEvent::Harvest(e) => scope.admits(e.base, e.quote, e.pool_idx),
            DecodedEvent::MintAmbient(e) => scope.admits(e.base, e.quote, e.pool_idx),
            DecodedEvent::BurnAmbient(e) => scope.admits(e.base, e.quote, e.pool_idx),
        }
    }

    /// Whether a scan of scope `scope` stores this event.
    pub fn check_kept(&self, scope: &ScanScope) -> (r: bool)
        ensures
            r == self.is_kept(scope),
    {
        match self {
            DecodedEvent::InitPool(_) => true,
            DecodedEvent::MintRanged(e) => scope.is_admitted(e.base, e.quote, e.pool_idx),
            DecodedEvent::BurnRanged(e) => scope.is_admitted(e.base, e.quote, e.pool_idx),
            DecodedEvent::Harvest(e) => scope.is_admitted(e.base, e.quote, e.pool_idx),
            DecodedEvent::MintAmbient(e) => scope.is_admitted(e.base, e.quote, e.pool_idx),
            DecodedEvent::BurnAmbient(e) => scope.is_admitted(e.base, e.quote, e.pool_idx),
        }
    }
}

/// The events of kind `kind` that a scan of scope `scope` stores from `logs`.
pub open spec fn kept_of(scope: &ScanScope, kind: EventKind, logs: Seq<RawLog>) -> Seq<
    DecodedEvent,
> {
    retained(batch(kind, logs), |e: DecodedEvent| e.is_kept(scope))
}

/// Why the stream of kind `kind` aborts a tick, if it does: its fetch
/// failed, or one of its logs does not decode.
pub open spec fn stream_fault(kind: EventKind, fetched: Option<Vec<RawLog>>) -> Option<ScanError> {
    match fetched {
        None => Some(ScanError::Transport),
        Some(logs) => match first_fault(kind, logs@) {
            Some(e) => Some(ScanError::Decode(e)),
            None => None,
        },
    }
}

/// Decodes one fetched stream and keeps the events that the scope admits.
pub fn search_stream(scope: &ScanScope, kind: EventKind, fetched: &Option<Vec<RawLog>>) -> (r:
    Result<Vec<DecodedEvent>, ScanError>)
    ensures
        match r {
            Ok(events) => stream_fault(kind, *fetched).is_none() && events@ == kept_of(
                scope,
                kind,
                fetched.unwrap()@,
            ),
            Err(e) => stream_fault(kind, *fetched) == Some(e),
        },
{
    let logs = match fetched {
        Some(logs) => logs,
        None => {
            return Err(ScanError::Transport);
        },
    };
    let decoded = match decode_many(kind, logs.as_slice()) {
        Ok(decoded) => decoded,
        Err(e) => {
            return Err(ScanError::Decode(e));
        },
    };
    let ghost keep = |e: DecodedEvent| e.is_kept(scope);
    let mut kept: Vec<DecodedEvent> = Vec::new();
    let mut n: usize = 0;
    while n < decoded.len()
        invariant
            n <= decoded@.len(),
            keep == |e: DecodedEvent| e.is_kept(scope),
            kept@ == retained(decoded@.take(n as int), keep),
        decreases decoded@.len() - n,
    {
        let e: DecodedEvent = decoded[n];
        proof {
            assert(decoded@.take(n + 1).drop_last() =~= decoded@.take(n as int));
            assert(decoded@.take(n + 1).last() == e);
        }
        if e.check_kept(scope) {
            kept.push(e);
        }
        n = n + 1;
    }
    proof {
        assert(decoded@.take(n as int) =~= decoded@);
    }
    Ok(kept)
}

/// Why the search for new pools aborts, if it does.
pub open spec fn pools_fault(fetched: &Fetched) -> Option<ScanError> {
    stream_fault(EventKind::InitPool, fetched.init_pool)
}

/// The InitPool events that a tick stores: all that were fetched.
pub open spec fn pools_found(fetched: &Fetched) -> Seq<DecodedEvent> {
    batch(EventKind::InitPool, fetched.init_pool.unwrap()@)
}

/// Every decoded InitPool event is kept, whatever the scope.
pub proof fn lemma_pools_are_never_filtered(scope: &ScanScope, logs: Seq<RawLog>)
    requires
        first_fault(EventKind::InitPool, logs).is_none(),
    ensures
        kept_of(scope, EventKind::InitPool, logs) == batch(EventKind::InitPool, logs),
{
    let keep = |e: DecodedEvent| e.is_kept(scope);
    lemma_batch_decodes(EventKind::InitPool, logs);
    lemma_retained_all(batch(EventKind::InitPool, logs), keep);
}

/// Where no log is at fault, each event of the batch is what its log decodes to.
pub proof fn lemma_batch_decodes(kind: EventKind, logs: Seq<RawLog>)
    requires
        first_fault(kind, logs).is_none(),
    ensures
        forall|i: int|
            0 <= i < logs.len() ==> decoded_as(kind, &logs[i]) == Ok::<
                DecodedEvent,
                DecodeError,
            >(#[trigger] batch(kind, logs)[i]),
        forall|i: int|
            0 <= i < logs.len() ==> (#[trigger] batch(kind, logs)[i]).spec_kind() == kind,
    decreases logs.len(),
{
    if logs.len() > 0 {
        let rest = logs.skip(1);
        lemma_batch_decodes(kind, rest);
        assert forall|i: int| 0 <= i < logs.len() implies decoded_as(
            kind,
            &logs[i],
        ) == Ok::<DecodedEvent, DecodeError>(#[trigger] batch(kind, logs)[i]) by {
            if i > 0 {
                assert(rest[i - 1] == logs[i]);
                assert(batch(kind, rest)[i - 1] == batch(kind, logs)[i]);
            }
        }
        assert forall|i: int| 0 <= i < logs.len() implies (#[trigger] batch(
            kind,
            logs,
        )[i]).spec_kind() == kind by {
            assert(decoded_as(kind, &logs[i]) == Ok::<DecodedEvent, DecodeError>(
                batch(kind, logs)[i],
            ));
        }
    }
}

/// Decodes the fetched InitPool logs. All of them are to be stored: the scope
/// does not apply to new pools.
pub fn search_for_pools(scope: &ScanScope, fetched: &Fetched) -> (r: Result<
    Vec<DecodedEvent>,
    ScanError,
>)
    ensures
        match r {
            Ok(events) => pools_fault(fetched).is_none() && events@ == pools_found(fetched),
            Err(e) => pools_fault(fetched) == Some(e),
        },
{
    let r = search_stream(scope, EventKind::InitPool, &fetched.init_pool);
    proof {
        if r.is_ok() {
            lemma_pools_are_never_filtered(scope, fetched.init_pool.unwrap()@);
        }
    }
    r
}

/// Why the search for position events aborts, if it does: a failed fetch of
/// any of the four streams comes first, then the first log that does not
/// decode, the streams taken in the order MintRanged, MintAmbient,
/// BurnRanged, BurnAmbient.
pub open spec fn positions_fault(fetched: &Fetched) -> Option<ScanError> {
    if fetched.mint_ranged.is_none() || fetched.mint_ambient.is_none()
        || fetched.burn_ranged.is_none() || fetched.burn_ambient.is_none() {
        Some(ScanError::Transport)
    } else if stream_fault(EventKind::MintRanged, fetched.mint_ranged).is_some() {
        stream_fault(EventKind::MintRanged, fetched.mint_ranged)
    } else if stream_fault(EventKind::MintAmbient, fetched.mint_ambient).is_some() {
        stream_fault(EventKind::MintAmbient, fetched.mint_ambient)
    } else if stream_fault(EventKind::BurnRanged, fetched.burn_ranged).is_some() {
        stream_fault(EventKind::BurnRanged, fetched.burn_ranged)
    } else {
        stream_fault(EventKind::BurnAmbient, fetched.burn_ambient)
    }
}

/// The position events that a tick of scope `scope` stores: those that the
/// scope admits, MintRanged first, then MintAmbient, BurnRanged, BurnAmbient.
pub open spec fn positions_found(scope: &ScanScope, fetched: &Fetched) -> Seq<DecodedEvent> {
    kept_of(scope, EventKind::MintRanged, fetched.mint_ranged.unwrap()@) + kept_of(
        scope,
        EventKind::MintAmbient,
        fetched.mint_ambient.unwrap()@,
    ) + kept_of(scope, EventKind::BurnRanged, fetched.burn_ranged.unwrap()@) + kept_of(
        scope,
        EventKind::BurnAmbient,
        fetched.burn_ambient.unwrap()@,
    )
}

/// A position event that the scope does not admit is not among the events
/// that a tick stores, whatever was fetched: so an event of a pool whose
/// template is not of interest is never stored.
pub proof fn lemma_unwatched_event_is_not_stored(
    scope: &ScanScope,
    fetched: &Fetched,
    event: DecodedEvent,
)
    requires
        !event.is_kept(scope),
    ensures
        !positions_found(scope, fetched).contains(event),
        !(event is InitPool),
{
    let keep = |e: DecodedEvent| e.is_kept(scope);
    let a = kept_of(scope, EventKind::MintRanged, fetched.mint_ranged.unwrap()@);
    let b = kept_of(scope, EventKind::MintAmbient, fetched.mint_ambient.unwrap()@);
    let c = kept_of(scope, EventKind::BurnRanged, fetched.burn_ranged.unwrap()@);
    let d = kept_of(scope, EventKind::BurnAmbient, fetched.burn_ambient.unwrap()@);
    lemma_retained_contains(
        batch(EventKind::MintRanged, fetched.mint_ranged.unwrap()@),
        keep,
        event,
    );
    lemma_retained_contains(
        batch(EventKind::MintAmbient, fetched.mint_ambient.unwrap()@),
        keep,
        event,
    );
    lemma_retained_contains(
        batch(EventKind::BurnRanged, fetched.burn_ranged.unwrap()@),
        keep,
        event,
    );
    lemma_retained_contains(
        batch(EventKind::BurnAmbient, fetched.burn_ambient.unwrap()@),
        keep,
        event,
    );
    let all = positions_found(scope, fetched);
    if all.contains(event) {
        let i = choose|i: int| 0 <= i < all.len() && all[i] == event;
        if i < a.len() {
            assert(a[i] == event);
        } else if i < a.len() + b.len() {
            assert(b[i - a.len()] == event);
        } else if i < a.len() + b.len() + c.len() {
            assert(c[i - a.len() - b.len()] == event);
        } else {
            assert(d[i - a.len() - b.len() - c.len()] == event);
        }
    }
}

/// Decodes the four fetched streams of position events and keeps the events
/// that the scope admits.
pub fn search_for_positions(scope: &ScanScope, fetched: &Fetched) -> (r: Result<
    Vec<DecodedEvent>,
    ScanError,
>)
    ensures
        match r {
            Ok(events) => positions_fault(fetched).is_none() && events@ == positions_found(
                scope,
                fetched,
            ),
            Err(e) => positions_fault(fetched) == Some(e),
        },
{
    if fetched.mint_ranged.is_none() || fetched.mint_ambient.is_none()
        || fetched.burn_ranged.is_none() || fetched.burn_ambient.is_none() {
        return Err(ScanError::Transport);
    }
    let mut events = match search_stream(scope, EventKind::MintRanged, &fetched.mint_ranged) {
        Ok(events) => events,
        Err(e) => {
            return Err(e);
        },
    };
    let mut mint_ambient = match search_stream(
        scope,
        EventKind::MintAmbient,
        &fetched.mint_ambient,
    ) {
        Ok(events) => events,
        Err(e) => {
            return Err(e);
        },
    };
    let mut burn_ranged = match search_stream(scope, EventKind::BurnRanged, &fetched.burn_ranged) {
        Ok(events) => events,
        Err(e) => {
            return Err(e);
        },
    };
    let mut burn_ambient = match search_stream(
        scope,
        EventKind::BurnAmbient,
        &fetched.burn_ambient,
    ) {
        Ok(events) => events,
        Err(e) => {
            return Err(e);
        },
    };
    events.append(&mut mint_ambient);
    events.append(&mut burn_ranged);
    events.append(&mut burn_ambient);
    Ok(events)
}

/// Why a tick aborts, if it does: the search for pools is made first, the
/// search for position events second.
pub open spec fn tick_fault(fetched: &Fetched) -> Option<ScanError> {
    if pools_fault(fetched).is_some() {
        pools_fault(fetched)
    } else {
        positions_fault(fetched)
    }
}

/// The events that a tick of scope `scope` stores: the new pools, then the
/// position events that the scope admits.
pub open spec fn tick_events(scope: &ScanScope, fetched: &Fetched) -> Seq<DecodedEvent> {
    pools_found(fetched) + positions_found(scope, fetched)
}

/// Runs one tick over what was fetched for `range`.
///
/// The tick succeeds if every stream was fetched and every log decodes. Its
/// outcome then holds the events to store and the end of the range as the new
/// cursor. Else it fails with the first fault, and there is no outcome: no
/// event to store and no new cursor.
pub fn scan_tick(scope: &ScanScope, range: &ScanRange, fetched: &Fetched) -> (r: Result<
    TickOutcome,
    ScanError,
>)
    ensures
        match r {
            Ok(outcome) => tick_fault(fetched).is_none() && outcome.events@ == tick_events(
                scope,
                fetched,
            ) && outcome.cursor == range.end && outcome.refresh == (range.end != range.start),
            Err(e) => tick_fault(fetched) == Some(e),
        },
{
    let mut events = match search_for_pools(scope, fetched) {
        Ok(events) => events,
        Err(e) => {
            return Err(e);
        },
    };
    let mut positions = match search_for_positions(scope, fetched) {
        Ok(events) => events,
        Err(e) => {
            return Err(e);
        },
    };
    events.append(&mut positions);
    Ok(TickOutcome { events, cursor: range.end, refresh: range.end != range.start })
}

/// The cursor after a tick: the outcome's cursor where the tick succeeded,
/// the cursor as it was where the tick failed.
pub fn next_cursor(cursor: Option<U256>, result: &Result<TickOutcome, ScanError>) -> (next: Option<
    U256,
>)
    ensures
        next == match *result {
            Ok(outcome) => Some(outcome.cursor),
            Err(_) => cursor,
        },
{
    match result {
        Ok(outcome) => Some(outcome.cursor),
        Err(_) => cursor,
    }
}

} // verus!
