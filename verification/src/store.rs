//! The store as a tick sees it: a cursor and a map from keys to events.
//!
//! The store itself is kept by the caller. Here is what it holds after the
//! events of a tick are written to it, and what follows from that: a tick
//! never moves the cursor back, and a tick over blocks that were scanned
//! before changes nothing.

use vstd::prelude::*;
use crate::abi_util::{be_value, lemma_pow256_positive};
use crate::events::DecodedEvent;
use crate::keys::LATEST_SEARCHED_BLOCK_KEY;
use crate::raw_log::{lemma_u256_of_value, u256_of};
use crate::scanner::{lemma_planned_end_is_a_word, planned_range, tick_events, tick_fault, Fetched};
use crate::scope::ScanScope;
use crate::types::{lemma_bytes_denote, U256};

verus! {

/// The cursor and the stored events. A stored event is found under the text
/// of its key.
pub struct IndexState {
    pub cursor: Option<U256>,
    pub events: Map<Seq<char>, DecodedEvent>,
}

impl DecodedEvent {
    /// The text of the key under which this event is stored; none for a
    /// harvest, which is not stored.
    pub open spec fn key_text(&self) -> Option<Seq<char>> {
        match *self {
            DecodedEvent::InitPool(e) => Some(e.key_text()),
            DecodedEvent::MintRanged(e) => Some(e.key_text()),
            DecodedEvent::BurnRanged(e) => Some(e.key_text()),
            DecodedEvent::Harvest(_) => None,
            DecodedEvent::MintAmbient(e) => Some(e.key_text()),
            DecodedEvent::BurnAmbient(e) => Some(e.key_text()),
        }
    }

    /// The key under which this event is stored; none for a harvest.
    pub fn store_key(&self) -> (k: Option<String>)
        ensures
            match k {
                Some(key) => self.key_text() == Some(key@),
                None => self.key_text().is_none(),
            },
    {
        match self {
            DecodedEvent::InitPool(e) => Some(e.store_key()),
            DecodedEvent::MintRanged(e) => Some(e.store_key()),
            DecodedEvent::BurnRanged(e) => Some(e.store_key()),
            DecodedEvent::Harvest(_) => None,
            DecodedEvent::MintAmbient(e) => Some(e.store_key()),
            DecodedEvent::BurnAmbient(e) => Some(e.store_key()),
        }
    }
}

/// The stored events after `event` is written: it takes the place of what
/// was stored under its key.
pub open spec fn written(store: Map<Seq<char>, DecodedEvent>, event: DecodedEvent) -> Map<
    Seq<char>,
    DecodedEvent,
> {
    match event.key_text() {
        Some(key) => store.insert(key, event),
        None => store,
    }
}

/// The stored events after all of `events` are written, in their order.
pub open spec fn written_all(store: Map<Seq<char>, DecodedEvent>, events: Seq<DecodedEvent>) -> Map<
    Seq<char>,
    DecodedEvent,
>
    decreases events.len(),
{
    if events.len() == 0 {
        store
    } else {
        written(written_all(store, events.drop_last()), events.last())
    }
}

/// The state after one tick of scope `scope`, made while the chain's latest
/// block is `latest` and its logs over the planned range are `fetched`. A
/// tick that fails leaves the state as it was.
pub open spec fn ticked(
    state: IndexState,
    scope: &ScanScope,
    latest: U256,
    fetched: &Fetched,
) -> IndexState {
    if tick_fault(fetched).is_some() {
        state
    } else {
        IndexState {
            cursor: Some(planned_range(state.cursor, latest).end),
            events: written_all(state.events, tick_events(scope, fetched)),
        }
    }
}

/// Writing an event last makes an earlier writing of it pointless.
pub proof fn lemma_written_last_wins(
    store: Map<Seq<char>, DecodedEvent>,
    events: Seq<DecodedEvent>,
    event: DecodedEvent,
)
    ensures
        written(written_all(written(store, event), events), event) == written(
            written_all(store, events),
            event,
        ),
    decreases events.len(),
{
    if events.len() > 0 {
        let front = events.drop_last();
        let e = events.last();
        lemma_written_last_wins(store, front, event);
        let a = written_all(written(store, event), front);
        let b = written_all(store, front);
        if e.key_text() == event.key_text() {
            assert(written(written(a, e), event) =~= written(a, event));
            assert(written(written(b, e), event) =~= written(b, event));
        } else {
            assert(written(written(a, e), event) =~= written(written(a, event), e));
            assert(written(written(b, e), event) =~= written(written(b, event), e));
        }
    } else {
        assert(written(written(store, event), event) =~= written(store, event));
    }
}

/// Writing the same events a second time changes nothing: every write is
/// idempotent, because the key of an event is derived from the event.
pub proof fn lemma_written_twice(store: Map<Seq<char>, DecodedEvent>, events: Seq<DecodedEvent>)
    ensures
        written_all(written_all(store, events), events) == written_all(store, events),
    decreases events.len(),
{
    if events.len() > 0 {
        let front = events.drop_last();
        let e = events.last();
        lemma_written_twice(store, front);
        lemma_written_last_wins(written_all(store, front), front, e);
    }
}

/// A tick over a chain without new blocks, run a second time on the same
/// logs, stores nothing more and leaves the cursor where it is.
pub proof fn lemma_rescan_changes_nothing(
    state: IndexState,
    scope: &ScanScope,
    latest: U256,
    fetched: &Fetched,
)
    requires
        state.cursor == Some(latest),
    ensures
        ticked(state, scope, latest, fetched).cursor == state.cursor,
        ticked(ticked(state, scope, latest, fetched), scope, latest, fetched).cursor
            == state.cursor,
        ticked(ticked(state, scope, latest, fetched), scope, latest, fetched).events == ticked(
            state,
            scope,
            latest,
            fetched,
        ).events,
{
    lemma_u256_of_value(latest);
    lemma_written_twice(state.events, tick_events(scope, fetched));
}

/// A tick never moves the cursor back, whether it succeeds or fails, as long
/// as the chain's latest block is not behind the cursor.
pub proof fn lemma_cursor_never_falls(
    state: IndexState,
    scope: &ScanScope,
    latest: U256,
    fetched: &Fetched,
)
    requires
        state.cursor.is_some() ==> state.cursor.unwrap().value() <= latest.value(),
    ensures
        state.cursor.is_some() ==> ticked(state, scope, latest, fetched).cursor.is_some()
            && state.cursor.unwrap().value() <= ticked(
            state,
            scope,
            latest,
            fetched,
        ).cursor.unwrap().value(),
        tick_fault(fetched).is_some() ==> ticked(state, scope, latest, fetched) == state,
{
    U256::lemma_value_bound(latest);
    lemma_planned_end_is_a_word(state.cursor, latest);
}

/// Reads the cursor from what is stored under its key: a big-endian number.
pub fn get_latest_searched_block(stored: &Option<Vec<u8>>) -> (block: Option<U256>)
    ensures
        stored.is_none() <==> block.is_none(),
        stored.is_some() ==> block.unwrap().value() == be_value(
            stored.unwrap()@.take(
                if stored.unwrap()@.len() <= 32 {
                    stored.unwrap()@.len() as int
                } else {
                    32
                },
            ),
        ),
{
    match stored {
        Some(bytes) => Some(U256::from_be_bytes(bytes.as_slice())),
        None => None,
    }
}

/// The key and the value under which the cursor `block` is stored: the 32
/// bytes of the number, big-endian.
pub fn save_latest_searched_block(block: U256) -> (entry: (String, Vec<u8>))
    ensures
        entry.0@ == LATEST_SEARCHED_BLOCK_KEY@,
        entry.1@ == block.bytes(),
{
    (String::from_str(LATEST_SEARCHED_BLOCK_KEY), block.to_be_bytes())
}

/// The cursor that is read back from what was stored for it is the cursor
/// that was stored.
pub proof fn lemma_cursor_is_read_back(block: U256)
    ensures
        u256_of(be_value(block.bytes().take(32))) == block,
{
    U256::lemma_value_bound(block);
    lemma_pow256_positive(32);
    lemma_bytes_denote(block.value(), 32);
    assert(block.bytes().take(32) =~= block.bytes());
    lemma_u256_of_value(block);
}

} // verus!
