//! The closed set of events that the indexer consumes, and the decoder that
//! turns a raw log into one of them.

use vstd::prelude::*;
use crate::pools::InitPoolEvent;
use crate::positions::{BurnAmbientEvent, BurnRangedEvent, HarvestEvent};
use crate::positions::{MintAmbientEvent, MintRangedEvent};
use crate::raw_log::{DecodeError, RawLog};
use crate::types::U256;

verus! {

/// Signature of the event that says that a pool was created.
pub const INIT_POOL_SIGNATURE: &'static str =
    "InitPool(address,address,uint256,uint128,address,uint128,uint128,uint128)";

/// Signature of the event that says that liquidity was added to a ranged position.
pub const MINT_RANGED_SIGNATURE: &'static str =
    "MintRanged(address,address,address,uint256,uint128,int24,int24,uint128,uint128)";

/// Signature of the event that says that a ranged position was closed.
pub const BURN_RANGED_SIGNATURE: &'static str =
    "BurnRanged(address,address,address,uint256,uint128,int24,int24,uint128,uint128)";

/// Signature of the event that says that the rewards of a ranged position were withdrawn.
pub const HARVEST_SIGNATURE: &'static str =
    "Harvest(address,address,address,uint256,int24,int24,uint128,uint128)";

/// Signature of the event that says that liquidity was added to an ambient position.
pub const MINT_AMBIENT_SIGNATURE: &'static str =
    "MintAmbient(address,address,address,uint256,uint128,uint128,uint128)";

/// Signature of the event that says that an ambient position was closed.
pub const BURN_AMBIENT_SIGNATURE: &'static str =
    "BurnAmbient(address,address,address,uint256,uint128,uint128,uint128)";

/// The kinds of event that can be decoded.
#[derive(Clone, Copy, Debug, PartialEq, Eq, Hash, Structural)]
pub enum EventKind {
    InitPool,
    MintRanged,
    BurnRanged,
    Harvest,
    MintAmbient,
    BurnAmbient,
}

/// A decoded event of any kind.
#[derive(Clone, Copy, Debug, PartialEq, Eq, Hash, Structural)]
pub enum DecodedEvent {
    InitPool(InitPoolEvent),
    MintRanged(MintRangedEvent),
    BurnRanged(BurnRangedEvent),
    Harvest(HarvestEvent),
    MintAmbient(MintAmbientEvent),
    BurnAmbient(BurnAmbientEvent),
}

/// What the log `log` decodes to when read as an event of kind `kind`.
pub open spec fn decoded_as(kind: EventKind, log: &RawLog) -> Result<DecodedEvent, DecodeError> {
    match kind {
        EventKind::InitPool => match InitPoolEvent::decoded(log) {
            Ok(event) => Ok(DecodedEvent::InitPool(event)),
            Err(e) => Err(e),
        },
        EventKind::MintRanged => match MintRangedEvent::decoded(log) {
            Ok(event) => Ok(DecodedEvent::MintRanged(event)),
            Err(e) => Err(e),
        },
        EventKind::BurnRanged => match BurnRangedEvent::decoded(log) {
            Ok(event) => Ok(DecodedEvent::BurnRanged(event)),
            Err(e) => Err(e),
        },
        EventKind::Harvest => match HarvestEvent::decoded(log) {
            Ok(event) => Ok(DecodedEvent::Harvest(event)),
            Err(e) => Err(e),
        },
        EventKind::MintAmbient => match MintAmbientEvent::decoded(log) {
            Ok(event) => Ok(DecodedEvent::MintAmbient(event)),
            Err(e) => Err(e),
        },
        EventKind::BurnAmbient => match BurnAmbientEvent::decoded(log) {
            Ok(event) => Ok(DecodedEvent::BurnAmbient(event)),
            Err(e) => Err(e),
        },
    }
}

impl EventKind {
    /// The signature whose hash is the first topic of every log of this kind.
    pub fn signature(&self) -> (s: &'static str)
        ensures
            s@ == match *self {
                EventKind::InitPool => INIT_POOL_SIGNATURE@,
                EventKind::MintRanged => MINT_RANGED_SIGNATURE@,
                EventKind::BurnRanged => BURN_RANGED_SIGNATURE@,
                EventKind::Harvest => HARVEST_SIGNATURE@,
                EventKind::MintAmbient => MINT_AMBIENT_SIGNATURE@,
                EventKind::BurnAmbient => BURN_AMBIENT_SIGNATURE@,
            },
    {
        match self {
            EventKind::InitPool => INIT_POOL_SIGNATURE,
            EventKind::MintRanged => MINT_RANGED_SIGNATURE,
            EventKind::BurnRanged => BURN_RANGED_SIGNATURE,
            EventKind::Harvest => HARVEST_SIGNATURE,
            EventKind::MintAmbient => MINT_AMBIENT_SIGNATURE,
            EventKind::BurnAmbient => BURN_AMBIENT_SIGNATURE,
        }
    }
}

impl DecodedEvent {
    /// The kind of this event.
    pub open spec fn spec_kind(&self) -> EventKind {
        match *self {
            DecodedEvent::InitPool(_) => EventKind::InitPool,
            DecodedEvent::MintRanged(_) => EventKind::MintRanged,
            DecodedEvent::BurnRanged(_) => EventKind::BurnRanged,
            DecodedEvent::Harvest(_) => EventKind::Harvest,
            DecodedEvent::MintAmbient(_) => EventKind::MintAmbient,
            DecodedEvent::BurnAmbient(_) => EventKind::BurnAmbient,
        }
    }

    /// The kind of this event.
    #[verifier::when_used_as_spec(spec_kind)]
    pub fn kind(&self) -> (k: EventKind)
        ensures
            k == self.spec_kind(),
    {
        match self {
            DecodedEvent::InitPool(_) => EventKind::InitPool,
            DecodedEvent::MintRanged(_) => EventKind::MintRanged,
            DecodedEvent::BurnRanged(_) => EventKind::BurnRanged,
            DecodedEvent::Harvest(_) => EventKind::Harvest,
            DecodedEvent::MintAmbient(_) => EventKind::MintAmbient,
            DecodedEvent::BurnAmbient(_) => EventKind::BurnAmbient,
        }
    }

    /// The height of the block that holds this event.
    pub open spec fn spec_block_height(&self) -> U256 {
        match *self {
            DecodedEvent::InitPool(e) => e.block_height,
            DecodedEvent::MintRanged(e) => e.block_height,
            DecodedEvent::BurnRanged(e) => e.block_height,
            DecodedEvent::Harvest(e) => e.block_height,
            DecodedEvent::MintAmbient(e) => e.block_height,
            DecodedEvent::BurnAmbient(e) => e.block_height,
        }
    }

    /// The height of the block that holds this event.
    #[verifier::when_used_as_spec(spec_block_height)]
    pub fn block_height(&self) -> (h: U256)
        ensures
            h == self.spec_block_height(),
    {
        match self {
            DecodedEvent::InitPool(e) => e.block_height,
            DecodedEvent::MintRanged(e) => e.block_height,
            DecodedEvent::BurnRanged(e) => e.block_height,
            DecodedEvent::Harvest(e) => e.block_height,
            DecodedEvent::MintAmbient(e) => e.block_height,
            DecodedEvent::BurnAmbient(e) => e.block_height,
        }
    }
}

/// Decodes `log` as an event of kind `kind`.
///
/// Fails with `TooFewTopics` on a log of fewer than four topics, else with
/// `MissingBlockHeight` on a log without a block height, else with
/// `TruncatedData` on a payload shorter than the kind's slots, else with
/// `NumericOverflow` where a 128-bit quantity does not fit in 128 bits.
pub fn decode(kind: EventKind, log: &RawLog) -> (r: Result<DecodedEvent, DecodeError>)
    ensures
        r == decoded_as(kind, log),
        r.is_ok() ==> r.unwrap().spec_kind() == kind,
{
    match kind {
        EventKind::InitPool => match InitPoolEvent::from_log(log) {
            Ok(event) => Ok(DecodedEvent::InitPool(event)),
            Err(e) => Err(e),
        },
        EventKind::MintRanged => match MintRangedEvent::from_log(log) {
            Ok(event) => Ok(DecodedEvent::MintRanged(event)),
            Err(e) => Err(e),
        },
        EventKind::BurnRanged => match BurnRangedEvent::from_log(log) {
            Ok(event) => Ok(DecodedEvent::BurnRanged(event)),
            Err(e) => Err(e),
        },
        EventKind::Harvest => match HarvestEvent::from_log(log) {
            Ok(event) => Ok(DecodedEvent::Harvest(event)),
            Err(e) => Err(e),
        },
        EventKind::MintAmbient => match MintAmbientEvent::from_log(log) {
            Ok(event) => Ok(DecodedEvent::MintAmbient(event)),
            Err(e) => Err(e),
        },
        EventKind::BurnAmbient => match BurnAmbientEvent::from_log(log) {
            Ok(event) => Ok(DecodedEvent::BurnAmbient(event)),
            Err(e) => Err(e),
        },
    }
}

/// Encodes `event` as the log that carries it under the signature hash
/// `signature`. Decoding the log as an event of the same kind gives the event
/// back.
pub fn encode(event: &DecodedEvent, signature: [u8; 32]) -> (log: RawLog)
    ensures
        decoded_as(event.spec_kind(), &log) == Ok::<DecodedEvent, DecodeError>(*event),
        log.topics@.len() == 4,
        log.topics@[0] == signature,
        log.block_number == Some(event.spec_block_height()),
{
    match event {
        DecodedEvent::InitPool(e) => e.to_log(signature),
        DecodedEvent::MintRanged(e) => e.to_log(signature),
        DecodedEvent::BurnRanged(e) => e.to_log(signature),
        DecodedEvent::Harvest(e) => e.to_log(signature),
        DecodedEvent::MintAmbient(e) => e.to_log(signature),
        DecodedEvent::BurnAmbient(e) => e.to_log(signature),
    }
}

/// Whether two logs are the same but for the first 12 bytes of their topics
/// 1 to 3, the padding before an indexed address.
pub open spec fn same_but_padding(a: &RawLog, b: &RawLog) -> bool {
    a.data@ == b.data@ && a.block_number == b.block_number && a.topics@.len() == b.topics@.len()
        && forall|i: int|
        1 <= i < 4 && i < a.topics@.len() ==> (#[trigger] a.topics@[i])@.subrange(12, 32)
            == b.topics@[i]@.subrange(12, 32)
}

/// The padding before an indexed address is not looked at: two logs that
/// differ in nothing else decode alike, to the same event or with the same
/// fault. This holds of every kind whose topics 1 to 3 are addresses.
pub proof fn lemma_address_padding_is_ignored(kind: EventKind, a: &RawLog, b: &RawLog)
    requires
        same_but_padding(a, b),
        kind != EventKind::InitPool,
    ensures
        decoded_as(kind, a) == decoded_as(kind, b),
{
    reveal(InitPoolEvent::decoded);
    reveal(MintRangedEvent::decoded);
    reveal(BurnRangedEvent::decoded);
    reveal(HarvestEvent::decoded);
    reveal(MintAmbientEvent::decoded);
    reveal(BurnAmbientEvent::decoded);
    if a.topics@.len() >= 4 {
        assert(a.topics@[1]@.subrange(12, 32) == b.topics@[1]@.subrange(12, 32));
        assert(a.topics@[2]@.subrange(12, 32) == b.topics@[2]@.subrange(12, 32));
        assert(a.topics@[3]@.subrange(12, 32) == b.topics@[3]@.subrange(12, 32));
    }
}

/// The fault of the first log of `logs` that does not decode as an event of
/// kind `kind`; none where all decode.
pub open spec fn first_fault(kind: EventKind, logs: Seq<RawLog>) -> Option<DecodeError>
    decreases logs.len(),
{
    if logs.len() == 0 {
        None
    } else {
        match decoded_as(kind, &logs[0]) {
            Err(e) => Some(e),
            Ok(_) => first_fault(kind, logs.skip(1)),
        }
    }
}

/// The events that the logs of `logs` decode to, one for each log.
pub open spec fn batch(kind: EventKind, logs: Seq<RawLog>) -> Seq<DecodedEvent> {
    Seq::new(logs.len(), |i: int| decoded_as(kind, &logs[i]).unwrap())
}

/// Decodes every log of `logs` as an event of kind `kind`. The whole batch
/// fails with the fault of the first log that does not decode.
pub fn decode_many(kind: EventKind, logs: &[RawLog]) -> (r: Result<Vec<DecodedEvent>, DecodeError>)
    ensures
        match r {
            Ok(events) => first_fault(kind, logs@).is_none() && events@ == batch(kind, logs@),
            Err(e) => first_fault(kind, logs@) == Some(e),
        },
{
    let mut res: Vec<DecodedEvent> = Vec::new();
    let mut n: usize = 0;
    assert(logs@.skip(0) =~= logs@);
    while n < logs.len()
        invariant
            n <= logs@.len(),
            first_fault(kind, logs@) == first_fault(kind, logs@.skip(n as int)),
            res@ == batch(kind, logs@.take(n as int)),
        decreases logs@.len() - n,
    {
        let ghost rest = logs@.skip(n as int);
        assert(rest[0] == logs@[n as int]);
        assert(rest.skip(1) =~= logs@.skip(n + 1));
        match decode(kind, &logs[n]) {
            Ok(event) => {
                res.push(event);
                assert(res@ =~= batch(kind, logs@.take(n + 1)));
            },
            Err(e) => {
                return Err(e);
            },
        }
        n = n + 1;
    }
    assert(logs@.take(n as int) =~= logs@);
    Ok(res)
}

} // verus!
