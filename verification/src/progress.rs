//! The transaction-progress state machine: a pure reducer over the
//! ordered sequence of node-reported statuses for one submitted
//! extrinsic, resolving lifecycle milestones into one terminal outcome.
//! The subscription that feeds it is the caller's; every non-terminal
//! status is supersedable and only a terminal status stops the reducer.

use vstd::prelude::*;
use crate::metadata::{Metadata, resolve_error_spec};

verus! {

/// One status event reported by the node for a submitted extrinsic.
#[derive(Debug, Clone)]
pub enum TxStatus {
    /// Not yet valid (for example a nonce gap).
    Future,
    /// In the transaction pool.
    Ready,
    /// Sent to peers.
    Broadcast,
    /// Included in the block with this hash; may be superseded by a fork.
    InBlock(Vec<u8>),
    /// Included in a finalized block with this hash; terminal success.
    Finalized(Vec<u8>),
    /// Dropped from the pool; terminal failure.
    Dropped,
    /// No longer valid; terminal failure.
    Invalid,
    /// Replaced by another extrinsic with this hash; terminal failure.
    Usurped(Vec<u8>),
}

/// The mathematical form of a status event.
pub enum TxStatusV {
    Future,
    Ready,
    Broadcast,
    InBlock(Seq<u8>),
    Finalized(Seq<u8>),
    Dropped,
    Invalid,
    Usurped(Seq<u8>),
}

impl View for TxStatus {
    type V = TxStatusV;

    open spec fn view(&self) -> TxStatusV {
        match self {
            TxStatus::Future => TxStatusV::Future,
            TxStatus::Ready => TxStatusV::Ready,
            TxStatus::Broadcast => TxStatusV::Broadcast,
            TxStatus::InBlock(h) => TxStatusV::InBlock(h@),
            TxStatus::Finalized(h) => TxStatusV::Finalized(h@),
            TxStatus::Dropped => TxStatusV::Dropped,
            TxStatus::Invalid => TxStatusV::Invalid,
            TxStatus::Usurped(h) => TxStatusV::Usurped(h@),
        }
    }
}

/// The views of a sequence of status events.
pub open spec fn status_views(s: Seq<TxStatus>) -> Seq<TxStatusV> {
    s.map_values(|st: TxStatus| st@)
}

/// Whether a status ends the stream with a failure: the node will report
/// nothing further and the extrinsic did not reach a block that counts.
pub open spec fn is_failure(s: TxStatusV) -> bool {
    match s {
        TxStatusV::Dropped => true,
        TxStatusV::Invalid => true,
        TxStatusV::Usurped(_) => true,
        _ => false,
    }
}

/// How waiting on a milestone resolves.
pub enum WaitResolution {
    /// The milestone was reached in the block with this hash.
    Success(Seq<u8>),
    /// A terminal failure status arrived first.
    Failure(TxStatusV),
    /// The stream ended with neither: the connection was lost.
    StreamEnded,
}

/// A terminal error from tracking or event inspection.
#[derive(Debug, Clone)]
pub enum TxError {
    /// A terminal failure status ended the wait; carries the reported status.
    TransactionFailed(TxStatus),
    /// The subscription ended before a terminal status arrived.
    ConnectionLost,
    /// The block's events hold a module error, resolved to names.
    ModuleError { pallet: Vec<u8>, error: Vec<u8> },
    /// The block's events hold a module error the metadata does not know.
    UnknownModuleError { pallet_index: u8, error_index: u8 },
}

/// How waiting for inclusion resolves, scanning from `i`: the first
/// `InBlock` (or `Finalized`, which implies inclusion) succeeds with that
/// block's hash; a failure status fails; the stream's end means the
/// connection was lost.
pub open spec fn wait_in_block_spec(s: Seq<TxStatusV>, i: int) -> WaitResolution
    decreases s.len() - i when 0 <= i <= s.len()
{
    if i >= s.len() {
        WaitResolution::StreamEnded
    } else {
        match s[i] {
            TxStatusV::InBlock(h) => WaitResolution::Success(h),
            TxStatusV::Finalized(h) => WaitResolution::Success(h),
            TxStatusV::Dropped => WaitResolution::Failure(s[i]),
            TxStatusV::Invalid => WaitResolution::Failure(s[i]),
            TxStatusV::Usurped(_) => WaitResolution::Failure(s[i]),
            _ => wait_in_block_spec(s, i + 1),
        }
    }
}

/// How waiting for finality resolves, scanning from `i`: only `Finalized`
/// succeeds; every intervening non-terminal status, `InBlock` included,
/// is consumed and superseded; a failure status fails; the stream's end
/// means the connection was lost.
pub open spec fn wait_finalized_spec(s: Seq<TxStatusV>, i: int) -> WaitResolution
    decreases s.len() - i when 0 <= i <= s.len()
{
    if i >= s.len() {
        WaitResolution::StreamEnded
    } else {
        match s[i] {
            TxStatusV::Finalized(h) => WaitResolution::Success(h),
            TxStatusV::Dropped => WaitResolution::Failure(s[i]),
            TxStatusV::Invalid => WaitResolution::Failure(s[i]),
            TxStatusV::Usurped(_) => WaitResolution::Failure(s[i]),
            _ => wait_finalized_spec(s, i + 1),
        }
    }
}

/// Tracks one submitted extrinsic, identified by its pre-inclusion hash,
/// over the statuses its subscription delivered.
#[derive(Debug, Clone)]
pub struct TransactionProgress {
    /// The hash of the signed extrinsic bytes as submitted; its identity
    /// for the status subscription, not its final block-inclusion hash.
    pub ext_hash: Vec<u8>,
}

impl TransactionProgress {
    /// Bind a tracker to the pre-inclusion hash of a submitted extrinsic.
    pub fn new(ext_hash: Vec<u8>) -> (r: Self)
        ensures
            r.ext_hash@ == ext_hash@,
    {
        TransactionProgress { ext_hash }
    }

    /// Resolve on the first status that implies inclusion in a block,
    /// over the statuses delivered so far; a failure status ends the wait
    /// immediately, and a stream that ended without either means the
    /// connection was lost.
    pub fn wait_for_in_block(&self, statuses: &Vec<TxStatus>) -> (r: Result<Vec<u8>, TxError>)
        ensures
            match r {
                Ok(h) => wait_in_block_spec(status_views(statuses@), 0)
                    == WaitResolution::Success(h@),
                Err(TxError::TransactionFailed(st)) => wait_in_block_spec(status_views(statuses@), 0)
                    == WaitResolution::Failure(st@),
                Err(TxError::ConnectionLost) => wait_in_block_spec(status_views(statuses@), 0)
                    is StreamEnded,
                Err(_) => false,
            },
    {
        let ghost sv = status_views(statuses@);
        let mut i: usize = 0;
        while i < statuses.len()
            invariant
                i <= statuses@.len(),
                sv == status_views(statuses@),
                sv.len() == statuses@.len(),
                wait_in_block_spec(sv, 0) == wait_in_block_spec(sv, i as int),
            decreases statuses@.len() - i,
        {
            proof {
                assert(sv[i as int] == statuses@[i as int]@);
            }
            match &statuses[i] {
                TxStatus::InBlock(h) => {
                    let out = crate::codec::copy_range(h, 0, h.len());
                    proof {
                        assert(out@ =~= h@);
                    }
                    return Ok(out);
                },
                TxStatus::Finalized(h) => {
                    let out = crate::codec::copy_range(h, 0, h.len());
                    proof {
                        assert(out@ =~= h@);
                    }
                    return Ok(out);
                },
                TxStatus::Dropped => {
                    return Err(TxError::TransactionFailed(TxStatus::Dropped));
                },
                TxStatus::Invalid => {
                    return Err(TxError::TransactionFailed(TxStatus::Invalid));
                },
                TxStatus::Usurped(h) => {
                    let out = crate::codec::copy_range(h, 0, h.len());
                    proof {
                        assert(out@ =~= h@);
                    }
                    return Err(TxError::TransactionFailed(TxStatus::Usurped(out)));
                },
                _ => {},
            }
            i = i + 1;
        }
        Err(TxError::ConnectionLost)
    }

    /// Resolve only on `Finalized`, consuming every intervening
    /// non-terminal or superseded `InBlock` status; a failure status ends
    /// the wait immediately, and a stream that ended without a terminal
    /// status means the connection was lost.
    pub fn wait_for_finalized(&self, statuses: &Vec<TxStatus>) -> (r: Result<Vec<u8>, TxError>)
        ensures
            match r {
                Ok(h) => wait_finalized_spec(status_views(statuses@), 0)
                    == WaitResolution::Success(h@),
                Err(TxError::TransactionFailed(st)) => wait_finalized_spec(status_views(statuses@), 0)
                    == WaitResolution::Failure(st@),
                Err(TxError::ConnectionLost) => wait_finalized_spec(status_views(statuses@), 0)
                    is StreamEnded,
                Err(_) => false,
            },
    {
        let ghost sv = status_views(statuses@);
        let mut i: usize = 0;
        while i < statuses.len()
            invariant
                i <= statuses@.len(),
                sv == status_views(statuses@),
                sv.len() == statuses@.len(),
                wait_finalized_spec(sv, 0) == wait_finalized_spec(sv, i as int),
            decreases statuses@.len() - i,
        {
            proof {
                assert(sv[i as int] == statuses@[i as int]@);
            }
            match &statuses[i] {
                TxStatus::Finalized(h) => {
                    let out = crate::codec::copy_range(h, 0, h.len());
                    proof {
                        assert(out@ =~= h@);
                    }
                    return Ok(out);
                },
                TxStatus::Dropped => {
                    return Err(TxError::TransactionFailed(TxStatus::Dropped));
                },
                TxStatus::Invalid => {
                    return Err(TxError::TransactionFailed(TxStatus::Invalid));
                },
                TxStatus::Usurped(h) => {
                    let out = crate::codec::copy_range(h, 0, h.len());
                    proof {
                        assert(out@ =~= h@);
                    }
                    return Err(TxError::TransactionFailed(TxStatus::Usurped(out)));
                },
                _ => {},
            }
            i = i + 1;
        }
        Err(TxError::ConnectionLost)
    }
}

// ---------------------------------------------------------------------
// Event inspection for included blocks
// ---------------------------------------------------------------------

/// One event decoded from an included block, as it concerns the
/// submitted extrinsic.
#[derive(Debug, Clone, Copy, PartialEq, Eq, Structural)]
pub enum ChainEvent {
    /// The extrinsic was dispatched successfully.
    ExtrinsicSuccess,
    /// The extrinsic failed with a module error.
    ExtrinsicFailed { pallet_index: u8, error_index: u8 },
    /// Any other event; carries its (pallet, event) indices.
    Other { pallet_index: u8, event_index: u8 },
}

/// The index of the first module-failure event at or after `i`.
pub open spec fn first_failure_event(es: Seq<ChainEvent>, i: int) -> Option<int>
    decreases es.len() - i when 0 <= i <= es.len()
{
    if i >= es.len() {
        None
    } else if es[i] is ExtrinsicFailed {
        Some(i)
    } else {
        first_failure_event(es, i + 1)
    }
}

/// Inspect a block's decoded events for a module-level failure of the
/// submitted extrinsic: the first failure event, resolved through the
/// metadata into (pallet name, error name), decides the outcome; with no
/// failure event the events stand as success.
pub fn check_events(events: &Vec<ChainEvent>, m: &Metadata) -> (r: Result<(), TxError>)
    ensures
        match r {
            Ok(()) => first_failure_event(events@, 0) is None,
            Err(TxError::ModuleError { pallet, error }) => {
                exists|j: int|
                    first_failure_event(events@, 0) == Some(j)
                    && resolve_error_spec(
                        *m,
                        events@[j]->ExtrinsicFailed_pallet_index,
                        events@[j]->ExtrinsicFailed_error_index,
                    ) == Some((pallet@, error@))
            },
            Err(TxError::UnknownModuleError { pallet_index, error_index }) => {
                exists|j: int|
                    first_failure_event(events@, 0) == Some(j)
                    && events@[j] == (ChainEvent::ExtrinsicFailed { pallet_index, error_index })
                    && resolve_error_spec(*m, pallet_index, error_index) is None
            },
            Err(_) => false,
        },
{
    let mut i: usize = 0;
    while i < events.len()
        invariant
            i <= events@.len(),
            first_failure_event(events@, 0) == first_failure_event(events@, i as int),
        decreases events@.len() - i,
    {
        match events[i] {
            ChainEvent::ExtrinsicFailed { pallet_index, error_index } => {
                proof {
                    assert(first_failure_event(events@, i as int) == Some(i as int));
                }
                match m.resolve_error(pallet_index, error_index) {
                    Some((pallet, error)) => {
                        return Err(TxError::ModuleError { pallet, error });
                    },
                    None => {
                        return Err(TxError::UnknownModuleError { pallet_index, error_index });
                    },
                }
            },
            _ => {},
        }
        i = i + 1;
    }
    Ok(())
}

impl TransactionProgress {
    /// Wait for finality and additionally fail when the finalized block's
    /// events hold a module error for this extrinsic. `block_events` is
    /// the decoded event list of the block the wait resolved at, fetched
    /// by the caller once `wait_for_finalized` named that block.
    pub fn wait_for_finalized_success(
        &self,
        statuses: &Vec<TxStatus>,
        block_events: &Vec<ChainEvent>,
        m: &Metadata,
    ) -> (r: Result<Vec<u8>, TxError>)
        ensures
            match r {
                Ok(h) => {
                    &&& wait_finalized_spec(status_views(statuses@), 0)
                        == WaitResolution::Success(h@)
                    &&& first_failure_event(block_events@, 0) is None
                },
                Err(TxError::TransactionFailed(st)) => wait_finalized_spec(status_views(statuses@), 0)
                    == WaitResolution::Failure(st@),
                Err(TxError::ConnectionLost) => wait_finalized_spec(status_views(statuses@), 0)
                    is StreamEnded,
                Err(TxError::ModuleError { pallet, error }) => {
                    &&& wait_finalized_spec(status_views(statuses@), 0) is Success
                    &&& exists|j: int|
                        first_failure_event(block_events@, 0) == Some(j)
                        && resolve_error_spec(
                            *m,
                            block_events@[j]->ExtrinsicFailed_pallet_index,
                            block_events@[j]->ExtrinsicFailed_error_index,
                        ) == Some((pallet@, error@))
                },
                Err(TxError::UnknownModuleError { pallet_index, error_index }) => {
                    &&& wait_finalized_spec(status_views(statuses@), 0) is Success
                    &&& exists|j: int|
                        first_failure_event(block_events@, 0) == Some(j)
                        && block_events@[j] == (ChainEvent::ExtrinsicFailed { pallet_index, error_index })
                        && resolve_error_spec(*m, pallet_index, error_index) is None
                },
            },
    {
        let h = match self.wait_for_finalized(statuses) {
            Ok(h) => h,
            Err(e) => {
                return Err(e);
            },
        };
        match check_events(block_events, m) {
            Ok(()) => Ok(h),
            Err(e) => Err(e),
        }
    }
}

// ---------------------------------------------------------------------
// Laws of the reducer
// ---------------------------------------------------------------------

/// Waiting for finality never resolves successfully on a stream without a
/// `Finalized` status: an `InBlock`-only stream cannot satisfy it.
pub proof fn lemma_finalized_needs_finalized(s: Seq<TxStatusV>, i: int)
    requires
        0 <= i <= s.len(),
        forall|j: int| 0 <= j < s.len() ==> !(#[trigger] s[j] is Finalized),
    ensures
        !(wait_finalized_spec(s, i) is Success),
    decreases s.len() - i,
{
    if i < s.len() {
        lemma_finalized_needs_finalized(s, i + 1);
    }
}

/// A successful finality resolution names a block some `Finalized` status
/// reported, and no failure status precedes that report: superseded
/// `InBlock` statuses are ignored.
pub proof fn lemma_finalized_resolves_at_finalized(s: Seq<TxStatusV>, i: int, h: Seq<u8>)
    requires
        0 <= i <= s.len(),
        wait_finalized_spec(s, i) == WaitResolution::Success(h),
    ensures
        exists|j: int|
            i <= j < s.len()
            && s[j] == TxStatusV::Finalized(h)
            && forall|k: int| i <= k < j ==> !is_failure(#[trigger] s[k]) && !(s[k] is Finalized),
    decreases s.len() - i,
{
    if i < s.len() {
        match s[i] {
            TxStatusV::Finalized(hh) => {
                assert(s[i] == TxStatusV::Finalized(h));
            },
            TxStatusV::Dropped => {},
            TxStatusV::Invalid => {},
            TxStatusV::Usurped(_) => {},
            _ => {
                lemma_finalized_resolves_at_finalized(s, i + 1, h);
                let j = choose|j: int|
                    i + 1 <= j < s.len()
                    && s[j] == TxStatusV::Finalized(h)
                    && forall|k: int| i + 1 <= k < j ==> !is_failure(#[trigger] s[k]) && !(s[k] is Finalized);
                assert(i <= j < s.len()
                    && s[j] == TxStatusV::Finalized(h)
                    && forall|k: int| i <= k < j ==> !is_failure(#[trigger] s[k]) && !(s[k] is Finalized));
            },
        }
    }
}

/// A status sequence that ends in `Dropped`, with nothing before it that
/// either wait resolves on, makes both waits fail as a transaction
/// failure rather than hang or report the connection.
pub proof fn lemma_dropped_fails_both_waits(s: Seq<TxStatusV>, i: int)
    requires
        0 <= i < s.len(),
        s[s.len() - 1] == TxStatusV::Dropped,
        forall|j: int| 0 <= j < s.len() - 1
            ==> (#[trigger] s[j] is Future || s[j] is Ready || s[j] is Broadcast),
    ensures
        wait_in_block_spec(s, i) == WaitResolution::Failure(TxStatusV::Dropped),
        wait_finalized_spec(s, i) == WaitResolution::Failure(TxStatusV::Dropped),
    decreases s.len() - i,
{
    if i < s.len() - 1 {
        lemma_dropped_fails_both_waits(s, i + 1);
    }
}

} // verus!
