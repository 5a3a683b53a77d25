//! The transfer of one item as a state machine: the caller performs each
//! action on the network and reports what came of it.
//!
//! Chunks are fetched strictly one after another and nothing is retried: the
//! first failure ends the transfer.

use vstd::prelude::*;
use crate::error::Error;
use crate::range::{covered, lemma_total_bytes_prefix, total_bytes, lemma_piece_at, lemma_piece_bounds, lemma_piece_count_is_ceiling, lemma_pieces_cover, piece_count, pieces, Range};

verus! {

/// Where the transfer of one item stands.
#[derive(Debug, Clone, Copy, PartialEq, Eq, Structural)]
pub enum TransferState {
    /// Nothing was asked yet.
    Idle,
    /// The single-byte probe for the total length is under way.
    ProbingLength { chunk_size: usize },
    /// Piece `index` is under way; the pieces before it were written and held
    /// `written` bytes between them.
    Downloading { total: usize, chunk_size: usize, index: usize, written: usize },
    /// Every piece was written.
    Complete { written: usize },
    /// The transfer was given up.
    Failed(Error),
}

/// What the caller reports to the transfer.
#[derive(Debug, Clone, Copy, PartialEq, Eq, Structural)]
pub enum TransferEvent {
    /// The caller wants the item, in pieces of `chunk_size` bytes.
    Start { chunk_size: usize },
    /// The probe was answered and its answer gives the total length.
    LengthProbed { total: usize },
    /// The probe was answered, but its answer gives no total length.
    ProbeRejected(Error),
    /// The piece that was asked for arrived, and `count` bytes of it were
    /// read and written to the destination.
    ChunkWritten { count: usize },
    /// The request that was under way failed on the network.
    RequestFailed,
    /// Reading the response or writing to the destination failed.
    IoFailed,
}

/// What the caller is to do next.
#[derive(Debug, Clone, Copy, PartialEq, Eq, Structural)]
pub enum TransferAction {
    /// Ask for the range 0-0 and report the total length.
    Probe,
    /// Ask for this range, read exactly its bytes, write them, and report
    /// their number.
    Fetch(Range),
    /// Stop: the item was written whole, in this many bytes.
    Finish(usize),
    /// Stop: the transfer failed.
    Abort(Error),
}

/// The state is one that a transfer can be in: while downloading, the piece
/// under way exists and the bytes written are those of the pieces before it.
pub open spec fn state_wf(s: TransferState) -> bool {
    match s {
        TransferState::ProbingLength { chunk_size } => chunk_size > 0,
        TransferState::Downloading { total, chunk_size, index, written } => {
            &&& chunk_size > 0
            &&& index < piece_count(total as int, chunk_size as int)
            &&& written == covered(total as int, chunk_size as int, index as int)
        },
        _ => true,
    }
}

/// The event is one that the caller may report: pieces are never empty.
pub open spec fn event_wf(e: TransferEvent) -> bool {
    match e {
        TransferEvent::Start { chunk_size } => chunk_size > 0,
        _ => true,
    }
}

/// The failed state and the action that goes with it.
pub open spec fn fail(e: Error) -> (TransferState, TransferAction) {
    (TransferState::Failed(e), TransferAction::Abort(e))
}

/// The transition relation: the state that follows and the action to take.
pub open spec fn transition(s: TransferState, e: TransferEvent) -> (
    TransferState,
    TransferAction,
) {
    match s {
        TransferState::Idle => match e {
            TransferEvent::Start { chunk_size } => (
                TransferState::ProbingLength { chunk_size },
                TransferAction::Probe,
            ),
            _ => fail(Error::UnexpectedEvent),
        },
        TransferState::ProbingLength { chunk_size } => match e {
            TransferEvent::LengthProbed { total } => if total == 0 {
                (TransferState::Complete { written: 0 }, TransferAction::Finish(0))
            } else {
                (
                    TransferState::Downloading { total, chunk_size, index: 0, written: 0 },
                    TransferAction::Fetch(pieces(total, chunk_size)[0]),
                )
            },
            TransferEvent::ProbeRejected(err) => fail(err),
            TransferEvent::RequestFailed => fail(Error::HttpError),
            TransferEvent::IoFailed => fail(Error::IoError),
            _ => fail(Error::UnexpectedEvent),
        },
        TransferState::Downloading { total, chunk_size, index, written } => match e {
            TransferEvent::ChunkWritten { count } => {
                let piece = pieces(total, chunk_size)[index as int];
                if count != piece.spec_count() {
                    fail(
                        Error::ByteCountMismatch {
                            expected: piece.spec_count() as usize,
                            actual: count,
                        },
                    )
                } else if index + 1 < piece_count(total as int, chunk_size as int) {
                    (
                        TransferState::Downloading {
                            total,
                            chunk_size,
                            index: (index + 1) as usize,
                            written: (written + count) as usize,
                        },
                        TransferAction::Fetch(pieces(total, chunk_size)[index + 1]),
                    )
                } else if written + count == total {
                    (TransferState::Complete { written: total }, TransferAction::Finish(total))
                } else {
                    fail(
                        Error::ByteCountMismatch {
                            expected: total,
                            actual: (written + count) as usize,
                        },
                    )
                }
            },
            TransferEvent::RequestFailed => fail(Error::HttpError),
            TransferEvent::IoFailed => fail(Error::IoError),
            _ => fail(Error::UnexpectedEvent),
        },
        TransferState::Complete { written } => (s, TransferAction::Finish(written)),
        TransferState::Failed(err) => (s, TransferAction::Abort(err)),
    }
}

/// A transfer that has not started.
pub fn begin() -> (s: TransferState)
    ensures
        s == TransferState::Idle,
        state_wf(s),
{
    TransferState::Idle
}

/// Takes one event: gives the state that follows and what to do next.
pub fn step(s: TransferState, e: TransferEvent) -> (r: (TransferState, TransferAction))
    requires
        state_wf(s),
        event_wf(e),
    ensures
        r == transition(s, e),
        state_wf(r.0),
{
    match s {
        TransferState::Idle => match e {
            TransferEvent::Start { chunk_size } => (
                TransferState::ProbingLength { chunk_size },
                TransferAction::Probe,
            ),
            _ => give_up(Error::UnexpectedEvent),
        },
        TransferState::ProbingLength { chunk_size } => match e {
            TransferEvent::LengthProbed { total } => {
                if total == 0 {
                    (TransferState::Complete { written: 0 }, TransferAction::Finish(0))
                } else {
                    proof {
                        lemma_pieces_cover(total, chunk_size);
                        lemma_piece_at(total, chunk_size, 0);
                        lemma_piece_bounds(total as int, chunk_size as int, 0);
                        assert(0 * (chunk_size as int) == 0) by (nonlinear_arith);
                    }
                    let piece = piece_from(total, chunk_size, 0, 0);
                    (
                        TransferState::Downloading { total, chunk_size, index: 0, written: 0 },
                        TransferAction::Fetch(piece),
                    )
                }
            },
            TransferEvent::ProbeRejected(err) => give_up(err),
            TransferEvent::RequestFailed => give_up(Error::HttpError),
            TransferEvent::IoFailed => give_up(Error::IoError),
            _ => give_up(Error::UnexpectedEvent),
        },
        TransferState::Downloading { total, chunk_size, index, written } => match e {
            TransferEvent::ChunkWritten { count } => {
                let piece = piece_from(total, chunk_size, index, written);
                proof {
                    lemma_piece_at(total, chunk_size, index as int);
                    lemma_piece_bounds(total as int, chunk_size as int, index as int);
                    lemma_piece_count_is_ceiling(total as int, chunk_size as int);
                    let n = piece_count(total as int, chunk_size as int);
                    assert(n <= total) by (nonlinear_arith)
                        requires
                            (n - 1) * chunk_size < total,
                            chunk_size > 0,
                    ;
                }
                let expected = piece.count();
                if count != expected {
                    give_up(Error::ByteCountMismatch { expected, actual: count })
                } else if written + count < total {
                    proof {
                        assert((index + 1) * chunk_size == index * chunk_size + chunk_size)
                            by (nonlinear_arith);
                    }
                    let next = piece_from(total, chunk_size, index + 1, written + count);
                    (
                        TransferState::Downloading {
                            total,
                            chunk_size,
                            index: index + 1,
                            written: written + count,
                        },
                        TransferAction::Fetch(next),
                    )
                } else {
                    proof {
                        assert((index + 1) * chunk_size == index * chunk_size + chunk_size)
                            by (nonlinear_arith);
                    }
                    (TransferState::Complete { written: total }, TransferAction::Finish(total))
                }
            },
            TransferEvent::RequestFailed => give_up(Error::HttpError),
            TransferEvent::IoFailed => give_up(Error::IoError),
            _ => give_up(Error::UnexpectedEvent),
        },
        TransferState::Complete { written } => (s, TransferAction::Finish(written)),
        TransferState::Failed(err) => (s, TransferAction::Abort(err)),
    }
}

fn give_up(e: Error) -> (r: (TransferState, TransferAction))
    ensures
        r == fail(e),
{
    (TransferState::Failed(e), TransferAction::Abort(e))
}

/// Piece `index` of `total` bytes cut by `chunk_size`, which starts at byte
/// `offset`.
fn piece_from(total: usize, chunk_size: usize, index: usize, offset: usize) -> (r: Range)
    requires
        chunk_size > 0,
        index < piece_count(total as int, chunk_size as int),
        offset == covered(total as int, chunk_size as int, index as int),
    ensures
        r == pieces(total, chunk_size)[index as int],
        r.wf(),
        r.spec_count() <= usize::MAX,
{
    proof {
        lemma_piece_at(total, chunk_size, index as int);
        lemma_piece_bounds(total as int, chunk_size as int, index as int);
        assert((index + 1) * chunk_size == index * chunk_size + chunk_size) by (nonlinear_arith);
    }
    let room: usize = total - offset;
    let len: usize = if chunk_size < room {
        chunk_size
    } else {
        room
    };
    Range::new(offset, offset + len - 1)
}

/// The state that a transfer is in after it took `events`, one after another.
pub open spec fn run(events: Seq<TransferEvent>) -> TransferState
    decreases events.len(),
{
    if events.len() == 0 {
        TransferState::Idle
    } else {
        transition(run(events.drop_last()), events.last()).0
    }
}

/// The ranges that the transfer asked for while it took `events`, in the order
/// in which it asked.
pub open spec fn fetched(events: Seq<TransferEvent>) -> Seq<Range>
    decreases events.len(),
{
    if events.len() == 0 {
        Seq::empty()
    } else {
        match transition(run(events.drop_last()), events.last()).1 {
            TransferAction::Fetch(r) => fetched(events.drop_last()).push(r),
            _ => fetched(events.drop_last()),
        }
    }
}

/// What holds of a transfer that was started in pieces of `chunk_size` bytes,
/// is in state `s` and has asked for the ranges `asked`.
pub open spec fn in_order(chunk_size: usize, s: TransferState, asked: Seq<Range>) -> bool {
    match s {
        TransferState::Idle => false,
        TransferState::ProbingLength { chunk_size: c } => c == chunk_size && asked.len() == 0,
        TransferState::Downloading { total, chunk_size: c, index, written } => {
            &&& c == chunk_size
            &&& asked == pieces(total, c).take(index + 1)
            &&& written == total_bytes(pieces(total, c).take(index as int))
        },
        TransferState::Complete { written } => {
            &&& asked == pieces(written, chunk_size)
            &&& total_bytes(asked) == written
        },
        TransferState::Failed(_) => true,
    }
}

/// The ranges asked for once the action `a` is added to `asked`.
pub open spec fn asked_after(asked: Seq<Range>, a: TransferAction) -> Seq<Range> {
    match a {
        TransferAction::Fetch(r) => asked.push(r),
        _ => asked,
    }
}

proof fn lemma_probe_in_order(c: usize, asked: Seq<Range>, e: TransferEvent)
    requires
        c > 0,
        asked.len() == 0,
    ensures
        in_order(
            c,
            transition(TransferState::ProbingLength { chunk_size: c }, e).0,
            asked_after(asked, transition(TransferState::ProbingLength { chunk_size: c }, e).1),
        ),
{
    match e {
        TransferEvent::LengthProbed { total } => {
            let p = pieces(total, c);
            if total > 0 {
                lemma_piece_count_is_ceiling(total as int, c as int);
                lemma_piece_at(total, c, 0);
                lemma_total_bytes_prefix(total, c, 0);
                assert(asked.push(p[0]) =~= p.take(1));
                assert(0 * (c as int) == 0) by (nonlinear_arith);
            } else {
                assert(asked =~= pieces(0, c));
            }
        },
        _ => {},
    }
}

proof fn lemma_chunk_in_order(
    total: usize,
    c: usize,
    index: usize,
    written: usize,
    asked: Seq<Range>,
    count: usize,
)
    requires
        state_wf(TransferState::Downloading { total, chunk_size: c, index, written }),
        in_order(c, TransferState::Downloading { total, chunk_size: c, index, written }, asked),
    ensures
        in_order(
            c,
            transition(
                TransferState::Downloading { total, chunk_size: c, index, written },
                TransferEvent::ChunkWritten { count },
            ).0,
            asked_after(
                asked,
                transition(
                    TransferState::Downloading { total, chunk_size: c, index, written },
                    TransferEvent::ChunkWritten { count },
                ).1,
            ),
        ),
{
    let n = piece_count(total as int, c as int);
    let p = pieces(total, c);
    lemma_piece_at(total, c, index as int);
    lemma_piece_bounds(total as int, c as int, index as int);
    lemma_total_bytes_prefix(total, c, index as int);
    lemma_total_bytes_prefix(total, c, index + 1);
    lemma_piece_count_is_ceiling(total as int, c as int);
    assert(n <= total) by (nonlinear_arith)
        requires
            (n - 1) * c < total,
            c > 0,
    ;
    assert((index + 1) * c == index * c + c) by (nonlinear_arith);
    if count == p[index as int].spec_count() {
        if index + 1 < n {
            lemma_piece_at(total, c, index + 1);
            assert(asked.push(p[index + 1]) =~= p.take(index + 2));
        } else {
            assert(p.take(index + 1) =~= p);
        }
    }
}

/// Whatever the caller reports after it started a transfer in pieces of
/// `chunk_size` bytes: while the transfer is downloading, it has asked for the
/// pieces up to the one under way, each once and in ascending order, and the
/// bytes written are those of the pieces before it; when it is complete, it has
/// asked for every piece of the total, in order, and the total was written.
/// Otherwise it has failed.
pub proof fn lemma_transfer_in_order(chunk_size: usize, events: Seq<TransferEvent>)
    requires
        chunk_size > 0,
        events.len() > 0,
        events[0] == (TransferEvent::Start { chunk_size }),
    ensures
        state_wf(run(events)),
        in_order(chunk_size, run(events), fetched(events)),
    decreases events.len(),
{
    let before = events.drop_last();
    let e = events.last();
    if before.len() == 0 {
        assert(run(before) == TransferState::Idle);
        assert(fetched(before).len() == 0);
        assert(e == events[0]);
    } else {
        assert(before[0] == events[0]);
        lemma_transfer_in_order(chunk_size, before);
        match run(before) {
            TransferState::ProbingLength { chunk_size: c } => {
                lemma_probe_in_order(c, fetched(before), e);
                lemma_step_wf(run(before), e);
            },
            TransferState::Downloading { total, chunk_size: c, index, written } => {
                lemma_step_wf(run(before), e);
                match e {
                    TransferEvent::ChunkWritten { count } => {
                        lemma_chunk_in_order(total, c, index, written, fetched(before), count);
                    },
                    _ => {},
                }
            },
            _ => {},
        }
    }
}

/// A step from a state that a transfer can be in leads to another such state.
pub proof fn lemma_step_wf(s: TransferState, e: TransferEvent)
    requires
        state_wf(s),
        s == TransferState::Idle ==> event_wf(e),
    ensures
        state_wf(transition(s, e).0),
{
    match s {
        TransferState::ProbingLength { chunk_size } => {
            match e {
                TransferEvent::LengthProbed { total } => {
                    if total > 0 {
                        let n = piece_count(total as int, chunk_size as int);
                        lemma_piece_count_is_ceiling(total as int, chunk_size as int);
                        assert(n > 0) by (nonlinear_arith)
                            requires
                                n * chunk_size >= total,
                                total > 0,
                                chunk_size > 0,
                        ;
                        assert(0 * (chunk_size as int) == 0) by (nonlinear_arith);
                    }
                },
                _ => {},
            }
        },
        TransferState::Downloading { total, chunk_size, index, written } => {
            match e {
                TransferEvent::ChunkWritten { count } => {
                    lemma_piece_at(total, chunk_size, index as int);
                    lemma_piece_bounds(total as int, chunk_size as int, index as int);
                    lemma_piece_count_is_ceiling(total as int, chunk_size as int);
                    let n = piece_count(total as int, chunk_size as int);
                    assert(n <= total) by (nonlinear_arith)
                        requires
                            (n - 1) * chunk_size < total,
                            chunk_size > 0,
                    ;
                    assert((index + 1) * chunk_size == index * chunk_size + chunk_size)
                        by (nonlinear_arith);
                },
                _ => {},
            }
        },
        _ => {},
    }
}

/// The events of a transfer of `total` bytes in pieces of `chunk_size` in
/// which nothing went wrong so far: the start, the answer to the probe, and
/// the report that each of the first `k` pieces was written whole.
pub open spec fn whole_run(total: usize, chunk_size: usize, k: int) -> Seq<TransferEvent>
    decreases k,
{
    if k <= 0 {
        seq![TransferEvent::Start { chunk_size }, TransferEvent::LengthProbed { total }]
    } else {
        whole_run(total, chunk_size, k - 1).push(
            TransferEvent::ChunkWritten {
                count: pieces(total, chunk_size)[k - 1].spec_count() as usize,
            },
        )
    }
}

/// Where every piece is written whole, the transfer goes through the pieces
/// one by one and completes with the total: after `k` pieces it is downloading
/// piece `k` with the bytes of the pieces before it written, and after the
/// last piece it is complete, has written `total` bytes and has asked for
/// every piece once, in ascending order.
pub proof fn lemma_whole_run_completes(total: usize, chunk_size: usize, k: int)
    requires
        chunk_size > 0,
        0 <= k <= piece_count(total as int, chunk_size as int),
    ensures
        whole_run(total, chunk_size, k).len() == k + 2,
        whole_run(total, chunk_size, k)[0] == (TransferEvent::Start { chunk_size }),
        k < piece_count(total as int, chunk_size as int) ==> run(whole_run(total, chunk_size, k))
            == (TransferState::Downloading {
            total,
            chunk_size,
            index: k as usize,
            written: covered(total as int, chunk_size as int, k) as usize,
        }),
        k == piece_count(total as int, chunk_size as int) ==> run(
            whole_run(total, chunk_size, k),
        ) == (TransferState::Complete { written: total }) && fetched(
            whole_run(total, chunk_size, k),
        ) == pieces(total, chunk_size),
    decreases k,
{
    let n = piece_count(total as int, chunk_size as int);
    let events = whole_run(total, chunk_size, k);
    lemma_piece_count_is_ceiling(total as int, chunk_size as int);
    assert(n <= total) by (nonlinear_arith)
        requires
            total > 0 ==> (n - 1) * chunk_size < total,
            total == 0 ==> n == 0,
            chunk_size > 0,
            total >= 0,
    ;
    if k == 0 {
        let start = TransferEvent::Start { chunk_size };
        let probed = TransferEvent::LengthProbed { total };
        assert(events.drop_last() =~= seq![start]);
        assert(events.last() == probed);
        assert(seq![start].drop_last() =~= Seq::<TransferEvent>::empty());
        assert(run(seq![start].drop_last()) == TransferState::Idle);
        assert(run(seq![start]) == TransferState::ProbingLength { chunk_size });
        assert(0 * (chunk_size as int) == 0) by (nonlinear_arith);
        if total > 0 {
            assert(n > 0) by (nonlinear_arith)
                requires
                    n * chunk_size >= total,
                    total > 0,
                    chunk_size > 0,
            ;
        }
    } else {
        lemma_whole_run_completes(total, chunk_size, k - 1);
        lemma_piece_at(total, chunk_size, k - 1);
        lemma_piece_bounds(total as int, chunk_size as int, k - 1);
        assert(k * chunk_size == (k - 1) * chunk_size + chunk_size) by (nonlinear_arith);
        assert(events.drop_last() =~= whole_run(total, chunk_size, k - 1));
    }
    if k == n {
        assert(events[0] == (TransferEvent::Start { chunk_size }));
        lemma_transfer_in_order(chunk_size, events);
    }
}

} // verus!
