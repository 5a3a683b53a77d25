use network_transfer::error::Error;
use network_transfer::transfer::{begin, step, TransferAction, TransferEvent, TransferState};
use network_transfer::Range;

fn run_to_end(total: usize, chunk_size: usize) -> (Vec<Range>, TransferState, TransferAction) {
    let (s, a) = step(begin(), TransferEvent::Start { chunk_size });
    assert_eq!(a, TransferAction::Probe);
    let (mut s, mut a) = step(s, TransferEvent::LengthProbed { total });
    let mut asked = Vec::new();
    while let TransferAction::Fetch(r) = a {
        asked.push(r);
        let next = step(s, TransferEvent::ChunkWritten { count: r.count() });
        s = next.0;
        a = next.1;
    }
    (asked, s, a)
}

#[test]
fn transfer_starts_with_the_probe() {
    assert_eq!(begin(), TransferState::Idle);
    let (s, a) = step(begin(), TransferEvent::Start { chunk_size: 1024 });
    assert_eq!(s, TransferState::ProbingLength { chunk_size: 1024 });
    assert_eq!(a, TransferAction::Probe);
}

#[test]
fn transfer_fetches_every_piece_in_order() {
    let (asked, s, a) = run_to_end(4200, 1024);
    assert_eq!(
        asked,
        vec![
            Range::new(0, 1023),
            Range::new(1024, 2047),
            Range::new(2048, 3071),
            Range::new(3072, 4095),
            Range::new(4096, 4199),
        ]
    );
    assert_eq!(s, TransferState::Complete { written: 4200 });
    assert_eq!(a, TransferAction::Finish(4200));
}

#[test]
fn transfer_writes_the_total_for_many_sizes() {
    for &(total, chunk) in &[(1usize, 1usize), (10, 3), (65536, 65536), (65537, 65536), (100, 1000)] {
        let (asked, s, a) = run_to_end(total, chunk);
        assert_eq!(asked.iter().map(|r| r.count()).sum::<usize>(), total);
        assert_eq!(asked.len(), (total + chunk - 1) / chunk);
        assert_eq!(s, TransferState::Complete { written: total });
        assert_eq!(a, TransferAction::Finish(total));
    }
}

#[test]
fn transfer_of_an_empty_item_is_complete_at_once() {
    let (asked, s, a) = run_to_end(0, 1024);
    assert!(asked.is_empty());
    assert_eq!(s, TransferState::Complete { written: 0 });
    assert_eq!(a, TransferAction::Finish(0));
}

#[test]
fn transfer_tracks_what_was_written() {
    let (s, _) = step(begin(), TransferEvent::Start { chunk_size: 1024 });
    let (s, a) = step(s, TransferEvent::LengthProbed { total: 4200 });
    assert_eq!(s, TransferState::Downloading { total: 4200, chunk_size: 1024, index: 0, written: 0 });
    assert_eq!(a, TransferAction::Fetch(Range::new(0, 1023)));
    let (s, a) = step(s, TransferEvent::ChunkWritten { count: 1024 });
    assert_eq!(
        s,
        TransferState::Downloading { total: 4200, chunk_size: 1024, index: 1, written: 1024 }
    );
    assert_eq!(a, TransferAction::Fetch(Range::new(1024, 2047)));
}

#[test]
fn transfer_fails_on_a_short_chunk() {
    let (s, _) = step(begin(), TransferEvent::Start { chunk_size: 1024 });
    let (s, _) = step(s, TransferEvent::LengthProbed { total: 4200 });
    let (s, a) = step(s, TransferEvent::ChunkWritten { count: 1000 });
    let e = Error::ByteCountMismatch { expected: 1024, actual: 1000 };
    assert_eq!(s, TransferState::Failed(e));
    assert_eq!(a, TransferAction::Abort(e));
}

#[test]
fn transfer_fails_on_a_failed_probe() {
    let (s, _) = step(begin(), TransferEvent::Start { chunk_size: 1024 });
    let (s, a) = step(s, TransferEvent::ProbeRejected(Error::UnexpectedStatus(200)));
    assert_eq!(s, TransferState::Failed(Error::UnexpectedStatus(200)));
    assert_eq!(a, TransferAction::Abort(Error::UnexpectedStatus(200)));
    let (p, _) = step(begin(), TransferEvent::Start { chunk_size: 1024 });
    assert_eq!(step(p, TransferEvent::RequestFailed).0, TransferState::Failed(Error::HttpError));
    assert_eq!(step(p, TransferEvent::IoFailed).0, TransferState::Failed(Error::IoError));
}

#[test]
fn transfer_does_not_retry() {
    let (s, _) = step(begin(), TransferEvent::Start { chunk_size: 1024 });
    let (s, _) = step(s, TransferEvent::LengthProbed { total: 4200 });
    let (s, a) = step(s, TransferEvent::RequestFailed);
    assert_eq!(s, TransferState::Failed(Error::HttpError));
    assert_eq!(a, TransferAction::Abort(Error::HttpError));
    let (s, a) = step(s, TransferEvent::ChunkWritten { count: 1024 });
    assert_eq!(s, TransferState::Failed(Error::HttpError));
    assert_eq!(a, TransferAction::Abort(Error::HttpError));
    let (d, _) = step(begin(), TransferEvent::Start { chunk_size: 8 });
    let (d, _) = step(d, TransferEvent::LengthProbed { total: 16 });
    assert_eq!(step(d, TransferEvent::IoFailed).0, TransferState::Failed(Error::IoError));
}

#[test]
fn transfer_refuses_events_out_of_turn() {
    let unexpected = TransferState::Failed(Error::UnexpectedEvent);
    assert_eq!(step(begin(), TransferEvent::ChunkWritten { count: 1 }).0, unexpected);
    assert_eq!(step(begin(), TransferEvent::LengthProbed { total: 1 }).0, unexpected);
    let (p, _) = step(begin(), TransferEvent::Start { chunk_size: 8 });
    assert_eq!(step(p, TransferEvent::Start { chunk_size: 8 }).0, unexpected);
    assert_eq!(step(p, TransferEvent::ChunkWritten { count: 8 }).0, unexpected);
    let (d, _) = step(p, TransferEvent::LengthProbed { total: 16 });
    assert_eq!(step(d, TransferEvent::LengthProbed { total: 16 }).0, unexpected);
}

#[test]
fn finished_transfer_stays_finished() {
    let (_, s, _) = run_to_end(10, 4);
    let (s2, a2) = step(s, TransferEvent::ChunkWritten { count: 4 });
    assert_eq!(s2, TransferState::Complete { written: 10 });
    assert_eq!(a2, TransferAction::Finish(10));
}
