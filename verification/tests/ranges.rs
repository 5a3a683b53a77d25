use network_transfer::range::RangeIter;
use network_transfer::{Client, Range};

fn collect(total: usize, step: usize) -> Vec<(usize, usize)> {
    let mut it = Client::iterate_range(total, step);
    let mut out = Vec::new();
    while let Some(r) = it.next() {
        out.push((r.first_byte, r.last_byte));
    }
    out
}

#[test]
fn test_range_iterator() {
    let mut it1 = Client::iterate_range(4200, 1024);
    assert_eq!(Range::new(0, 1023), it1.next().unwrap());
    assert_eq!(Range::new(1024, 2047), it1.next().unwrap());
    assert_eq!(Range::new(2048, 3071), it1.next().unwrap());
    assert_eq!(Range::new(3072, 4095), it1.next().unwrap());
    assert_eq!(Range::new(4096, 4199), it1.next().unwrap());
}

#[test]
fn range_iterator_yields_exactly_five_pieces() {
    assert_eq!(
        collect(4200, 1024),
        vec![(0, 1023), (1024, 2047), (2048, 3071), (3072, 4095), (4096, 4199)]
    );
}

#[test]
fn range_iterator_ends_and_stays_ended() {
    let mut it = Client::iterate_range(3, 2);
    assert_eq!(it.next(), Some(Range::new(0, 1)));
    assert_eq!(it.next(), Some(Range::new(2, 2)));
    assert_eq!(it.next(), None);
    assert_eq!(it.next(), None);
}

#[test]
fn range_iterator_of_nothing_is_empty() {
    assert_eq!(collect(0, 1024), vec![]);
    let mut it = RangeIter::new(0, 1);
    assert_eq!(it.next(), None);
}

#[test]
fn range_iterator_exact_multiple() {
    assert_eq!(collect(2048, 1024), vec![(0, 1023), (1024, 2047)]);
}

#[test]
fn range_iterator_step_larger_than_total() {
    assert_eq!(collect(10, 1024), vec![(0, 9)]);
    assert_eq!(collect(1, 1), vec![(0, 0)]);
}

#[test]
fn range_iterator_is_restartable() {
    assert_eq!(collect(4200, 1024), collect(4200, 1024));
}

#[test]
fn range_iterator_near_the_largest_length() {
    let total = usize::MAX;
    let step = usize::MAX / 2 + 1;
    assert_eq!(collect(total, step), vec![(0, step - 1), (step, total - 1)]);
}

#[test]
fn pieces_are_contiguous_and_sum_to_total() {
    for &(total, step) in &[(4200usize, 1024usize), (1, 1), (100, 7), (65536, 65536), (65537, 65536)] {
        let pieces = collect(total, step);
        assert_eq!(pieces.len(), (total + step - 1) / step);
        let mut next = 0usize;
        let mut sum = 0usize;
        for (first, last) in pieces {
            assert_eq!(first, next);
            assert!(last >= first);
            let n = Range::new(first, last).count();
            assert!(n <= step);
            sum += n;
            next = last + 1;
        }
        assert_eq!(next, total);
        assert_eq!(sum, total);
    }
}

#[test]
fn range_count_is_inclusive() {
    assert_eq!(Range::new(0, 1023).count(), 1024);
    assert_eq!(Range::new(4096, 4199).count(), 104);
    assert_eq!(Range::new(7, 7).count(), 1);
}

#[test]
fn default_range_is_the_probe_range() {
    let r = Range::default();
    assert_eq!(r, Range::new(0, 0));
    assert_eq!(r.count(), 1);
}
