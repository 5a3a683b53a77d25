//! Inclusive byte ranges and the generator that cuts a length into them.

use vstd::prelude::*;

verus! {

/// An inclusive span of bytes, `first_byte ..= last_byte`.
#[derive(Debug, Clone, Copy, PartialEq, Eq, Structural)]
pub struct Range {
    pub first_byte: usize,
    pub last_byte: usize,
}

impl Default for Range {
    /// The zero/zero range, which asks for the first byte only and is used to
    /// learn the total length of an item.
    fn default() -> (r: Self)
        ensures
            r.first_byte == 0,
            r.last_byte == 0,
    {
        Range { first_byte: 0, last_byte: 0 }
    }
}

impl Range {
    /// The range does not end before it starts.
    pub open spec fn wf(&self) -> bool {
        self.first_byte <= self.last_byte
    }

    /// Number of bytes in the range, as a mathematical integer.
    pub open spec fn spec_count(&self) -> int {
        self.last_byte - self.first_byte + 1
    }

    pub fn new(first: usize, last: usize) -> (r: Self)
        ensures
            r.first_byte == first,
            r.last_byte == last,
    {
        Self { first_byte: first, last_byte: last }
    }

    /// Number of bytes in the range. The one range whose size does not fit a
    /// `usize`, the whole address space, is left out.
    pub fn count(&self) -> (n: usize)
        requires
            self.wf(),
            self.spec_count() <= usize::MAX,
        ensures
            n == self.spec_count(),
    {
        self.last_byte - self.first_byte + 1
    }
}

/// How many pieces of `step` bytes cover `total` bytes: the quotient rounded up.
pub open spec fn piece_count(total: int, step: int) -> int {
    if step <= 0 || total <= 0 {
        0
    } else {
        (total + step - 1) / step
    }
}

/// First byte of piece `i`.
pub open spec fn piece_first(step: int, i: int) -> int {
    i * step
}

/// Last byte of piece `i`: one before the next piece, or before the end.
pub open spec fn piece_last(total: int, step: int, i: int) -> int {
    if (i + 1) * step <= total {
        (i + 1) * step - 1
    } else {
        total - 1
    }
}

/// The pieces of `step` bytes that cover `[0, total)`, in ascending order.
pub open spec fn pieces(total: usize, step: usize) -> Seq<Range> {
    Seq::new(
        piece_count(total as int, step as int) as nat,
        |i: int|
            Range {
                first_byte: piece_first(step as int, i) as usize,
                last_byte: piece_last(total as int, step as int, i) as usize,
            },
    )
}

/// Sum of the sizes of the ranges in `s`.
pub open spec fn total_bytes(s: Seq<Range>) -> int
    decreases s.len(),
{
    if s.len() == 0 {
        0
    } else {
        total_bytes(s.drop_last()) + s.last().spec_count()
    }
}

/// Bytes covered by the first `k` pieces.
pub open spec fn covered(total: int, step: int, k: int) -> int {
    if k * step <= total {
        k * step
    } else {
        total
    }
}

/// The count is the least number of pieces that reaches `total`.
pub proof fn lemma_piece_count_is_ceiling(total: int, step: int)
    requires
        total >= 0,
        step > 0,
    ensures
        piece_count(total, step) >= 0,
        piece_count(total, step) * step >= total,
        total > 0 ==> (piece_count(total, step) - 1) * step < total,
        total == 0 ==> piece_count(total, step) == 0,
{
    if total > 0 {
        let n = (total + step - 1) / step;
        assert(n * step <= total + step - 1 && n * step > total - 1 && (n - 1) * step == n * step
            - step) by (nonlinear_arith)
            requires
                n == (total + step - 1) / step,
                step > 0,
        ;
    }
}

/// Bounds of piece `i`: it starts inside `[0, total)`, is not empty, holds at
/// most `step` bytes and ends inside `[0, total)`.
pub proof fn lemma_piece_bounds(total: int, step: int, i: int)
    requires
        total >= 0,
        step > 0,
        0 <= i < piece_count(total, step),
    ensures
        0 <= piece_first(step, i) <= piece_last(total, step, i) < total,
        piece_last(total, step, i) - piece_first(step, i) < step,
        piece_last(total, step, i) + 1 == covered(total, step, i + 1),
        piece_first(step, i) == covered(total, step, i),
        i + 1 < piece_count(total, step) ==> (i + 1) * step < total,
        (i + 1) * step < total ==> i + 1 < piece_count(total, step),
{
    lemma_piece_count_is_ceiling(total, step);
    let n = piece_count(total, step);
    assert(i * step <= (n - 1) * step && i * step >= 0 && (i + 1) * step == i * step + step)
        by (nonlinear_arith)
        requires
            0 <= i <= n - 1,
            step > 0,
    ;
    if i + 1 < n {
        assert((i + 1) * step <= (n - 1) * step) by (nonlinear_arith)
            requires
                i + 1 <= n - 1,
                step > 0,
        ;
    }
    if (i + 1) * step < total {
        if i + 1 >= n {
            assert((i + 1) * step >= n * step) by (nonlinear_arith)
                requires
                    i + 1 >= n,
                    step > 0,
            ;
        }
    }
}

/// Every piece is a range of at most `step` bytes whose bounds fit a `usize`.
pub proof fn lemma_piece_at(total: usize, step: usize, i: int)
    requires
        step > 0,
        0 <= i < piece_count(total as int, step as int),
    ensures
        pieces(total, step).len() == piece_count(total as int, step as int),
        pieces(total, step)[i].first_byte == piece_first(step as int, i),
        pieces(total, step)[i].last_byte == piece_last(total as int, step as int, i),
        pieces(total, step)[i].wf(),
        1 <= pieces(total, step)[i].spec_count() <= step,
{
    lemma_piece_bounds(total as int, step as int, i);
}

/// The first `k` pieces hold `covered(total, step, k)` bytes between them.
pub proof fn lemma_total_bytes_prefix(total: usize, step: usize, k: int)
    requires
        step > 0,
        0 <= k <= piece_count(total as int, step as int),
    ensures
        total_bytes(pieces(total, step).take(k)) == covered(total as int, step as int, k),
    decreases k,
{
    let s = pieces(total, step);
    let p = s.take(k);
    if k == 0 {
        assert(0 * (step as int) == 0) by (nonlinear_arith);
    } else {
        lemma_total_bytes_prefix(total, step, k - 1);
        lemma_piece_at(total, step, k - 1);
        lemma_piece_bounds(total as int, step as int, k - 1);
        assert(p.drop_last() =~= s.take(k - 1));
        assert(p.last() == s[k - 1]);
    }
}

/// The pieces are well formed, start at byte 0, follow one another without a
/// gap or an overlap, end at the last byte, and hold `total` bytes between
/// them.
pub proof fn lemma_pieces_cover(total: usize, step: usize)
    requires
        step > 0,
    ensures
        pieces(total, step).len() == piece_count(total as int, step as int),
        total == 0 ==> pieces(total, step).len() == 0,
        forall|i: int|
            0 <= i < pieces(total, step).len() ==> (#[trigger] pieces(total, step)[i]).wf()
                && pieces(total, step)[i].spec_count() <= step,
        total > 0 ==> pieces(total, step).len() > 0 && pieces(total, step)[0].first_byte == 0
            && pieces(total, step).last().last_byte + 1 == total,
        forall|i: int|
            0 <= i < pieces(total, step).len() - 1 ==> (#[trigger] pieces(
                total,
                step,
            )[i]).last_byte + 1 == pieces(total, step)[i + 1].first_byte,
        total_bytes(pieces(total, step)) == total,
{
    let s = pieces(total, step);
    let n = piece_count(total as int, step as int);
    lemma_piece_count_is_ceiling(total as int, step as int);
    assert forall|i: int| 0 <= i < s.len() implies (#[trigger] s[i]).wf() && s[i].spec_count()
        <= step by {
        lemma_piece_at(total, step, i);
    }
    assert forall|i: int| 0 <= i < s.len() - 1 implies (#[trigger] s[i]).last_byte + 1 == s[i
        + 1].first_byte by {
        lemma_piece_at(total, step, i);
        lemma_piece_at(total, step, i + 1);
        lemma_piece_bounds(total as int, step as int, i);
        lemma_piece_bounds(total as int, step as int, i + 1);
    }
    if total > 0 {
        lemma_piece_at(total, step, 0);
        lemma_piece_at(total, step, n - 1);
        lemma_piece_bounds(total as int, step as int, 0);
        lemma_piece_bounds(total as int, step as int, n - 1);
        assert(0 * (step as int) == 0) by (nonlinear_arith);
    }
    lemma_total_bytes_prefix(total, step, n);
    assert(s.take(n) =~= s);
}

/// A cursor over the pieces of a length: it hands them out one at a time, in
/// ascending order, and computes each only when asked.
#[derive(Debug, Clone, Copy)]
pub struct RangeIter {
    total: usize,
    step: usize,
    index: usize,
    offset: usize,
}

impl RangeIter {
    /// The cursor stands on a piece boundary of its sequence.
    pub closed spec fn wf(&self) -> bool {
        &&& self.step > 0
        &&& self.index <= piece_count(self.total as int, self.step as int)
        &&& self.offset == covered(self.total as int, self.step as int, self.index as int)
    }

    /// The length that is being cut.
    pub closed spec fn total(&self) -> usize {
        self.total
    }

    /// The size of each piece but the last.
    pub closed spec fn step(&self) -> usize {
        self.step
    }

    /// How many pieces were handed out.
    pub closed spec fn position(&self) -> int {
        self.index as int
    }

    /// The pieces still to come.
    pub open spec fn remaining(&self) -> Seq<Range> {
        pieces(self.total(), self.step()).skip(self.position())
    }

    /// A cursor before the first piece of `total` bytes cut by `step`.
    pub fn new(total: usize, step: usize) -> (it: Self)
        requires
            step > 0,
        ensures
            it.wf(),
            it.total() == total,
            it.step() == step,
            it.position() == 0,
            it.remaining() == pieces(total, step),
    {
        proof {
            assert(0 * (step as int) == 0) by (nonlinear_arith);
            assert(pieces(total, step).skip(0) =~= pieces(total, step));
        }
        RangeIter { total, step, index: 0, offset: 0 }
    }

    /// Hands out the next piece, or `None` once all were handed out.
    pub fn next(&mut self) -> (r: Option<Range>)
        requires
            old(self).wf(),
        ensures
            final(self).wf(),
            final(self).total() == old(self).total(),
            final(self).step() == old(self).step(),
            0 <= old(self).position() <= pieces(old(self).total(), old(self).step()).len(),
            old(self).remaining().len() == 0 ==> r.is_none() && final(self).position() == old(self).position(),
            old(self).remaining().len() > 0 ==> r == Some(old(self).remaining()[0]) && final(self).position() == old(self).position() + 1,
            final(self).remaining() == pieces(old(self).total(), old(self).step()).skip(
                final(self).position(),
            ),
    {
        let ghost total = self.total as int;
        let ghost step = self.step as int;
        let ghost i = self.index as int;
        let ghost n = piece_count(total, step);
        proof {
            lemma_piece_count_is_ceiling(total, step);
            if i < n {
                assert(i * step <= (n - 1) * step) by (nonlinear_arith)
                    requires
                        0 <= i <= n - 1,
                        step > 0,
                ;
                assert((i + 1) * step == i * step + step) by (nonlinear_arith);
            }
            assert(i >= n ==> i * step >= total) by (nonlinear_arith)
                requires
                    n * step >= total,
                    step > 0,
            ;
            assert(n <= total) by (nonlinear_arith)
                requires
                    total > 0 ==> (n - 1) * step < total,
                    total == 0 ==> n == 0,
                    step > 0,
                    total >= 0,
            ;
        }
        if self.offset >= self.total {
            return None;
        }
        proof {
            lemma_piece_at(self.total, self.step, i);
            lemma_piece_bounds(total, step, i);
        }
        let room: usize = self.total - self.offset;
        let len: usize = if self.step < room {
            self.step
        } else {
            room
        };
        let range = Range { first_byte: self.offset, last_byte: self.offset + len - 1 };
        self.offset = self.offset + len;
        self.index = self.index + 1;
        Some(range)
    }
}

} // verus!
