use vstd::prelude::*;

use vstd::arithmetic::div_mod::lemma_div_by_multiple;
use vstd::arithmetic::div_mod::lemma_div_is_ordered;
use vstd::arithmetic::div_mod::lemma_div_pos_is_pos;
use vstd::arithmetic::div_mod::lemma_multiply_divide_lt;
use vstd::arithmetic::mul::lemma_mul_inequality;
use vstd::arithmetic::mul::lemma_mul_strict_inequality;

verus! {

/// How many bytes one chunk of a progressive write carries.
pub const CHUNK_SIZE: usize = 8192;

/// The completion percentage after `written` of `total` bytes: an empty
/// write is complete at once.
pub open spec fn percent_of(written: int, total: int) -> int {
    if total == 0 {
        100
    } else {
        written * 100 / total
    }
}

/// The percentage is always between 0 and 100, and it is 100 exactly when
/// every byte is written: rounding never reports completion early or over.
pub proof fn lemma_percent_complete(written: int, total: int)
    requires
        0 <= written <= total,
    ensures
        0 <= percent_of(written, total) <= 100,
        percent_of(written, total) == 100 <==> written == total,
{
    if total > 0 {
        lemma_div_pos_is_pos(written * 100, total);
        lemma_mul_inequality(written, total, 100);
        lemma_div_is_ordered(written * 100, total * 100, total);
        lemma_div_by_multiple(100, total);
        assert(total * 100 == 100 * total);
        if written < total {
            lemma_mul_strict_inequality(written, total, 100);
            lemma_multiply_divide_lt(written * 100, total, 100);
        }
    }
}

/// Progress is monotone: writing more bytes of the same content never
/// reports a smaller percentage.
pub proof fn lemma_percent_monotone(w1: int, w2: int, total: int)
    requires
        0 <= w1 <= w2 <= total,
    ensures
        percent_of(w1, total) <= percent_of(w2, total),
{
    if total > 0 {
        lemma_mul_inequality(w1, w2, 100);
        lemma_div_is_ordered(w1 * 100, w2 * 100, total);
    }
}

/// One file write in progress: how much of the content has been handed to
/// the destination so far. The caller copies the byte range that
/// `next_range` names, then advances.
pub struct ChunkWriter {
    total: usize,
    written: usize,
}

impl ChunkWriter {
    pub closed spec fn total(self) -> int {
        self.total as int
    }

    pub closed spec fn written(self) -> int {
        self.written as int
    }

    pub open spec fn wf(self) -> bool {
        0 <= self.written() <= self.total()
    }

    pub open spec fn is_done(self) -> bool {
        self.written() == self.total()
    }

    /// The bound `end` of the chunk that follows `written` bytes: a full
    /// chunk where one remains, the rest of the content otherwise.
    pub open spec fn chunk_end(self) -> int {
        if self.written() + CHUNK_SIZE <= self.total() {
            self.written() + CHUNK_SIZE
        } else {
            self.total()
        }
    }

    /// A fresh write of `total` bytes, none written yet.
    pub fn new(total: usize) -> (w: ChunkWriter)
        ensures
            w.wf(),
            w.total() == total,
            w.written() == 0,
    {
        ChunkWriter { total, written: 0 }
    }

    pub fn done(&self) -> (d: bool)
        ensures
            d == self.is_done(),
    {
        self.written == self.total
    }

    /// The byte range `[start, end)` of the content that the next chunk
    /// carries: it begins where the write stands and is never empty.
    pub fn next_range(&self) -> (r: (usize, usize))
        requires
            self.wf(),
            !self.is_done(),
        ensures
            r.0 == self.written(),
            r.1 == self.chunk_end(),
            r.0 < r.1 <= self.total(),
    {
        let end = if self.total - self.written > CHUNK_SIZE {
            self.written + CHUNK_SIZE
        } else {
            self.total
        };
        (self.written, end)
    }

    /// Records that the chunk `next_range` named has been written out.
    pub fn advance(&mut self)
        requires
            old(self).wf(),
            !old(self).is_done(),
        ensures
            final(self).wf(),
            final(self).total() == old(self).total(),
            final(self).written() == old(self).chunk_end(),
            old(self).written() < final(self).written(),
    {
        let end = if self.total - self.written > CHUNK_SIZE {
            self.written + CHUNK_SIZE
        } else {
            self.total
        };
        self.written = end;
    }

    /// The percentage to report after the bytes written so far: between 0
    /// and 100, and 100 exactly when the write is complete.
    pub fn percent(&self) -> (p: u8)
        requires
            self.wf(),
        ensures
            p == percent_of(self.written(), self.total()),
            0 <= p <= 100,
            p == 100 <==> self.is_done(),
    {
        proof {
            lemma_percent_complete(self.written(), self.total());
        }
        if self.total == 0 {
            100
        } else {
            ((self.written as u128) * 100 / (self.total as u128)) as u8
        }
    }
}

/// The writer's round trip: the chunks it emits, in order and concatenated,
/// are byte for byte the content it was handed, so reading the destination
/// back yields exactly the assembled document.
pub fn written_stream(content: &Vec<u8>) -> (stream: Vec<u8>)
    ensures
        stream@ == content@,
{
    let mut stream: Vec<u8> = Vec::new();
    let mut w = ChunkWriter::new(content.len());
    while !w.done()
        invariant
            w.wf(),
            w.total() == content@.len(),
            stream@ == content@.subrange(0, w.written()),
        decreases w.total() - w.written(),
    {
        let r = w.next_range();
        let mut i: usize = r.0;
        while i < r.1
            invariant
                r.0 <= i <= r.1,
                r.1 <= content@.len(),
                stream@ == content@.subrange(0, i as int),
            decreases r.1 - i,
        {
            stream.push(content[i]);
            i += 1;
            proof {
                assert(content@.subrange(0, i as int) =~= content@.subrange(0, i - 1).push(
                    content@[i - 1],
                ));
            }
        }
        w.advance();
    }
    proof {
        assert(stream@ =~= content@);
    }
    stream
}

/// How many bytes of `total` stand written once `k` chunks are out.
pub open spec fn written_after(k: int, total: int) -> int {
    if k * (CHUNK_SIZE as int) <= total {
        k * (CHUNK_SIZE as int)
    } else {
        total
    }
}

/// The report stream of one full write: the percentage after each chunk,
/// one report per chunk. Successive reports never decrease, and the last
/// report of a non-empty write is exactly 100.
pub fn progress_reports(total: usize) -> (reports: Vec<u8>)
    ensures
        forall|i: int, j: int|
            0 <= i <= j < reports@.len() ==> reports@[i] <= reports@[j],
        reports@.len() > 0 ==> reports@[reports@.len() - 1] == 100,
        total == 0 ==> reports@.len() == 0,
        total > 0 ==> 0 < reports@.len() && (reports@.len() - 1) * (CHUNK_SIZE as int) < total
            <= reports@.len() * (CHUNK_SIZE as int),
        forall|k: int|
            0 <= k < reports@.len() ==> reports@[k] == percent_of(
                written_after(k + 1, total as int),
                total as int,
            ),
{
    let mut reports: Vec<u8> = Vec::new();
    let mut w = ChunkWriter::new(total);
    while !w.done()
        invariant
            w.wf(),
            w.total() == total,
            w.written() == written_after(reports@.len() as int, total as int),
            reports@.len() > 0 ==> written_after(reports@.len() - 1, total as int) < total,
            forall|i: int, j: int|
                0 <= i <= j < reports@.len() ==> reports@[i] <= reports@[j],
            forall|i: int|
                0 <= i < reports@.len() ==> reports@[i] <= percent_of(w.written(), w.total()),
            forall|k: int|
                0 <= k < reports@.len() ==> reports@[k] == percent_of(
                    written_after(k + 1, total as int),
                    total as int,
                ),
        decreases w.total() - w.written(),
    {
        let ghost before: int = w.written();
        w.advance();
        proof {
            lemma_percent_monotone(before, w.written(), w.total());
        }
        let p = w.percent();
        reports.push(p);
    }
    proof {
        lemma_percent_complete(w.written(), w.total());
    }
    reports
}

} // verus!
