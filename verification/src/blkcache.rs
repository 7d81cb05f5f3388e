//! A small write-back cache of blocks, and the service in front of it.
use vstd::prelude::*;

use crate::ids::ThreadId;
use crate::ipc::{Message, NO_TRANSFER_CAP};
use crate::seqs;

verus! {

/// Lines of the cache.
pub const MAX_CACHE_LINES: usize = 16;

/// One cached block.
#[derive(Clone, Copy, Debug, PartialEq, Eq, Structural)]
pub struct CacheLine {
    pub block: u64,
    pub value: u64,
    /// Written since the last flush.
    pub dirty: bool,
}

/// Lines that hold `block`.
pub open spec fn holds_block(block: u64) -> spec_fn(Option<CacheLine>) -> bool {
    |l: Option<CacheLine>| l is Some && l->0.block == block
}

/// Lines that hold nothing.
pub open spec fn is_vacant() -> spec_fn(Option<CacheLine>) -> bool {
    |l: Option<CacheLine>| l is None
}

/// Lines to be written back.
pub open spec fn is_dirty() -> spec_fn(Option<CacheLine>) -> bool {
    |l: Option<CacheLine>| l is Some && l->0.dirty
}

/// `n` plus one, within the range of the type.
pub open spec fn counted(n: u64) -> u64 {
    if n < u64::MAX {
        (n + 1) as u64
    } else {
        n
    }
}

/// The line after it was written back.
pub open spec fn cleaned(line: Option<CacheLine>) -> Option<CacheLine> {
    match line {
        Some(l) => Some(CacheLine { dirty: false, ..l }),
        None => None,
    }
}

/// The state of a cache.
#[verifier::ext_equal]
pub struct Cached {
    pub lines: Seq<Option<CacheLine>>,
    pub puts: u64,
    pub gets: u64,
    pub evictions: u64,
}

impl Cached {
    /// All lines are there and no block is cached twice.
    pub open spec fn wf(self) -> bool {
        &&& self.lines.len() == MAX_CACHE_LINES
        &&& forall|i: int, j: int|
            0 <= i < j < self.lines.len() && (#[trigger] self.lines[i]) is Some && (
            #[trigger] self.lines[j]) is Some ==> self.lines[i]->0.block != self.lines[j]->0.block
    }

    /// The line that holds `block`, or the number of lines.
    pub open spec fn line_of(self, block: u64) -> int {
        seqs::first_where(self.lines, holds_block(block))
    }

    /// The first vacant line, or the number of lines.
    pub open spec fn vacant_line(self) -> int {
        seqs::first_where(self.lines, is_vacant())
    }

    /// Must a line be given up for `block`?
    pub open spec fn must_evict(self, block: u64) -> bool {
        self.line_of(block) >= self.lines.len() && self.vacant_line() >= self.lines.len()
    }

    /// The line that a write of `block` goes to: its own, else a vacant one, else the first.
    pub open spec fn target(self, block: u64) -> int {
        if self.line_of(block) < self.lines.len() {
            self.line_of(block)
        } else if self.vacant_line() < self.lines.len() {
            self.vacant_line()
        } else {
            0
        }
    }

    /// The state after a write.
    pub open spec fn written(self, block: u64, value: u64) -> Cached {
        Cached {
            lines: self.lines.update(
                self.target(block),
                Some(CacheLine { block, value, dirty: true }),
            ),
            puts: counted(self.puts),
            evictions: if self.must_evict(block) {
                counted(self.evictions)
            } else {
                self.evictions
            },
            ..self
        }
    }

    /// The cached value of `block`.
    pub open spec fn value_of(self, block: u64) -> Option<u64> {
        if self.line_of(block) < self.lines.len() {
            Some(self.lines[self.line_of(block)]->0.value)
        } else {
            None
        }
    }

    /// The state after a read.
    pub open spec fn read(self) -> Cached {
        Cached { gets: counted(self.gets), ..self }
    }

    /// How many lines are to be written back.
    pub open spec fn dirty_lines(self) -> nat {
        seqs::count_where(self.lines, is_dirty())
    }

    /// The state after everything was written back.
    pub open spec fn flushed(self) -> Cached {
        Cached { lines: self.lines.map_values(|l: Option<CacheLine>| cleaned(l)), ..self }
    }
}

/// A write-back cache of blocks.
#[derive(Clone, Copy, Debug, PartialEq, Eq)]
pub struct BlockCache {
    lines: [Option<CacheLine>; 16],
    puts: u64,
    gets: u64,
    evictions: u64,
}

impl View for BlockCache {
    type V = Cached;

    closed spec fn view(&self) -> Cached {
        Cached {
            lines: self.lines@,
            puts: self.puts,
            gets: self.gets,
            evictions: self.evictions,
        }
    }
}

impl Default for BlockCache {
    fn default() -> (r: Self)
        ensures
            r@.wf(),
            forall|i: int| 0 <= i < MAX_CACHE_LINES ==> r@.lines[i] is None,
            r@.puts == 0 && r@.gets == 0 && r@.evictions == 0,
    {
        BlockCache::new()
    }
}

fn saturating_step(n: u64) -> (r: u64)
    ensures
        r == counted(n),
{
    if n < u64::MAX {
        n + 1
    } else {
        n
    }
}

impl BlockCache {
    /// An empty cache.
    pub fn new() -> (r: Self)
        ensures
            r@.wf(),
            forall|i: int| 0 <= i < MAX_CACHE_LINES ==> r@.lines[i] is None,
            r@.puts == 0 && r@.gets == 0 && r@.evictions == 0,
    {
        BlockCache { lines: [None; 16], puts: 0, gets: 0, evictions: 0 }
    }

    /// Writes, reads and evictions so far.
    pub fn stats(&self) -> (r: (u64, u64, u64))
        ensures
            r == (self@.puts, self@.gets, self@.evictions),
    {
        (self.puts, self.gets, self.evictions)
    }

    /// The line that holds `block`, or the number of lines.
    fn find(&self, block: u64) -> (r: usize)
        ensures
            r == self@.line_of(block),
            self@.lines.len() == MAX_CACHE_LINES,
    {
        let mut i: usize = 0;
        while i < MAX_CACHE_LINES
            invariant
                i <= MAX_CACHE_LINES,
                self@.lines == self.lines@,
                self@.lines.len() == MAX_CACHE_LINES,
                forall|j: int| 0 <= j < i ==> !holds_block(block)(#[trigger] self@.lines[j]),
            decreases MAX_CACHE_LINES - i,
        {
            if let Some(line) = self.lines[i] {
                if line.block == block {
                    proof {
                        seqs::lemma_first_where_is(self@.lines, holds_block(block), i as int);
                    }
                    return i;
                }
            }
            i += 1;
        }
        proof {
            seqs::lemma_first_where_is(self@.lines, holds_block(block), i as int);
        }
        i
    }

    /// The first vacant line, or the number of lines.
    fn find_vacant(&self) -> (r: usize)
        ensures
            r == self@.vacant_line(),
    {
        let mut i: usize = 0;
        while i < MAX_CACHE_LINES
            invariant
                i <= MAX_CACHE_LINES,
                self@.lines == self.lines@,
                self@.lines.len() == MAX_CACHE_LINES,
                forall|j: int| 0 <= j < i ==> !is_vacant()(#[trigger] self@.lines[j]),
            decreases MAX_CACHE_LINES - i,
        {
            if self.lines[i].is_none() {
                proof {
                    seqs::lemma_first_where_is(self@.lines, is_vacant(), i as int);
                }
                return i;
            }
            i += 1;
        }
        proof {
            seqs::lemma_first_where_is(self@.lines, is_vacant(), i as int);
        }
        i
    }

    /// Writes a block.  A block that is cached keeps its line; else it takes a vacant line, and
    /// where there is none the first line is given up.
    pub fn put(&mut self, block: u64, value: u64)
        ensures
            final(self)@ == old(self)@.written(block, value),
            old(self)@.wf() ==> final(self)@.wf(),
    {
        proof {
            if self@.wf() {
                law_write_keeps_lines_apart(self@, block, value);
            }
        }
        self.puts = saturating_step(self.puts);
        let line = Some(CacheLine { block, value, dirty: true });
        let own: usize = self.find(block);
        if own < MAX_CACHE_LINES {
            self.lines[own] = line;
            return ;
        }
        let vacant: usize = self.find_vacant();
        if vacant < MAX_CACHE_LINES {
            self.lines[vacant] = line;
            return ;
        }
        self.evictions = saturating_step(self.evictions);
        self.lines[0] = line;
    }

    /// Reads a block.
    pub fn get(&mut self, block: u64) -> (r: Option<u64>)
        ensures
            r == old(self)@.value_of(block),
            final(self)@ == old(self)@.read(),
    {
        self.gets = saturating_step(self.gets);
        let i: usize = self.find(block);
        if i < MAX_CACHE_LINES {
            if let Some(line) = self.lines[i] {
                proof {
                    seqs::lemma_first_where(self@.lines, holds_block(block));
                }
                return Some(line.value);
            }
        }
        proof {
            seqs::lemma_first_where(self@.lines, holds_block(block));
        }
        None
    }

    /// Writes everything back; says how many lines there were to write.
    pub fn flush_dirty_count(&mut self) -> (r: u64)
        ensures
            r == old(self)@.dirty_lines(),
            final(self)@ == old(self)@.flushed(),
            old(self)@.wf() ==> final(self)@.wf(),
    {
        let ghost before = self@.lines;
        let mut flushed: u64 = 0;
        let mut i: usize = 0;
        assert(before.take(0).len() == 0);
        while i < MAX_CACHE_LINES
            invariant
                i <= MAX_CACHE_LINES,
                before == old(self)@.lines,
                before.len() == MAX_CACHE_LINES,
                self.lines@.len() == MAX_CACHE_LINES,
                flushed <= i,
                flushed == seqs::count_where(before.take(i as int), is_dirty()),
                self@ == (Cached { lines: self.lines@, ..old(self)@ }),
                forall|j: int| 0 <= j < i ==> #[trigger] self.lines@[j] == cleaned(before[j]),
                forall|j: int|
                    i <= j < MAX_CACHE_LINES ==> #[trigger] self.lines@[j] == before[j],
            decreases MAX_CACHE_LINES - i,
        {
            proof {
                seqs::lemma_count_step(before, is_dirty(), i as int);
            }
            if let Some(line) = self.lines[i] {
                if line.dirty {
                    self.lines[i] = Some(CacheLine { dirty: false, ..line });
                    flushed += 1;
                }
            }
            i += 1;
        }
        assert(before.take(MAX_CACHE_LINES as int) =~= before);
        assert(self@ =~= old(self)@.flushed());
        flushed
    }
}

/// No write makes a block cached twice.
pub proof fn law_write_keeps_lines_apart(c: Cached, block: u64, value: u64)
    requires
        c.wf(),
    ensures
        c.written(block, value).wf(),
{
    seqs::lemma_first_where(c.lines, holds_block(block));
    seqs::lemma_first_where(c.lines, is_vacant());
    let t = c.target(block);
    let after = c.written(block, value).lines;
    assert forall|i: int, j: int|
        0 <= i < j < after.len() && (#[trigger] after[i]) is Some && (
        #[trigger] after[j]) is Some implies after[i]->0.block != after[j]->0.block by {
        if i == t || j == t {
            let other = if i == t {
                j
            } else {
                i
            };
            assert(after[other] == c.lines[other]);
            if c.lines[other]->0.block == block {
                assert(holds_block(block)(c.lines[other]));
                assert(c.lines[t]->0.block == block);
            }
        } else {
            assert(c.lines[i] is Some && c.lines[j] is Some);
        }
    }
}

/// A read gives back what the last write of the block wrote.
pub proof fn law_read_gives_back_write(c: Cached, block: u64, value: u64)
    requires
        c.wf(),
    ensures
        c.written(block, value).value_of(block) == Some(value),
{
    law_write_keeps_lines_apart(c, block, value);
    seqs::lemma_first_where(c.lines, holds_block(block));
    seqs::lemma_first_where(c.lines, is_vacant());
    let after = c.written(block, value);
    let t = c.target(block);
    assert forall|j: int| 0 <= j < t implies !holds_block(block)(#[trigger] after.lines[j]) by {
        assert(after.lines[j] == c.lines[j]);
        if holds_block(block)(after.lines[j]) {
            assert(after.lines[j] is Some && after.lines[t] is Some);
        }
    }
    seqs::lemma_first_where_is(after.lines, holds_block(block), t);
}

/// A write leaves the value of every other block as it was, unless the block stood in the line
/// that had to be given up: then it is cached no more.
pub proof fn law_write_spares_others(c: Cached, block: u64, value: u64, other: u64)
    requires
        c.wf(),
        other != block,
    ensures
        c.written(block, value).value_of(other) == if c.must_evict(block) && c.line_of(other) == 0 {
            None
        } else {
            c.value_of(other)
        },
{
    law_write_keeps_lines_apart(c, block, value);
    seqs::lemma_first_where(c.lines, holds_block(block));
    seqs::lemma_first_where(c.lines, holds_block(other));
    seqs::lemma_first_where(c.lines, is_vacant());
    let after = c.written(block, value);
    let t = c.target(block);
    let o = c.line_of(other);
    if o < c.lines.len() && !(c.must_evict(block) && o == 0) {
        assert(o != t);
        assert(after.lines[o] == c.lines[o]);
        assert forall|j: int| 0 <= j < o implies !holds_block(other)(#[trigger] after.lines[j]) by {
            if j != t {
                assert(after.lines[j] == c.lines[j]);
            }
        }
        seqs::lemma_first_where_is(after.lines, holds_block(other), o);
    } else {
        let n = c.lines.len() as int;
        assert forall|j: int| 0 <= j < n implies !holds_block(other)(#[trigger] after.lines[j]) by {
            if j != t {
                assert(after.lines[j] == c.lines[j]);
                if holds_block(other)(c.lines[j]) {
                    assert(o < n);
                    assert(c.lines[0] is Some && c.lines[j] is Some);
                }
            }
        }
        seqs::lemma_first_where_is(after.lines, holds_block(other), n);
    }
}

/// A flush leaves nothing to flush, and every value as it was.
pub proof fn law_flush_is_complete(c: Cached, block: u64)
    requires
        c.wf(),
    ensures
        c.flushed().wf(),
        c.flushed().dirty_lines() == 0,
        c.flushed().flushed() == c.flushed(),
        c.flushed().value_of(block) == c.value_of(block),
{
    let after = c.flushed();
    seqs::lemma_first_where(c.lines, holds_block(block));
    seqs::lemma_first_where(after.lines, is_dirty());
    seqs::lemma_count_zero(after.lines, is_dirty());
    assert(forall|j: int|
        0 <= j < after.lines.len() ==> #[trigger] after.lines[j] == cleaned(c.lines[j]));
    assert(after.flushed() =~= after);
    let i = c.line_of(block);
    assert forall|j: int| 0 <= j < i implies !holds_block(block)(#[trigger] after.lines[j]) by {
        assert(!holds_block(block)(c.lines[j]));
    }
    seqs::lemma_first_where_is(after.lines, holds_block(block), i);
    assert forall|i: int, j: int|
        0 <= i < j < after.lines.len() && (#[trigger] after.lines[i]) is Some && (
        #[trigger] after.lines[j]) is Some implies after.lines[i]->0.block
        != after.lines[j]->0.block by {
        assert(c.lines[i] is Some && c.lines[j] is Some);
    }
}

/// A write between two flushes is all that the second one finds.
pub proof fn law_flush_counts_the_write_behind_it(c: Cached, block: u64, value: u64)
    requires
        c.wf(),
    ensures
        c.flushed().written(block, value).dirty_lines() == 1,
        c.flushed().written(block, value).read().dirty_lines() == 1,
        c.flushed().read().written(block, value).dirty_lines() == 1,
{
    let clean = c.flushed();
    law_flush_is_complete(c, block);
    seqs::lemma_first_where(clean.lines, holds_block(block));
    seqs::lemma_first_where(clean.lines, is_vacant());
    seqs::lemma_first_where(clean.lines, is_dirty());
    seqs::lemma_count_zero(clean.lines, is_dirty());
    let t = clean.target(block);
    assert(!is_dirty()(clean.lines[t]));
    seqs::lemma_count_update(
        clean.lines,
        t,
        Some(CacheLine { block, value, dirty: true }),
        is_dirty(),
    );
}

/// Lines that hold a block.
pub open spec fn is_filled() -> spec_fn(Option<CacheLine>) -> bool {
    |l: Option<CacheLine>| l is Some
}

/// One operation on a cache.
pub enum CacheOp {
    Put { block: u64, value: u64 },
    Get { block: u64 },
    Flush,
}

impl Cached {
    /// How many lines hold a block.
    pub open spec fn filled_lines(self) -> nat {
        seqs::count_where(self.lines, is_filled())
    }

    /// Has no line been filled?
    pub open spec fn is_empty(self) -> bool {
        forall|i: int| 0 <= i < self.lines.len() ==> self.lines[i] is None
    }

    /// The state after one operation.
    pub open spec fn after_op(self, op: CacheOp) -> Cached {
        match op {
            CacheOp::Put { block, value } => self.written(block, value),
            CacheOp::Get { .. } => self.read(),
            CacheOp::Flush => self.flushed(),
        }
    }

    /// The state after a history of operations.
    pub open spec fn after_ops(self, ops: Seq<CacheOp>) -> Cached
        decreases ops.len(),
    {
        if ops.len() == 0 {
            self
        } else {
            self.after_ops(ops.drop_last()).after_op(ops.last())
        }
    }
}

/// The distinct blocks that a history writes.
pub open spec fn blocks_written(ops: Seq<CacheOp>) -> Set<u64>
    decreases ops.len(),
{
    if ops.len() == 0 {
        Set::empty()
    } else {
        match ops.last() {
            CacheOp::Put { block, .. } => blocks_written(ops.drop_last()).insert(block),
            _ => blocks_written(ops.drop_last()),
        }
    }
}

/// What holds behind every history: cached blocks were written, no more lines are filled than
/// blocks were written, and as long as there is a line for each, each is cached.
proof fn lemma_history(c: Cached, ops: Seq<CacheOp>)
    requires
        c.wf(),
        c.is_empty(),
    ensures
        c.after_ops(ops).wf(),
        blocks_written(ops).finite(),
        c.after_ops(ops).filled_lines() == if blocks_written(ops).len() <= MAX_CACHE_LINES {
            blocks_written(ops).len()
        } else {
            MAX_CACHE_LINES as nat
        },
        blocks_written(ops).len() <= MAX_CACHE_LINES ==> forall|b: u64|
            blocks_written(ops).contains(b) ==> #[trigger] c.after_ops(ops).line_of(b)
                < MAX_CACHE_LINES,
        forall|b: u64|
            (#[trigger] c.after_ops(ops).line_of(b)) < MAX_CACHE_LINES ==> blocks_written(
                ops,
            ).contains(b),
    decreases ops.len(),
{
    if ops.len() == 0 {
        seqs::lemma_first_where(c.lines, is_filled());
        seqs::lemma_count_zero(c.lines, is_filled());
        assert forall|b: u64| #[trigger] c.line_of(b) >= MAX_CACHE_LINES by {
            seqs::lemma_first_where(c.lines, holds_block(b));
        }
    } else {
        lemma_history(c, ops.drop_last());
        let before = c.after_ops(ops.drop_last());
        let after = c.after_ops(ops);
        let seen = blocks_written(ops.drop_last());
        match ops.last() {
            CacheOp::Put { block, value } => {
                lemma_history_step(before, seen, block, value);
            },
            CacheOp::Get { .. } => {
                assert forall|b: u64| #[trigger] after.line_of(b) == before.line_of(b) by {}
            },
            CacheOp::Flush => {
                law_flush_is_complete(before, 0);
                lemma_flush_keeps_lines(before);
            },
        }
    }
}

/// A flush empties no line and moves no block.
proof fn lemma_flush_keeps_lines(c: Cached)
    ensures
        c.flushed().filled_lines() == c.filled_lines(),
        forall|b: u64| #[trigger] c.flushed().line_of(b) == c.line_of(b),
{
    let after = c.flushed();
    lemma_same_count(c.lines, after.lines);
    assert forall|b: u64| #[trigger] after.line_of(b) == c.line_of(b) by {
        let p = holds_block(b);
        seqs::lemma_first_where(c.lines, p);
        let i = c.line_of(b);
        assert forall|j: int| 0 <= j < i implies !p(#[trigger] after.lines[j]) by {
            assert(!p(c.lines[j]));
        }
        seqs::lemma_first_where_is(after.lines, p, i);
    }
}

proof fn lemma_same_count(a: Seq<Option<CacheLine>>, b: Seq<Option<CacheLine>>)
    requires
        a.len() == b.len(),
        forall|i: int| 0 <= i < a.len() ==> ((#[trigger] a[i]) is Some <==> b[i] is Some),
    ensures
        seqs::count_where(a, is_filled()) == seqs::count_where(b, is_filled()),
    decreases a.len(),
{
    if a.len() > 0 {
        lemma_same_count(a.drop_last(), b.drop_last());
        assert(a.last() is Some <==> b.last() is Some) by {
            assert(a[a.len() - 1] is Some <==> b[a.len() - 1] is Some);
        }
    }
}

proof fn lemma_history_step(c: Cached, seen: Set<u64>, block: u64, value: u64)
    requires
        c.wf(),
        seen.finite(),
        c.filled_lines() == if seen.len() <= MAX_CACHE_LINES {
            seen.len()
        } else {
            MAX_CACHE_LINES as nat
        },
        seen.len() <= MAX_CACHE_LINES ==> forall|b: u64|
            seen.contains(b) ==> #[trigger] c.line_of(b) < MAX_CACHE_LINES,
        forall|b: u64| (#[trigger] c.line_of(b)) < MAX_CACHE_LINES ==> seen.contains(b),
    ensures
        c.written(block, value).wf(),
        seen.insert(block).finite(),
        c.written(block, value).filled_lines() == if seen.insert(block).len() <= MAX_CACHE_LINES {
            seen.insert(block).len()
        } else {
            MAX_CACHE_LINES as nat
        },
        seen.insert(block).len() <= MAX_CACHE_LINES ==> forall|b: u64|
            seen.insert(block).contains(b) ==> #[trigger] c.written(block, value).line_of(b)
                < MAX_CACHE_LINES,
        forall|b: u64|
            (#[trigger] c.written(block, value).line_of(b)) < MAX_CACHE_LINES ==> seen.insert(
                block,
            ).contains(b),
{
    let after = c.written(block, value);
    let t = c.target(block);
    let line = Some(CacheLine { block, value, dirty: true });
    law_write_keeps_lines_apart(c, block, value);
    law_read_gives_back_write(c, block, value);
    seqs::lemma_first_where(c.lines, holds_block(block));
    seqs::lemma_first_where(c.lines, is_vacant());
    seqs::lemma_count_update(c.lines, t, line, is_filled());
    lemma_full_count(c.lines);
    assert(is_filled()(line));
    assert forall|b: u64|
        (#[trigger] after.line_of(b)) < MAX_CACHE_LINES implies seen.insert(block).contains(b) by {
        if b != block {
            law_write_spares_others(c, block, value, b);
            assert(after.value_of(b) is Some);
            assert(c.value_of(b) is Some);
            assert(c.line_of(b) < MAX_CACHE_LINES);
        }
    }
    if seen.insert(block).len() <= MAX_CACHE_LINES {
        assert forall|b: u64| seen.insert(block).contains(b) implies #[trigger] after.line_of(b)
            < MAX_CACHE_LINES by {
            if b != block {
                law_write_spares_others(c, block, value, b);
                assert(c.line_of(b) < MAX_CACHE_LINES);
                assert(!c.must_evict(block));
                assert(c.value_of(b) is Some);
                assert(after.value_of(b) is Some);
            } else {
                assert(after.value_of(block) is Some);
            }
        }
    }
}

/// All lines are filled exactly when none is vacant.
proof fn lemma_full_count(lines: Seq<Option<CacheLine>>)
    ensures
        seqs::count_where(lines, is_filled()) <= lines.len(),
        seqs::count_where(lines, is_filled()) == lines.len() <==> !seqs::any_where(
            lines,
            is_vacant(),
        ),
    decreases lines.len(),
{
    seqs::lemma_first_where(lines, is_vacant());
    if lines.len() > 0 {
        let init = lines.drop_last();
        lemma_full_count(init);
        seqs::lemma_first_where(init, is_vacant());
        if seqs::any_where(init, is_vacant()) {
            let f = seqs::first_where(init, is_vacant());
            assert(is_vacant()(lines[f]));
        } else if seqs::any_where(lines, is_vacant()) {
            let f = seqs::first_where(lines, is_vacant());
            if f < init.len() {
                assert(is_vacant()(init[f]));
            }
        } else {
            assert(!is_vacant()(lines[lines.len() - 1]));
        }
        if is_vacant()(lines.last()) {
            assert(is_vacant()(lines[lines.len() - 1]));
        }
    }
}

/// Behind any history of an empty cache, as many lines are filled as distinct blocks were
/// written, up to the number of lines.
pub proof fn law_lines_hold_what_was_written(c: Cached, ops: Seq<CacheOp>)
    requires
        c.wf(),
        c.is_empty(),
    ensures
        c.after_ops(ops).wf(),
        c.after_ops(ops).filled_lines() == if blocks_written(ops).len() <= MAX_CACHE_LINES {
            blocks_written(ops).len()
        } else {
            MAX_CACHE_LINES as nat
        },
{
    lemma_history(c, ops);
}

/// What a file service refuses.
#[derive(Clone, Copy, Debug, PartialEq, Eq, Structural)]
pub enum VfsLiteError {
    Malformed,
}

/// A block cache that answers messages.
#[derive(Debug, Default)]
pub struct BlkCacheService {
    cache: BlockCache,
}

impl View for BlkCacheService {
    type V = Cached;

    closed spec fn view(&self) -> Cached {
        self.cache@
    }
}

/// Request: write.
pub const OP_PUT: u16 = 1;

/// Request: read.
pub const OP_GET: u16 = 2;

/// Request: write everything back.
pub const OP_FLUSH: u16 = 3;

/// The state after a request.
pub open spec fn served(c: Cached, opcode: u16) -> Cached {
    if opcode == OP_PUT {
        c.written(1, 1)
    } else if opcode == OP_GET {
        c.read()
    } else if opcode == OP_FLUSH {
        c.flushed()
    } else {
        c
    }
}

impl BlkCacheService {
    /// A service with an empty cache.
    pub fn new() -> (r: Self)
        ensures
            r@.wf(),
            forall|i: int| 0 <= i < MAX_CACHE_LINES ==> r@.lines[i] is None,
            r@.puts == 0 && r@.gets == 0 && r@.evictions == 0,
    {
        BlkCacheService { cache: BlockCache::new() }
    }

    /// Writes, reads and evictions so far.
    pub fn stats(&self) -> (r: (u64, u64, u64))
        ensures
            r == (self@.puts, self@.gets, self@.evictions),
    {
        self.cache.stats()
    }

    /// The cache itself.
    pub fn cache_mut(&mut self) -> (r: &mut BlockCache)
        ensures
            r@ == old(self)@,
            final(r)@ == final(self)@,
    {
        &mut self.cache
    }

    /// The name the service is registered under.
    pub fn service_name(&self) -> (r: &'static str)
        ensures
            r@ == "blkcache"@,
    {
        "blkcache"
    }

    /// Serves a request and answers it with an empty reply of the same operation.  Unknown
    /// operations are answered and do nothing.
    pub fn dispatch(&mut self, request: Message) -> (r: Result<Message, VfsLiteError>)
        ensures
            final(self)@ == served(old(self)@, request.opcode),
            old(self)@.wf() ==> final(self)@.wf(),
            r matches Ok(reply) && {
                &&& reply.sender_tid == ThreadId(0)
                &&& reply.opcode == request.opcode
                &&& reply.flags == 0
                &&& reply.transfer == NO_TRANSFER_CAP
                &&& reply.bytes() == seq![0u8]
                &&& forall|i: int| 1 <= i < 128 ==> reply.payload@[i] == 0
            },
    {
        if request.opcode == OP_PUT {
            self.cache.put(1, 1);
        } else if request.opcode == OP_GET {
            let _ = self.cache.get(1);
        } else if request.opcode == OP_FLUSH {
            let _ = self.cache.flush_dirty_count();
        }
        let payload: [u8; 1] = [0];
        assert(payload@ =~= seq![0u8]);
        match Message::with_header(0, request.opcode, 0, None, payload.as_slice()) {
            Some(reply) => Ok(reply),
            None => Err(VfsLiteError::Malformed),
        }
    }
}

/// Serves one request of each kind on an empty cache and returns the counts behind them.
pub fn demo() -> (r: (u64, u64, u64))
    ensures
        r == (1u64, 1u64, 0u64),
{
    let mut service = BlkCacheService::new();
    let payload: [u8; 1] = [0];
    let ghost empty = service@;
    proof {
        seqs::lemma_first_where_is(empty.lines, is_vacant(), 0);
    }
    let put = Message::with_header(0, OP_PUT, 0, None, payload.as_slice());
    let get = Message::with_header(0, OP_GET, 0, None, payload.as_slice());
    let flush = Message::with_header(0, OP_FLUSH, 0, None, payload.as_slice());
    if let (Some(put), Some(get), Some(flush)) = (put, get, flush) {
        let _ = service.dispatch(put);
        let _ = service.dispatch(get);
        let _ = service.dispatch(flush);
    }
    service.stats()
}

} // verus!
