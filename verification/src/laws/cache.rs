//! What the block cache and its service do, said of the lines and counts themselves.
use vstd::prelude::*;

use crate::blkcache::{CacheLine, Cached};
use crate::seqs;

verus! {

/// A write puts exactly one line in place: the one that held the block, else the first vacant
/// one, else the first.  That line holds the block and the value and is dirty, every other line
/// is as it was, and no other line holds the block.  The writes go up by one, the evictions by
/// one exactly when a line of another block was given up, and the reads not at all.
pub proof fn law_write_places_one_line(c: Cached, block: u64, value: u64)
    requires
        c.wf(),
    ensures
        c.written(block, value).lines.len() == c.lines.len(),
        exists|t: int|
            0 <= t < c.lines.len() && #[trigger] c.written(block, value).lines[t] == Some(
                CacheLine { block, value, dirty: true },
            ) && (forall|i: int|
                0 <= i < c.lines.len() && i != t ==> #[trigger] c.written(block, value).lines[i]
                    == c.lines[i] && !(c.lines[i] is Some && c.lines[i]->0.block == block))
                && match c.lines[t] {
                Some(line) => line.block == block || (t == 0 && forall|i: int|
                    0 <= i < c.lines.len() ==> (#[trigger] c.lines[i]) is Some),
                None => forall|i: int| 0 <= i < t ==> (#[trigger] c.lines[i]) is Some,
            },
        c.written(block, value).puts == (if c.puts < u64::MAX {
            c.puts + 1
        } else {
            c.puts as int
        }),
        c.written(block, value).gets == c.gets,
        c.written(block, value).evictions == (if c.evictions < u64::MAX && (forall|i: int|
            0 <= i < c.lines.len() ==> (#[trigger] c.lines[i]) is Some && c.lines[i]->0.block
                != block) {
            c.evictions + 1
        } else {
            c.evictions as int
        }),
{
    let after = c.written(block, value);
    let holds = crate::blkcache::holds_block(block);
    let vacant = crate::blkcache::is_vacant();
    seqs::lemma_first_where(c.lines, holds);
    seqs::lemma_first_where(c.lines, vacant);
    let t = c.target(block);
    assert(after.lines[t] == Some(CacheLine { block, value, dirty: true }));
    assert forall|i: int| 0 <= i < c.lines.len() && i != t implies #[trigger] after.lines[i]
        == c.lines[i] && !(c.lines[i] is Some && c.lines[i]->0.block == block) by {
        if holds(c.lines[i]) {
            assert(holds(c.lines[t]));
            assert(c.lines[i] is Some && c.lines[t] is Some);
        }
    }
    if forall|i: int|
        0 <= i < c.lines.len() ==> (#[trigger] c.lines[i]) is Some && c.lines[i]->0.block
            != block {
        assert(!seqs::any_where(c.lines, holds));
        assert(!seqs::any_where(c.lines, vacant));
    } else {
        let i = choose|i: int|
            0 <= i < c.lines.len() && !((#[trigger] c.lines[i]) is Some && c.lines[i]->0.block
                != block);
        assert(holds(c.lines[i]) || vacant(c.lines[i]));
    }
    if c.lines[t] is Some && c.lines[t]->0.block != block {
        assert forall|i: int| 0 <= i < c.lines.len() implies (#[trigger] c.lines[i]) is Some by {
            assert(!vacant(c.lines[i]));
        }
    }
    if c.lines[t] is None {
        assert forall|i: int| 0 <= i < t implies (#[trigger] c.lines[i]) is Some by {
            assert(!vacant(c.lines[i]));
        }
    }
}

/// A read finds a value exactly when a line holds the block, and then the value of that line.  It
/// counts as a read and changes nothing else.
pub proof fn law_read_finds_what_a_line_holds(c: Cached, block: u64, value: u64)
    requires
        c.wf(),
    ensures
        c.value_of(block) == Some(value) <==> exists|i: int|
            0 <= i < c.lines.len() && (#[trigger] c.lines[i]) is Some && c.lines[i]->0.block
                == block && c.lines[i]->0.value == value,
        c.value_of(block) is None <==> forall|i: int|
            0 <= i < c.lines.len() && (#[trigger] c.lines[i]) is Some ==> c.lines[i]->0.block
                != block,
        c.read().lines == c.lines,
        c.read().puts == c.puts,
        c.read().evictions == c.evictions,
        c.read().gets == (if c.gets < u64::MAX {
            c.gets + 1
        } else {
            c.gets as int
        }),
{
    let holds = crate::blkcache::holds_block(block);
    seqs::lemma_first_where(c.lines, holds);
    let f = c.line_of(block);
    if f < c.lines.len() {
        assert(holds(c.lines[f]));
        assert forall|i: int|
            0 <= i < c.lines.len() && (#[trigger] c.lines[i]) is Some && c.lines[i]->0.block
                == block implies i == f by {
            assert(c.lines[f] is Some);
        }
    } else {
        assert forall|i: int|
            0 <= i < c.lines.len() && (#[trigger] c.lines[i]) is Some implies c.lines[i]->0.block
            != block by {
            assert(!holds(c.lines[i]));
        }
    }
}

/// The places of the dirty lines.
pub open spec fn dirty_places(lines: Seq<Option<CacheLine>>) -> Set<int> {
    Set::new(|i: int| 0 <= i < lines.len() && lines[i] is Some && lines[i]->0.dirty)
}

proof fn lemma_dirty_count(lines: Seq<Option<CacheLine>>)
    ensures
        dirty_places(lines).finite(),
        dirty_places(lines).len() == seqs::count_where(lines, crate::blkcache::is_dirty()),
    decreases lines.len(),
{
    if lines.len() == 0 {
        assert(dirty_places(lines) =~= Set::empty());
    } else {
        let init = lines.drop_last();
        lemma_dirty_count(init);
        if crate::blkcache::is_dirty()(lines.last()) {
            assert(dirty_places(lines) =~= dirty_places(init).insert(lines.len() - 1));
            assert(!dirty_places(init).contains(lines.len() - 1));
        } else {
            assert(dirty_places(lines) =~= dirty_places(init));
        }
    }
}

/// A flush counts exactly the dirty lines, cleans them, and changes nothing else.
pub proof fn law_flush_cleans_and_counts(c: Cached)
    ensures
        c.dirty_lines() == dirty_places(c.lines).len(),
        c.flushed().lines.len() == c.lines.len(),
        forall|i: int|
            0 <= i < c.lines.len() ==> #[trigger] c.flushed().lines[i] == match c.lines[i] {
                Some(line) => Some(
                    CacheLine { block: line.block, value: line.value, dirty: false },
                ),
                None => None,
            },
        c.flushed().puts == c.puts,
        c.flushed().gets == c.gets,
        c.flushed().evictions == c.evictions,
{
    lemma_dirty_count(c.lines);
}

/// Behind a put request, whatever the cache held: some line holds block 1 with the value 1 and is
/// dirty, a read of block 1 gives 1, the next flush counts it, and the request counts as a write.
/// At most one other block is cached no more.
pub proof fn law_put_request_writes(c: Cached, other: u64)
    requires
        c.wf(),
    ensures
        crate::blkcache::served(c, 1).value_of(1) == Some(1u64),
        exists|t: int|
            0 <= t < crate::blkcache::served(c, 1).lines.len()
                && #[trigger] crate::blkcache::served(c, 1).lines[t] == Some(
                CacheLine { block: 1, value: 1, dirty: true },
            ) && forall|i: int|
                0 <= i < c.lines.len() && i != t ==> #[trigger] crate::blkcache::served(
                    c,
                    1,
                ).lines[i] == c.lines[i],
        crate::blkcache::served(c, 1).dirty_lines() >= 1,
        crate::blkcache::served(c, 1).puts == (if c.puts < u64::MAX {
            c.puts + 1
        } else {
            c.puts as int
        }),
        crate::blkcache::served(c, 1).gets == c.gets,
        crate::blkcache::served(c, 1).evictions == (if c.evictions < u64::MAX && (forall|i: int|
            0 <= i < c.lines.len() ==> (#[trigger] c.lines[i]) is Some && c.lines[i]->0.block
                != 1) {
            c.evictions + 1
        } else {
            c.evictions as int
        }),
        other != 1 && (exists|i: int|
            0 <= i < c.lines.len() && ((#[trigger] c.lines[i]) is None || c.lines[i]->0.block
                == 1)) ==> crate::blkcache::served(c, 1).value_of(other) == c.value_of(other),
{
    let after = crate::blkcache::served(c, 1);
    law_write_places_one_line(c, 1, 1);
    crate::blkcache::law_read_gives_back_write(c, 1, 1);
    let t = choose|t: int|
        0 <= t < c.lines.len() && #[trigger] c.written(1, 1).lines[t] == Some(
            CacheLine { block: 1, value: 1, dirty: true },
        ) && (forall|i: int|
            0 <= i < c.lines.len() && i != t ==> #[trigger] c.written(1, 1).lines[i] == c.lines[i]
                && !(c.lines[i] is Some && c.lines[i]->0.block == 1)) && match c.lines[t] {
            Some(line) => line.block == 1 || (t == 0 && forall|i: int|
                0 <= i < c.lines.len() ==> (#[trigger] c.lines[i]) is Some),
            None => forall|i: int| 0 <= i < t ==> (#[trigger] c.lines[i]) is Some,
        };
    assert(after.lines[t] == Some(CacheLine { block: 1, value: 1, dirty: true }));
    assert(crate::blkcache::is_dirty()(after.lines[t]));
    seqs::lemma_first_where(after.lines, crate::blkcache::is_dirty());
    seqs::lemma_count_zero(after.lines, crate::blkcache::is_dirty());
    if other != 1 {
        crate::blkcache::law_write_spares_others(c, 1, 1, other);
        seqs::lemma_first_where(c.lines, crate::blkcache::holds_block(1));
        seqs::lemma_first_where(c.lines, crate::blkcache::is_vacant());
        if exists|i: int|
            0 <= i < c.lines.len() && ((#[trigger] c.lines[i]) is None || c.lines[i]->0.block
                == 1) {
            let i = choose|i: int|
                0 <= i < c.lines.len() && ((#[trigger] c.lines[i]) is None || c.lines[i]->0.block
                    == 1);
            assert(crate::blkcache::holds_block(1)(c.lines[i]) || crate::blkcache::is_vacant()(
                c.lines[i],
            ));
        }
    }
}

/// A get request counts as a read, a flush request leaves no line dirty and every value where it
/// was, and any other request changes nothing.
pub proof fn law_other_requests(c: Cached, opcode: u16)
    ensures
        crate::blkcache::served(c, 2).lines == c.lines,
        crate::blkcache::served(c, 2).puts == c.puts,
        crate::blkcache::served(c, 2).evictions == c.evictions,
        crate::blkcache::served(c, 2).gets == (if c.gets < u64::MAX {
            c.gets + 1
        } else {
            c.gets as int
        }),
        crate::blkcache::served(c, 3).lines.len() == c.lines.len(),
        forall|i: int|
            0 <= i < c.lines.len() ==> #[trigger] crate::blkcache::served(c, 3).lines[i]
                == match c.lines[i] {
                Some(line) => Some(
                    CacheLine { block: line.block, value: line.value, dirty: false },
                ),
                None => None,
            },
        crate::blkcache::served(c, 3).puts == c.puts,
        crate::blkcache::served(c, 3).gets == c.gets,
        crate::blkcache::served(c, 3).evictions == c.evictions,
        opcode == 0 || opcode > 3 ==> crate::blkcache::served(c, opcode) == c,
{
    law_flush_cleans_and_counts(c);
}

} // verus!
