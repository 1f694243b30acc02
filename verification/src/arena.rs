//! The stack memory that saved contexts live in: an explicitly sized,
//! explicitly owned run of machine words that starts at a known address.

use crate::layout::{content_bytes, word_bytes, word_size, CONTENT_WORDS};
use vstd::prelude::*;

verus! {

/// The mathematical model of an arena: the byte address of its first word and
/// the words it holds, lowest address first.
pub struct Region {
    pub base: usize,
    pub words: Seq<usize>,
}

impl Region {
    /// The byte address just above the last word.
    pub open spec fn top(self) -> int {
        self.base + self.words.len() * word_bytes()
    }

    /// Whether `count` words starting at `addr` lie inside the region, on
    /// word boundaries.
    pub open spec fn holds(self, addr: usize, count: nat) -> bool {
        &&& self.base <= addr
        &&& (addr - self.base) % word_bytes() == 0
        &&& addr + count * word_bytes() <= self.top()
    }

    /// Whether `addr` can be the address of a saved context: it is not the
    /// null address, and a whole context starting there lies inside the
    /// region.
    pub open spec fn holds_content(self, addr: usize) -> bool {
        addr != 0 && self.holds(addr, CONTENT_WORDS as nat)
    }

    /// The position in `words` of the word at `addr`.
    pub open spec fn index_of(self, addr: usize) -> int {
        (addr - self.base) / word_bytes()
    }

    /// The word at `addr`.
    pub open spec fn word_at(self, addr: usize) -> usize {
        self.words[self.index_of(addr)]
    }

    /// The `count` words starting at `addr`.
    pub open spec fn block_at(self, addr: usize, count: nat) -> Seq<usize> {
        self.words.subrange(self.index_of(addr), self.index_of(addr) + count)
    }

    /// The region after `block` is written at `addr`: the words of the block
    /// replace those at `addr` and above, every other word stays.
    pub open spec fn stored(self, addr: usize, block: Seq<usize>) -> Region {
        let first = self.index_of(addr);
        Region {
            base: self.base,
            words: Seq::new(
                self.words.len(),
                |i: int|
                    if first <= i < first + block.len() {
                        block[i - first]
                    } else {
                        self.words[i]
                    },
            ),
        }
    }
}

/// Whether the saved contexts at `a` and at `b` share no word.
pub open spec fn apart(a: usize, b: usize) -> bool {
    a + content_bytes() <= b || b + content_bytes() <= a
}

/// A block inside the region occupies the positions from the index of its
/// address up to that index plus its length, and its address is the base
/// plus that index in words.
pub proof fn lemma_block_bounds(region: Region, addr: usize, count: nat)
    requires
        region.holds(addr, count),
    ensures
        0 <= region.index_of(addr),
        region.index_of(addr) + count <= region.words.len(),
        addr == region.base + region.index_of(addr) * word_bytes(),
{
    let offset = addr - region.base;
    let size = word_bytes();
    assert(size == 4 || size == 8);
    assert(offset == (offset / size) * size) by (nonlinear_arith)
        requires
            offset % size == 0,
            size > 0,
    ;
    assert(offset / size + count <= region.words.len()) by (nonlinear_arith)
        requires
            offset == (offset / size) * size,
            offset + count * size <= region.words.len() * size,
            size > 0,
    ;
}

/// A region that holds a block holds every shorter block at the same address.
pub proof fn lemma_holds_shorter(region: Region, addr: usize, count: nat, shorter: nat)
    requires
        region.holds(addr, count),
        shorter <= count,
    ensures
        region.holds(addr, shorter),
{
    assert(shorter * word_bytes() <= count * word_bytes()) by (nonlinear_arith)
        requires
            shorter <= count,
            word_bytes() > 0,
    ;
}

/// The first words of a block are the block of that length at the same
/// address.
pub proof fn lemma_block_prefix(region: Region, addr: usize, count: nat, shorter: nat)
    requires
        region.holds(addr, count),
        shorter <= count,
    ensures
        region.block_at(addr, shorter) == region.block_at(addr, count).subrange(0, shorter as int),
{
    lemma_block_bounds(region, addr, count);
    assert(region.block_at(addr, shorter) =~= region.block_at(addr, count).subrange(
        0,
        shorter as int,
    ));
}

/// A block that was written can be read back from where it was written.
pub proof fn lemma_stored_block(region: Region, addr: usize, block: Seq<usize>)
    requires
        region.holds(addr, block.len()),
    ensures
        region.stored(addr, block).block_at(addr, block.len()) == block,
        region.stored(addr, block).holds(addr, block.len()),
{
    lemma_block_bounds(region, addr, block.len());
    assert(region.stored(addr, block).block_at(addr, block.len()) =~= block);
}

/// Writing a block changes neither where the region lies nor which blocks lie
/// inside it, and leaves every block that shares no word with it as it was.
pub proof fn lemma_stored_elsewhere(
    region: Region,
    addr: usize,
    block: Seq<usize>,
    other: usize,
    count: nat,
)
    requires
        region.holds(addr, block.len()),
        region.holds(other, count),
        other + count * word_bytes() <= addr || addr + block.len() * word_bytes() <= other,
    ensures
        region.stored(addr, block).holds(other, count),
        region.stored(addr, block).block_at(other, count) == region.block_at(other, count),
{
    lemma_block_bounds(region, addr, block.len());
    lemma_block_bounds(region, other, count);
    let size = word_bytes();
    let first = region.index_of(addr);
    let start = region.index_of(other);
    assert(start + count <= first || first + block.len() <= start) by (nonlinear_arith)
        requires
            size > 0,
            addr == region.base + first * size,
            other == region.base + start * size,
            other + count * size <= addr || addr + block.len() * size <= other,
    ;
    assert(region.stored(addr, block).block_at(other, count) =~= region.block_at(other, count));
}

/// Stack memory: the words of one contiguous, word-aligned range of
/// addresses, owned by whoever holds the arena.
pub struct Arena {
    base: usize,
    words: Vec<usize>,
}

impl View for Arena {
    type V = Region;

    closed spec fn view(&self) -> Region {
        Region { base: self.base, words: self.words@ }
    }
}

impl Arena {
    #[verifier::type_invariant]
    spec fn in_address_space(self) -> bool {
        &&& self.base % (word_bytes() as usize) == 0
        &&& self.base + self.words.len() * word_bytes() <= usize::MAX
    }

    /// Takes `words` as the memory that starts at the byte address `base`.
    /// The arena exists if `base` is word-aligned and its last word ends
    /// within the address space.
    pub fn new(base: usize, words: Vec<usize>) -> (arena: Option<Arena>)
        ensures
            arena is Some <==> base % (word_bytes() as usize) == 0 && base + words.len()
                * word_bytes() <= usize::MAX,
            arena matches Some(a) ==> a@ == (Region { base, words: words@ }),
    {
        let size = word_size();
        if base % size != 0 {
            return None;
        }
        if words.len() > (usize::MAX - base) / size {
            return None;
        }
        Some(Arena { base, words })
    }

    /// The byte address of the first word.
    pub fn base(&self) -> (addr: usize)
        ensures
            addr == self@.base,
    {
        self.base
    }

    /// The number of words.
    pub fn len(&self) -> (count: usize)
        ensures
            count == self@.words.len(),
    {
        self.words.len()
    }

    /// The byte address just above the last word.
    pub fn top(&self) -> (addr: usize)
        ensures
            addr == self@.top(),
    {
        proof {
            use_type_invariant(self);
        }
        self.base + self.words.len() * word_size()
    }

    /// Whether `count` words starting at `addr` lie inside the arena, on word
    /// boundaries.
    pub fn contains(&self, addr: usize, count: usize) -> (inside: bool)
        ensures
            inside == self@.holds(addr, count as nat),
    {
        proof {
            use_type_invariant(self);
        }
        let size = word_size();
        if addr < self.base || (addr - self.base) % size != 0 {
            return false;
        }
        let first = (addr - self.base) / size;
        first <= self.words.len() && count <= self.words.len() - first
    }

    /// Whether `addr` can be the address of a saved context in this arena.
    pub fn contains_content(&self, addr: usize) -> (inside: bool)
        ensures
            inside == self@.holds_content(addr),
    {
        addr != 0 && self.contains(addr, CONTENT_WORDS)
    }

    /// The word at `addr`.
    pub fn read(&self, addr: usize) -> (word: usize)
        requires
            self@.holds(addr, 1),
        ensures
            word == self@.word_at(addr),
    {
        self.read_at(addr, 0)
    }

    /// The word `offset` words above `addr`.
    pub fn read_at(&self, addr: usize, offset: usize) -> (word: usize)
        requires
            self@.holds(addr, offset as nat + 1),
        ensures
            word == self@.words[self@.index_of(addr) + offset],
    {
        proof {
            use_type_invariant(self);
            lemma_block_bounds(self@, addr, offset as nat + 1);
        }
        let first = (addr - self.base) / word_size();
        self.words[first + offset]
    }

    /// Writes `block` at `addr` and above.
    pub fn store(&mut self, addr: usize, block: &[usize])
        requires
            old(self)@.holds(addr, block@.len()),
        ensures
            final(self)@ == old(self)@.stored(addr, block@),
    {
        proof {
            use_type_invariant(&*self);
            lemma_block_bounds(self@, addr, block@.len());
        }
        let first = (addr - self.base) / word_size();
        let mut i: usize = 0;
        while i < block.len()
            invariant
                i <= block@.len(),
                self.in_address_space(),
                first == old(self)@.index_of(addr),
                first + block@.len() <= self.words@.len(),
                self.base == old(self).base,
                self.words@.len() == old(self).words@.len(),
                forall|j: int|
                    0 <= j < self.words@.len() ==> self.words@[j] == if first <= j < first + i {
                        block@[j - first]
                    } else {
                        old(self).words@[j]
                    },
            decreases block@.len() - i,
        {
            self.words[first + i] = block[i];
            i += 1;
        }
        assert(self@.words =~= old(self)@.stored(addr, block@).words);
    }
}

} // verus!
