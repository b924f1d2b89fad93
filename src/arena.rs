//! A bump arena: blocks of bytes that live until the arena is dropped.

use vstd::prelude::*;

verus! {

/// An owning handle to an arena.
///
/// Blocks are handed out by index and keep their index until the arena is dropped; all of
/// them are released together when the handle goes away. Resizing a block moves its
/// contents to a fresh index and zaps the old one.
#[derive(Debug)]
pub struct Arena {
    blocks: Vec<Vec<u8>>,
}

impl View for Arena {
    type V = Seq<Seq<u8>>;

    /// The contents of every block, by index.
    closed spec fn view(&self) -> Seq<Seq<u8>> {
        self.blocks@.map_values(|b: Vec<u8>| b@)
    }
}

/// `after` holds every block of `before` unchanged, and possibly more after them.
pub open spec fn extends(before: Seq<Seq<u8>>, after: Seq<Seq<u8>>) -> bool {
    &&& before.len() <= after.len()
    &&& after.subrange(0, before.len() as int) == before
}

/// An arena extends itself.
pub proof fn lemma_extends_refl(s: Seq<Seq<u8>>)
    ensures
        extends(s, s),
{
    assert(s.subrange(0, s.len() as int) =~= s);
}

/// Growing an arena twice is growing it once.
pub proof fn lemma_extends_trans(a: Seq<Seq<u8>>, b: Seq<Seq<u8>>, c: Seq<Seq<u8>>)
    requires
        extends(a, b),
        extends(b, c),
    ensures
        extends(a, c),
{
    assert(c.subrange(0, a.len() as int) =~= c.subrange(0, b.len() as int).subrange(0, a.len() as int));
}

/// Adding one block extends an arena.
pub proof fn lemma_extends_push(s: Seq<Seq<u8>>, b: Seq<u8>)
    ensures
        extends(s, s.push(b)),
{
    assert(s.push(b).subrange(0, s.len() as int) =~= s);
}

/// `n` zero bytes.
pub open spec fn zeros(n: nat) -> Seq<u8> {
    Seq::new(n, |i: int| 0u8)
}

impl Arena {
    /// Allocates a fresh, empty arena.
    pub fn new() -> (r: Arena)
        ensures
            r@ == Seq::<Seq<u8>>::empty(),
    {
        let r = Arena { blocks: Vec::new() };
        assert(r@ =~= Seq::<Seq<u8>>::empty());
        r
    }

    /// Number of blocks handed out so far.
    pub fn num_blocks(&self) -> (r: usize)
        ensures
            r == self@.len(),
    {
        self.blocks.len()
    }

    /// Adds `b` as a new block and returns its index.
    fn push_block(&mut self, b: Vec<u8>) -> (r: usize)
        ensures
            r == old(self)@.len(),
            final(self)@ == old(self)@.push(b@),
    {
        let r = self.blocks.len();
        self.blocks.push(b);
        assert(self@ =~= old(self)@.push(b@));
        r
    }

    /// Allocates a block of `size` zero bytes and returns its index.
    pub fn allocate(&mut self, size: usize) -> (r: usize)
        ensures
            r == old(self)@.len(),
            final(self)@ == old(self)@.push(zeros(size as nat)),
    {
        let b: Vec<u8> = vec![0u8; size];
        assert(b@ =~= zeros(size as nat));
        self.push_block(b)
    }

    /// Moves block `block` to a fresh block of `new_size` bytes and returns the new index.
    ///
    /// The new block starts with the old contents, cut to `new_size`, and is zero beyond
    /// them. The old block is left empty: its index must not be read for the old contents.
    pub fn resize(&mut self, block: usize, new_size: usize) -> (r: usize)
        requires
            block < old(self)@.len(),
        ensures
            r == old(self)@.len(),
            final(self)@.len() == old(self)@.len() + 1,
            final(self)@[r as int] == (if new_size <= old(self)@[block as int].len() {
                old(self)@[block as int].subrange(0, new_size as int)
            } else {
                old(self)@[block as int] + zeros((new_size - old(self)@[block as int].len()) as nat)
            }),
            final(self)@[block as int] == Seq::<u8>::empty(),
            forall|i: int|
                0 <= i < old(self)@.len() && i != block ==> #[trigger] final(self)@[i] == old(self)@[i],
    {
        let old_block = &self.blocks[block];
        let ghost old_bytes = old_block@;
        let mut b: Vec<u8> = Vec::new();
        let mut i: usize = 0;
        while i < new_size
            invariant
                i <= new_size,
                old_bytes == old_block@,
                b@.len() == i,
                forall|j: int|
                    0 <= j < i ==> #[trigger] b@[j] == (if j < old_bytes.len() {
                        old_bytes[j]
                    } else {
                        0u8
                    }),
            decreases new_size - i,
        {
            if i < old_block.len() {
                b.push(old_block[i]);
            } else {
                b.push(0u8);
            }
            i = i + 1;
        }
        self.blocks[block] = Vec::new();
        let ghost mid = self@;
        assert(mid =~= old(self)@.update(block as int, Seq::<u8>::empty()));
        let r = self.push_block(b);
        proof {
            if new_size <= old_bytes.len() {
                assert(b@ =~= old_bytes.subrange(0, new_size as int));
            } else {
                assert(b@ =~= old_bytes + zeros((new_size - old_bytes.len()) as nat));
            }
        }
        r
    }

    /// Copies `val` into a new block and returns its index.
    pub fn copy_bytes(&mut self, val: &[u8]) -> (r: usize)
        ensures
            r == old(self)@.len(),
            final(self)@ == old(self)@.push(val@),
    {
        let mut b: Vec<u8> = Vec::new();
        let mut i: usize = 0;
        while i < val.len()
            invariant
                i <= val@.len(),
                b@ == val@.subrange(0, i as int),
            decreases val@.len() - i,
        {
            b.push(val[i]);
            i = i + 1;
            assert(b@ =~= val@.subrange(0, i as int));
        }
        assert(b@ =~= val@);
        self.push_block(b)
    }

    /// The contents of block `block`, borrowed for as long as the arena is.
    pub fn block(&self, block: usize) -> (r: &[u8])
        requires
            block < self@.len(),
        ensures
            r@ == self@[block as int],
    {
        self.blocks[block].as_slice()
    }
}

} // verus!
