//! Handles that tie a field's storage to the arena that backs it.

use vstd::prelude::*;

use crate::arena::{zeros, Arena};
use crate::bridge::MessageValue;

verus! {

/// Bytes in the shared all-zero block.
pub const SCRATCH_SPACE_BYTES: usize = 64000;

/// A message, by the index of the arena block that holds it.
#[derive(Clone, Copy, Debug, PartialEq, Eq, Structural)]
pub struct RawMessage {
    pub block: usize,
}

/// The contents of every message: where it is, and the arena that owns it.
#[derive(Debug)]
pub struct MessageInner {
    pub msg: RawMessage,
    pub arena: Arena,
}

impl MessageInner {
    /// A message of `size` zero bytes, in an arena of its own. All-zero storage is a valid
    /// empty message.
    pub fn new(size: usize) -> (r: Self)
        ensures
            r.arena@.len() == 1,
            r.msg.block == 0,
            r.arena@[0] == zeros(size as nat),
    {
        let mut arena = Arena::new();
        let block = arena.allocate(size);
        MessageInner { msg: RawMessage { block }, arena }
    }
}

/// What a mutator of a message, or of one of its fields, needs: the message, and its
/// arena, into which written text and bytes are copied.
///
/// Only one such reference to a message's arena is usable at a time; a mutator of a
/// sub-message borrows its parent's.
#[derive(Debug)]
pub struct MutatorMessageRef<'msg> {
    pub msg: RawMessage,
    pub arena: &'msg mut Arena,
}

impl<'msg> MutatorMessageRef<'msg> {
    /// A reference to the message that `msg` owns.
    pub fn new(msg: &'msg mut MessageInner) -> (r: Self)
        ensures
            r.msg == old(msg).msg,
            *r.arena == old(msg).arena,
            final(msg).msg == old(msg).msg,
            final(msg).arena == *final(r.arena),
    {
        MutatorMessageRef { msg: msg.msg, arena: &mut msg.arena }
    }

    /// A reference to the sub-message `message_field` of the parent's message, in the
    /// parent's arena.
    pub fn from_parent(parent: MutatorMessageRef<'msg>, message_field: RawMessage) -> (r: Self)
        ensures
            r.msg == message_field,
            r.arena_blocks() == parent.arena_blocks(),
            *final(r.arena) == *final(parent.arena),
    {
        MutatorMessageRef { msg: message_field, arena: parent.arena }
    }

    /// The message referred to.
    pub fn msg(&self) -> (r: RawMessage)
        ensures
            r == self.msg,
    {
        self.msg
    }

    /// The arena of the message.
    pub fn arena(&self) -> (r: &Arena)
        ensures
            r@ == self.arena_blocks(),
    {
        &*self.arena
    }

    /// The blocks of the message's arena as they are now.
    pub open spec fn arena_blocks(&self) -> Seq<Seq<u8>> {
        (*self.arena)@
    }
}

/// Copies `val` into the arena of the message that `msg_ref` refers to, and returns the
/// copy, which lives as long as that arena rather than as long as `val`.
pub fn copy_bytes_in_arena_if_needed_by_runtime<'a>(
    msg_ref: &'a mut MutatorMessageRef<'_>,
    val: &[u8],
) -> (r: &'a [u8])
    ensures
        r@ == val@,
        final(msg_ref).msg == old(msg_ref).msg,
        final(msg_ref).arena_blocks() == old(msg_ref).arena_blocks().push(val@),
        *final(final(msg_ref).arena) == *final(old(msg_ref).arena),
{
    let block = msg_ref.arena.copy_bytes(val);
    msg_ref.arena.block(block)
}

/// A block of zero bytes, for reading fields of messages that were never set: all-zero
/// storage is a valid empty message.
#[derive(Debug)]
pub struct ScratchSpace {
    pub arena: Arena,
    pub block: usize,
}

impl ScratchSpace {
    /// A scratch space of `SCRATCH_SPACE_BYTES` zero bytes.
    pub fn new() -> (r: Self)
        ensures
            r.wf(),
    {
        let mut arena = Arena::new();
        let block = arena.allocate(SCRATCH_SPACE_BYTES);
        ScratchSpace { arena, block }
    }

    /// The block exists and holds only zeros.
    pub open spec fn wf(&self) -> bool {
        &&& self.block < self.arena@.len()
        &&& self.arena@[self.block as int] == zeros(SCRATCH_SPACE_BYTES as nat)
    }

    /// The zeroed block.
    pub fn zeroed_block(&self) -> (r: &[u8])
        requires
            self.wf(),
        ensures
            r@ == zeros(SCRATCH_SPACE_BYTES as nat),
    {
        self.arena.block(self.block)
    }
}

/// Serialized wire-format data, in a block of the arena that owns it.
#[derive(Debug)]
pub struct SerializedData {
    pub data: usize,
    pub len: usize,
    pub arena: Arena,
}

impl SerializedData {
    /// The `len` bytes of block `data` of `arena`.
    pub fn from_raw_parts(arena: Arena, data: usize, len: usize) -> (r: Self)
        requires
            data < arena@.len(),
            arena@[data as int].len() == len,
        ensures
            r.wf(),
            r@ == arena@[data as int],
    {
        SerializedData { data, len, arena }
    }

    /// The block exists and is `len` bytes long.
    pub open spec fn wf(&self) -> bool {
        &&& self.data < self.arena@.len()
        &&& self.arena@[self.data as int].len() == self.len
    }

    /// The serialized bytes, borrowed from the owning arena.
    pub fn as_ptr(&self) -> (r: &[u8])
        requires
            self.wf(),
        ensures
            r@ == self@,
    {
        self.arena.block(self.data)
    }
}

impl View for SerializedData {
    type V = Seq<u8>;

    open spec fn view(&self) -> Seq<u8> {
        self.arena@[self.data as int]
    }
}

/// Exclusive access to the storage of a repeated field: its tagged elements, and the arena
/// that holds their text and bytes.
#[derive(Debug)]
pub struct InnerRepeatedMut<'msg> {
    pub raw: &'msg mut Vec<MessageValue>,
    pub arena: &'msg mut Arena,
}

impl<'msg> InnerRepeatedMut<'msg> {
    /// Pairs the elements of a repeated field with the arena that backs them.
    pub fn new(raw: &'msg mut Vec<MessageValue>, arena: &'msg mut Arena) -> (r: Self)
        ensures
            *r.raw == *old(raw),
            *r.arena == *old(arena),
            *final(raw) == *final(r.raw),
            *final(arena) == *final(r.arena),
    {
        InnerRepeatedMut { raw, arena }
    }
}

/// The storage of a map field: tagged keys and the tagged values at the same positions.
#[derive(Debug)]
pub struct RawMap {
    pub keys: Vec<MessageValue>,
    pub values: Vec<MessageValue>,
}

impl RawMap {
    /// A map with no entries.
    pub fn new() -> (r: Self)
        ensures
            r.keys@ == Seq::<MessageValue>::empty(),
            r.values@ == Seq::<MessageValue>::empty(),
    {
        RawMap { keys: Vec::new(), values: Vec::new() }
    }
}

/// Exclusive access to the storage of a map field and the arena that backs it.
#[derive(Debug)]
pub struct InnerMapMut<'msg> {
    pub raw: &'msg mut RawMap,
    pub arena: &'msg mut Arena,
}

impl<'msg> InnerMapMut<'msg> {
    /// Pairs the entries of a map field with the arena that backs them.
    pub fn new(raw: &'msg mut RawMap, arena: &'msg mut Arena) -> (r: Self)
        ensures
            *r.raw == *old(raw),
            *r.arena == *old(arena),
            *final(raw) == *final(r.raw),
            *final(arena) == *final(r.arena),
    {
        InnerMapMut { raw, arena }
    }
}

} // verus!
