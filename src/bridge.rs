//! Tagged values: the uniform form in which a single field value is stored in an arena-backed
//! collection, and the conversions between it and the typed views that callers see.

use vstd::prelude::*;

use crate::arena::{extends, lemma_extends_push, lemma_extends_refl, Arena};

verus! {

/// The kind of value a field holds, as the storage layer tags it.
#[derive(Clone, Copy, Debug, PartialEq, Eq, Structural)]
pub enum UpbCType {
    Bool,
    Float,
    Int32,
    UInt32,
    Enum,
    Message,
    Double,
    Int64,
    UInt64,
    String,
    Bytes,
}

/// A single field value as storage holds it. Text and bytes are not held inline: `Str`
/// names the arena block that holds them.
#[derive(Clone, Copy, Debug, PartialEq, Eq, Structural)]
pub enum MessageValue {
    Bool(bool),
    Int32(i32),
    UInt32(u32),
    Int64(i64),
    UInt64(u64),
    Str(usize),
}

/// What a stored value means once its arena block, if any, is read.
pub enum FieldValue {
    Bool(bool),
    Int32(i32),
    UInt32(u32),
    Int64(i64),
    UInt64(u64),
    Bytes(Seq<u8>),
}

/// `mv` refers only to blocks that exist in `arena`.
pub open spec fn valid_in(arena: Seq<Seq<u8>>, mv: MessageValue) -> bool {
    match mv {
        MessageValue::Str(b) => b < arena.len(),
        _ => true,
    }
}

/// The meaning of `mv`, read against `arena`.
pub open spec fn value_in(arena: Seq<Seq<u8>>, mv: MessageValue) -> FieldValue {
    match mv {
        MessageValue::Bool(x) => FieldValue::Bool(x),
        MessageValue::Int32(x) => FieldValue::Int32(x),
        MessageValue::UInt32(x) => FieldValue::UInt32(x),
        MessageValue::Int64(x) => FieldValue::Int64(x),
        MessageValue::UInt64(x) => FieldValue::UInt64(x),
        MessageValue::Str(b) => FieldValue::Bytes(arena[b as int]),
    }
}

/// The payload of `mv` is the one that fields of kind `t` carry.
pub open spec fn has_type(mv: MessageValue, t: UpbCType) -> bool {
    match mv {
        MessageValue::Bool(_) => t == UpbCType::Bool,
        MessageValue::Int32(_) => t == UpbCType::Int32,
        MessageValue::UInt32(_) => t == UpbCType::UInt32,
        MessageValue::Int64(_) => t == UpbCType::Int64,
        MessageValue::UInt64(_) => t == UpbCType::UInt64,
        MessageValue::Str(_) => t == UpbCType::String || t == UpbCType::Bytes,
    }
}

/// A stored value stays valid, and keeps its meaning, when its arena only grows.
pub proof fn lemma_value_stable(before: Seq<Seq<u8>>, after: Seq<Seq<u8>>, mv: MessageValue)
    requires
        valid_in(before, mv),
        extends(before, after),
    ensures
        valid_in(after, mv),
        value_in(after, mv) == value_in(before, mv),
{
    if let MessageValue::Str(b) = mv {
        assert(after.subrange(0, before.len() as int)[b as int] == after[b as int]);
    }
}

/// Packing a value and unpacking what was stored gives back the same value, also when the
/// arena has grown in between: `mv` is what packing `v` stored in an arena that was then
/// `packed_in`, and `r` is what unpacking `mv` gives once the arena is `read_in`.
pub proof fn lemma_round_trip<T: ?Sized + UpbTypeConversions>(
    v: T::View<'_>,
    packed_in: Seq<Seq<u8>>,
    mv: MessageValue,
    read_in: Seq<Seq<u8>>,
    r: T::View<'_>,
)
    requires
        has_type(mv, T::ctype()),
        valid_in(packed_in, mv),
        value_in(packed_in, mv) == T::view_value(v),
        extends(packed_in, read_in),
        T::view_value(r) == value_in(read_in, mv),
    ensures
        valid_in(read_in, mv),
        T::view_value(r) == T::view_value(v),
{
    lemma_value_stable(packed_in, read_in, mv);
}

/// Field types whose values can be stored as tagged values.
///
/// `View<'msg>` is how a caller sees one value: the value itself for scalars, a slice
/// borrowed from the arena for text and bytes.
pub trait UpbTypeConversions {
    type View<'msg>: Copy;

    /// The tag of this type's values.
    spec fn ctype() -> UpbCType;

    /// What a view means, in the same terms as `value_in`.
    spec fn view_value<'msg>(v: Self::View<'msg>) -> FieldValue;

    /// The tag of this type's values.
    fn upb_type() -> (r: UpbCType)
        ensures
            r == Self::ctype(),
    ;

    /// Packs `val` for storage, copying any bytes it borrows into `arena` first, so that
    /// the stored value depends on no memory of the caller's.
    fn to_message_value_copy_if_required(arena: &mut Arena, val: Self::View<'_>) -> (r:
        MessageValue)
        ensures
            has_type(r, Self::ctype()),
            valid_in(final(arena)@, r),
            value_in(final(arena)@, r) == Self::view_value(val),
            extends(old(arena)@, final(arena)@),
    ;

    /// Unpacks a stored value into a view that borrows from `arena`.
    fn from_message_value<'a>(arena: &'a Arena, mv: MessageValue) -> (r: Self::View<'a>)
        requires
            has_type(mv, Self::ctype()),
            valid_in(arena@, mv),
        ensures
            Self::view_value(r) == value_in(arena@, mv),
    ;

    /// Whether the stored value `mv` equals `val`.
    fn matches(arena: &Arena, mv: MessageValue, val: Self::View<'_>) -> (r: bool)
        requires
            has_type(mv, Self::ctype()),
            valid_in(arena@, mv),
        ensures
            r == (value_in(arena@, mv) == Self::view_value(val)),
    ;
}

impl UpbTypeConversions for bool {
    type View<'msg> = bool;

    open spec fn ctype() -> UpbCType {
        UpbCType::Bool
    }

    open spec fn view_value<'msg>(v: bool) -> FieldValue {
        FieldValue::Bool(v)
    }

    fn upb_type() -> (r: UpbCType) {
        UpbCType::Bool
    }

    fn to_message_value_copy_if_required(arena: &mut Arena, val: bool) -> (r: MessageValue) {
        proof {
            lemma_extends_refl(arena@);
        }
        MessageValue::Bool(val)
    }

    fn from_message_value<'a>(arena: &'a Arena, mv: MessageValue) -> (r: bool) {
        match mv {
            MessageValue::Bool(x) => x,
            _ => false,
        }
    }

    fn matches(arena: &Arena, mv: MessageValue, val: bool) -> (r: bool) {
        match mv {
            MessageValue::Bool(x) => x == val,
            _ => false,
        }
    }
}

impl UpbTypeConversions for i32 {
    type View<'msg> = i32;

    open spec fn ctype() -> UpbCType {
        UpbCType::Int32
    }

    open spec fn view_value<'msg>(v: i32) -> FieldValue {
        FieldValue::Int32(v)
    }

    fn upb_type() -> (r: UpbCType) {
        UpbCType::Int32
    }

    fn to_message_value_copy_if_required(arena: &mut Arena, val: i32) -> (r: MessageValue) {
        proof {
            lemma_extends_refl(arena@);
        }
        MessageValue::Int32(val)
    }

    fn from_message_value<'a>(arena: &'a Arena, mv: MessageValue) -> (r: i32) {
        match mv {
            MessageValue::Int32(x) => x,
            _ => 0,
        }
    }

    fn matches(arena: &Arena, mv: MessageValue, val: i32) -> (r: bool) {
        match mv {
            MessageValue::Int32(x) => x == val,
            _ => false,
        }
    }
}

impl UpbTypeConversions for u32 {
    type View<'msg> = u32;

    open spec fn ctype() -> UpbCType {
        UpbCType::UInt32
    }

    open spec fn view_value<'msg>(v: u32) -> FieldValue {
        FieldValue::UInt32(v)
    }

    fn upb_type() -> (r: UpbCType) {
        UpbCType::UInt32
    }

    fn to_message_value_copy_if_required(arena: &mut Arena, val: u32) -> (r: MessageValue) {
        proof {
            lemma_extends_refl(arena@);
        }
        MessageValue::UInt32(val)
    }

    fn from_message_value<'a>(arena: &'a Arena, mv: MessageValue) -> (r: u32) {
        match mv {
            MessageValue::UInt32(x) => x,
            _ => 0,
        }
    }

    fn matches(arena: &Arena, mv: MessageValue, val: u32) -> (r: bool) {
        match mv {
            MessageValue::UInt32(x) => x == val,
            _ => false,
        }
    }
}

impl UpbTypeConversions for i64 {
    type View<'msg> = i64;

    open spec fn ctype() -> UpbCType {
        UpbCType::Int64
    }

    open spec fn view_value<'msg>(v: i64) -> FieldValue {
        FieldValue::Int64(v)
    }

    fn upb_type() -> (r: UpbCType) {
        UpbCType::Int64
    }

    fn to_message_value_copy_if_required(arena: &mut Arena, val: i64) -> (r: MessageValue) {
        proof {
            lemma_extends_refl(arena@);
        }
        MessageValue::Int64(val)
    }

    fn from_message_value<'a>(arena: &'a Arena, mv: MessageValue) -> (r: i64) {
        match mv {
            MessageValue::Int64(x) => x,
            _ => 0,
        }
    }

    fn matches(arena: &Arena, mv: MessageValue, val: i64) -> (r: bool) {
        match mv {
            MessageValue::Int64(x) => x == val,
            _ => false,
        }
    }
}

impl UpbTypeConversions for u64 {
    type View<'msg> = u64;

    open spec fn ctype() -> UpbCType {
        UpbCType::UInt64
    }

    open spec fn view_value<'msg>(v: u64) -> FieldValue {
        FieldValue::UInt64(v)
    }

    fn upb_type() -> (r: UpbCType) {
        UpbCType::UInt64
    }

    fn to_message_value_copy_if_required(arena: &mut Arena, val: u64) -> (r: MessageValue) {
        proof {
            lemma_extends_refl(arena@);
        }
        MessageValue::UInt64(val)
    }

    fn from_message_value<'a>(arena: &'a Arena, mv: MessageValue) -> (r: u64) {
        match mv {
            MessageValue::UInt64(x) => x,
            _ => 0,
        }
    }

    fn matches(arena: &Arena, mv: MessageValue, val: u64) -> (r: bool) {
        match mv {
            MessageValue::UInt64(x) => x == val,
            _ => false,
        }
    }
}

/// Marker for text fields. Their values are UTF-8 byte strings, seen as byte slices
/// borrowed from the arena.
#[derive(Debug)]
pub struct ProtoStr;

/// The bytes of `val`, copied into a new block of `arena`.
fn pack_bytes(arena: &mut Arena, val: &[u8]) -> (r: MessageValue)
    ensures
        r == MessageValue::Str(old(arena)@.len() as usize),
        valid_in(final(arena)@, r),
        value_in(final(arena)@, r) == FieldValue::Bytes(val@),
        extends(old(arena)@, final(arena)@),
{
    let b = arena.copy_bytes(val);
    proof {
        lemma_extends_push(old(arena)@, val@);
    }
    MessageValue::Str(b)
}

/// The bytes that a stored text or bytes value refers to.
fn unpack_bytes<'a>(arena: &'a Arena, mv: MessageValue) -> (r: &'a [u8])
    requires
        mv is Str,
        valid_in(arena@, mv),
    ensures
        FieldValue::Bytes(r@) == value_in(arena@, mv),
{
    match mv {
        MessageValue::Str(b) => arena.block(b),
        _ => &[],
    }
}

/// Whether two byte strings are equal.
fn bytes_eq(a: &[u8], b: &[u8]) -> (r: bool)
    ensures
        r == (a@ == b@),
{
    if a.len() != b.len() {
        return false;
    }
    let mut i: usize = 0;
    while i < a.len()
        invariant
            a@.len() == b@.len(),
            i <= a@.len(),
            a@.subrange(0, i as int) == b@.subrange(0, i as int),
        decreases a@.len() - i,
    {
        if a[i] != b[i] {
            assert(a@[i as int] != b@[i as int]);
            return false;
        }
        assert(a@.subrange(0, i + 1) =~= a@.subrange(0, i as int).push(a@[i as int]));
        assert(b@.subrange(0, i + 1) =~= b@.subrange(0, i as int).push(b@[i as int]));
        i = i + 1;
    }
    assert(a@ =~= a@.subrange(0, i as int));
    assert(b@ =~= b@.subrange(0, i as int));
    true
}

impl UpbTypeConversions for [u8] {
    type View<'msg> = &'msg [u8];

    open spec fn ctype() -> UpbCType {
        UpbCType::Bytes
    }

    open spec fn view_value<'msg>(v: &'msg [u8]) -> FieldValue {
        FieldValue::Bytes(v@)
    }

    fn upb_type() -> (r: UpbCType) {
        UpbCType::Bytes
    }

    fn to_message_value_copy_if_required(arena: &mut Arena, val: &[u8]) -> (r: MessageValue) {
        pack_bytes(arena, val)
    }

    fn from_message_value<'a>(arena: &'a Arena, mv: MessageValue) -> (r: &'a [u8]) {
        unpack_bytes(arena, mv)
    }

    fn matches(arena: &Arena, mv: MessageValue, val: &[u8]) -> (r: bool) {
        bytes_eq(unpack_bytes(arena, mv), val)
    }
}

impl UpbTypeConversions for ProtoStr {
    type View<'msg> = &'msg [u8];

    open spec fn ctype() -> UpbCType {
        UpbCType::String
    }

    open spec fn view_value<'msg>(v: &'msg [u8]) -> FieldValue {
        FieldValue::Bytes(v@)
    }

    fn upb_type() -> (r: UpbCType) {
        UpbCType::String
    }

    fn to_message_value_copy_if_required(arena: &mut Arena, val: &[u8]) -> (r: MessageValue) {
        pack_bytes(arena, val)
    }

    fn from_message_value<'a>(arena: &'a Arena, mv: MessageValue) -> (r: &'a [u8]) {
        unpack_bytes(arena, mv)
    }

    fn matches(arena: &Arena, mv: MessageValue, val: &[u8]) -> (r: bool) {
        bytes_eq(unpack_bytes(arena, mv), val)
    }
}

} // verus!
