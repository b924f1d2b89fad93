use protobuf::arena::Arena;
use protobuf::bridge::{MessageValue, ProtoStr, UpbCType, UpbTypeConversions};
use protobuf::runtime::{
    copy_bytes_in_arena_if_needed_by_runtime, InnerRepeatedMut, MessageInner, MutatorMessageRef,
    RawMessage, ScratchSpace, SerializedData, SCRATCH_SPACE_BYTES,
};
use protobuf::ParseError;

#[test]
fn test_arena_new_and_free() {
    let arena = Arena::new();
    drop(arena);
}

#[test]
fn test_serialized_data_roundtrip() {
    let mut arena = Arena::new();
    let original_data = b"Hello world";
    let len = original_data.len();
    let block = arena.copy_bytes(original_data);
    let serialized_data = SerializedData::from_raw_parts(arena, block, len);
    assert_eq!(serialized_data.as_ptr(), b"Hello world");
}

#[test]
fn arena_allocate_resize_and_copy() {
    let mut arena = Arena::new();
    let a = arena.allocate(3);
    assert_eq!(a, 0);
    assert_eq!(arena.block(a), &[0u8, 0, 0][..]);
    let b = arena.copy_bytes(b"xyz");
    assert_eq!(b, 1);
    let grown = arena.resize(b, 5);
    assert_eq!(grown, 2);
    assert_eq!(arena.block(grown), b"xyz\0\0");
    assert_eq!(arena.block(b), b"");
    let shrunk = arena.resize(grown, 2);
    assert_eq!(arena.block(shrunk), b"xy");
    assert_eq!(arena.num_blocks(), 4);
}

#[test]
fn pack_unpack_round_trips() {
    let mut arena = Arena::new();
    let mv = <i32 as UpbTypeConversions>::to_message_value_copy_if_required(&mut arena, -7);
    assert_eq!(mv, MessageValue::Int32(-7));
    assert_eq!(<i32 as UpbTypeConversions>::from_message_value(&arena, mv), -7);
    let mv = <u64 as UpbTypeConversions>::to_message_value_copy_if_required(&mut arena, u64::MAX);
    assert_eq!(<u64 as UpbTypeConversions>::from_message_value(&arena, mv), u64::MAX);
    let mv = <bool as UpbTypeConversions>::to_message_value_copy_if_required(&mut arena, true);
    assert!(<bool as UpbTypeConversions>::from_message_value(&arena, mv));
    let mv = <u32 as UpbTypeConversions>::to_message_value_copy_if_required(&mut arena, 9);
    assert_eq!(<u32 as UpbTypeConversions>::from_message_value(&arena, mv), 9);
    let mv = <i64 as UpbTypeConversions>::to_message_value_copy_if_required(&mut arena, i64::MIN);
    assert_eq!(<i64 as UpbTypeConversions>::from_message_value(&arena, mv), i64::MIN);
    assert_eq!(arena.num_blocks(), 0);
    let text = String::from("text");
    let mv =
        <ProtoStr as UpbTypeConversions>::to_message_value_copy_if_required(&mut arena, text.as_bytes());
    assert_eq!(mv, MessageValue::Str(0));
    drop(text);
    let mv2 = <[u8] as UpbTypeConversions>::to_message_value_copy_if_required(&mut arena, b"\xffraw");
    assert_eq!(<ProtoStr as UpbTypeConversions>::from_message_value(&arena, mv), b"text");
    assert_eq!(<[u8] as UpbTypeConversions>::from_message_value(&arena, mv2), b"\xffraw");
    assert!(<[u8] as UpbTypeConversions>::matches(&arena, mv2, b"\xffraw"));
    assert!(!<[u8] as UpbTypeConversions>::matches(&arena, mv2, b"\xffra"));
}

#[test]
fn each_type_has_its_tag() {
    assert_eq!(<bool as UpbTypeConversions>::upb_type(), UpbCType::Bool);
    assert_eq!(<i32 as UpbTypeConversions>::upb_type(), UpbCType::Int32);
    assert_eq!(<u32 as UpbTypeConversions>::upb_type(), UpbCType::UInt32);
    assert_eq!(<i64 as UpbTypeConversions>::upb_type(), UpbCType::Int64);
    assert_eq!(<u64 as UpbTypeConversions>::upb_type(), UpbCType::UInt64);
    assert_eq!(<ProtoStr as UpbTypeConversions>::upb_type(), UpbCType::String);
    assert_eq!(<[u8] as UpbTypeConversions>::upb_type(), UpbCType::Bytes);
}

#[test]
fn mutator_message_ref_copies_into_the_message_arena() {
    let mut msg = MessageInner::new(16);
    assert_eq!(msg.msg, RawMessage { block: 0 });
    {
        let mut msg_ref = MutatorMessageRef::new(&mut msg);
        assert_eq!(msg_ref.msg(), RawMessage { block: 0 });
        let copied = {
            let tmp = vec![1u8, 2, 3];
            copy_bytes_in_arena_if_needed_by_runtime(&mut msg_ref, &tmp).to_vec()
        };
        assert_eq!(copied, vec![1, 2, 3]);
        assert_eq!(msg_ref.arena().num_blocks(), 2);
        let child = MutatorMessageRef::from_parent(msg_ref, RawMessage { block: 1 });
        assert_eq!(child.msg(), RawMessage { block: 1 });
        assert_eq!(child.arena().block(1), &[1u8, 2, 3][..]);
    }
    assert_eq!(msg.arena.num_blocks(), 2);
    assert_eq!(msg.arena.block(0), &[0u8; 16][..]);
}

#[test]
fn scratch_space_is_all_zero() {
    let s = ScratchSpace::new();
    let block = s.zeroed_block();
    assert_eq!(block.len(), SCRATCH_SPACE_BYTES);
    assert!(block.iter().all(|b| *b == 0));
}

#[test]
fn inner_repeated_mut_pairs_storage_and_arena() {
    let mut raw = Vec::new();
    let mut arena = Arena::new();
    {
        let inner = InnerRepeatedMut::new(&mut raw, &mut arena);
        inner.raw.push(MessageValue::Bool(true));
    }
    assert_eq!(raw, vec![MessageValue::Bool(true)]);
}

#[test]
fn parse_error_describes_itself() {
    assert_eq!(ParseError.message(), "Couldn't deserialize given bytes into a proto");
}
