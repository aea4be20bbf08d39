use storage_experiment::{
    layout_for, Element, InlineBumpContext, InlineBumpStorage, InlineHandleStorage, Layout,
    RawVec, Storage,
};

#[test]
fn raw_vec_inline_handle_align() {
    assert!(RawVec::<u32, InlineHandleStorage<u16, 4>>::with_capacity_contextless(1).is_err());
}

#[test]
fn raw_vec_inline_handle() {
    let mut raw_vec =
        RawVec::<u32, InlineHandleStorage<u64, 16>>::with_capacity_contextless(1).unwrap();
    raw_vec.try_push_contextless(1).unwrap();
    assert_eq!(raw_vec.try_pop_contextless().unwrap(), 1);
    raw_vec.try_push_contextless(0).unwrap();
    raw_vec.try_push_contextless(0).unwrap();
    raw_vec.try_push_contextless(0).unwrap();
    raw_vec.try_push_contextless(0).unwrap();
    assert!(raw_vec.try_push_contextless(0).is_err());
}

#[test]
fn four_slot_inline_handle_scenario() {
    let mut buf =
        RawVec::<u32, InlineHandleStorage<u64, 16>>::with_capacity_contextless(4).unwrap();
    buf.try_push_contextless(10).unwrap();
    buf.try_push_contextless(20).unwrap();
    buf.try_push_contextless(30).unwrap();
    buf.try_push_contextless(40).unwrap();
    assert!(buf.try_push_contextless(50).is_err());
    assert_eq!(buf.try_pop_contextless().unwrap(), 40);
    assert_eq!(buf.try_pop_contextless().unwrap(), 30);
}

#[test]
fn with_capacity_zero_succeeds() {
    let buf = RawVec::<u32, InlineHandleStorage<u64, 16>>::with_capacity_contextless(0).unwrap();
    assert_eq!(buf.length, 0);
    assert_eq!(buf.capacity, 0);
}

#[test]
fn push_from_zero_capacity() {
    let mut ctx = InlineBumpContext::<u64>::new();
    let mut buf = RawVec::<u8, InlineBumpStorage<u64>>::with_capacity_context(0, &mut ctx).unwrap();
    buf.try_push(5, &mut ctx).unwrap();
    assert_eq!(buf.capacity, 1);
    assert_eq!(buf.try_pop(&mut ctx).unwrap(), 5);
}

#[test]
fn stack_discipline_bump() {
    let mut ctx = InlineBumpContext::<u64>::new();
    let mut buf =
        RawVec::<u16, InlineBumpStorage<u64>>::with_capacity_context(3, &mut ctx).unwrap();
    buf.try_push(7, &mut ctx).unwrap();
    buf.try_push(8, &mut ctx).unwrap();
    buf.try_push(9, &mut ctx).unwrap();
    assert_eq!(buf.try_pop(&mut ctx).unwrap(), 9);
    assert_eq!(buf.try_pop(&mut ctx).unwrap(), 8);
    assert_eq!(buf.try_pop(&mut ctx).unwrap(), 7);
    assert_eq!(buf.length, 0);
}

#[test]
fn growth_preserves_elements() {
    let mut buf =
        RawVec::<u32, InlineHandleStorage<u64, 16>>::with_capacity_contextless(1).unwrap();
    buf.try_push_contextless(11).unwrap();
    buf.try_push_contextless(22).unwrap();
    buf.try_push_contextless(33).unwrap();
    assert_eq!(buf.capacity, 3);
    assert_eq!(buf.try_pop_contextless().unwrap(), 33);
    assert_eq!(buf.try_pop_contextless().unwrap(), 22);
    assert_eq!(buf.try_pop_contextless().unwrap(), 11);
}

#[test]
fn push_beyond_bump_capacity_fails() {
    let mut ctx = InlineBumpContext::<u64>::new();
    let mut buf =
        RawVec::<u32, InlineBumpStorage<u64>>::with_capacity_context(2, &mut ctx).unwrap();
    buf.try_push(1, &mut ctx).unwrap();
    buf.try_push(2, &mut ctx).unwrap();
    assert!(buf.try_push(3, &mut ctx).is_err());
    assert_eq!(buf.try_pop(&mut ctx).unwrap(), 2);
    assert_eq!(buf.try_pop(&mut ctx).unwrap(), 1);
}

#[test]
fn inline_handle_allocate_bounds() {
    let mut unit = ();
    assert!(
        InlineHandleStorage::<u16, 8>::allocate(Layout { size: 2, align: 4 }, &mut unit).is_err()
    );
    assert!(
        InlineHandleStorage::<u16, 8>::allocate(Layout { size: 8, align: 2 }, &mut unit).is_ok()
    );
    assert!(
        InlineHandleStorage::<u16, 8>::allocate(Layout { size: 9, align: 2 }, &mut unit).is_err()
    );
}

#[test]
fn bump_allocations_disjoint_and_fail_on_overflow() {
    let mut ctx = InlineBumpContext::<u64>::new();
    let h1 = InlineBumpStorage::<u64>::allocate(Layout { size: 1, align: 1 }, &mut ctx).unwrap();
    let h2 = InlineBumpStorage::<u64>::allocate(Layout { size: 2, align: 2 }, &mut ctx).unwrap();
    assert_eq!(h1.at, 0);
    assert_eq!(h2.at, 2);
    assert!(h1.at + 1 <= h2.at);
    assert!(InlineBumpStorage::<u64>::allocate(Layout { size: 8, align: 1 }, &mut ctx).is_err());
    let bytes = InlineBumpStorage::<u64>::read_bytes(Layout { size: 2, align: 2 }, &h2, &ctx, 0, 2);
    assert_eq!(bytes, vec![0, 0]);
}

#[test]
fn bump_alignment_stricter_than_block_fails() {
    let mut ctx = InlineBumpContext::<u16>::new();
    assert!(InlineBumpStorage::<u16>::allocate(Layout { size: 1, align: 4 }, &mut ctx).is_err());
    assert!(InlineBumpStorage::<u16>::allocate(Layout { size: 1, align: 2 }, &mut ctx).is_ok());
}

#[test]
fn reallocate_preserves_prefix() {
    let mut unit = ();
    let small = Layout { size: 4, align: 1 };
    let large = Layout { size: 8, align: 1 };
    let mut h = InlineHandleStorage::<u64, 8>::allocate(small, &mut unit).unwrap();
    InlineHandleStorage::<u64, 8>::write_bytes(small, &mut h, &mut unit, 0, &vec![1, 2, 3, 4]);
    let h2 = InlineHandleStorage::<u64, 8>::reallocate(small, large, &h, &mut unit).unwrap();
    assert_eq!(
        InlineHandleStorage::<u64, 8>::read_bytes(large, &h2, &unit, 0, 4),
        vec![1, 2, 3, 4]
    );
    let h3 = InlineHandleStorage::<u64, 8>::reallocate(large, small, &h2, &mut unit).unwrap();
    assert_eq!(
        InlineHandleStorage::<u64, 8>::read_bytes(small, &h3, &unit, 0, 4),
        vec![1, 2, 3, 4]
    );
}

#[test]
fn element_encodings_exact() {
    assert_eq!(0xdeadbeefu32.to_bytes(), vec![0xef, 0xbe, 0xad, 0xde]);
    assert_eq!(u32::from_bytes(&vec![0xef, 0xbe, 0xad, 0xde]), 0xdeadbeef);
    assert_eq!(0x1234u16.to_bytes(), vec![0x34, 0x12]);
    assert_eq!(u16::from_bytes(&vec![0x34, 0x12]), 0x1234);
    assert_eq!(7u8.to_bytes(), vec![7]);
    assert_eq!(
        u64::from_bytes(&0x0102030405060708u64.to_bytes()),
        0x0102030405060708
    );
}

#[test]
fn layout_for_elements() {
    let l = layout_for::<u32>(3);
    assert_eq!(l.size, 12);
    assert_eq!(l.align, 4);
    let l0 = layout_for::<u64>(0);
    assert_eq!(l0.size, 0);
    assert_eq!(l0.align, 8);
}
