use winx64_unwind::{UnwindCode, UnwindInfo, Writer};

fn info_with(codes: Vec<UnwindCode>) -> UnwindInfo {
    UnwindInfo {
        flags: 0,
        prologue_size: 0,
        frame_register: None,
        frame_register_offset: 0,
        unwind_codes: codes,
    }
}

fn emitted(info: &UnwindInfo) -> Vec<u8> {
    let size = info.emit_size();
    let mut buf = vec![0xAAu8; size];
    info.emit(&mut buf);
    buf
}

#[test]
fn small_alloc_sizes_use_one_node_with_unit_count_in_high_nibble() {
    let mut size: u32 = 8;
    while size <= 128 {
        let code = UnwindCode::StackAlloc { offset: 7, size };
        assert_eq!(code.node_count(), 1);
        let buf = emitted(&info_with(vec![code]));
        assert_eq!(buf.len(), 8);
        assert_eq!(buf[4], 7);
        assert_eq!(buf[5] & 0xf, 2);
        assert_eq!((buf[5] >> 4) as u32, (size - 8) / 8);
        size += 8;
    }
}

#[test]
fn alloc_of_136_uses_16bit_large_form() {
    let code = UnwindCode::StackAlloc { offset: 3, size: 136 };
    assert_eq!(code.node_count(), 2);
    let buf = emitted(&info_with(vec![code]));
    assert_eq!(buf, vec![1, 0, 2, 0, 3, 0x01, 17, 0]);
    assert_eq!(u16::from_le_bytes([buf[6], buf[7]]) as u32 * 8, 136);
}

#[test]
fn alloc_of_524280_uses_16bit_large_form() {
    let code = UnwindCode::StackAlloc { offset: 3, size: 524280 };
    assert_eq!(code.node_count(), 2);
    let buf = emitted(&info_with(vec![code]));
    assert_eq!(buf.len(), 8);
    assert_eq!(buf[5], 0x01);
    assert_eq!(u16::from_le_bytes([buf[6], buf[7]]) as u32 * 8, 524280);
}

#[test]
fn alloc_of_524288_uses_32bit_large_form() {
    let code = UnwindCode::StackAlloc { offset: 9, size: 524288 };
    assert_eq!(code.node_count(), 3);
    let buf = emitted(&info_with(vec![code]));
    assert_eq!(buf.len(), 12);
    assert_eq!(buf[4], 9);
    assert_eq!(buf[5], 0x11);
    assert_eq!(u32::from_le_bytes([buf[6], buf[7], buf[8], buf[9]]), 524288);
    assert_eq!(&buf[10..12], &[0, 0]);
}

#[test]
fn save_xmm_with_16bit_scaled_offset_uses_two_nodes() {
    let k: u32 = 65535;
    let code = UnwindCode::SaveXmm { offset: 4, reg: 6, stack_offset: 16 * k };
    assert_eq!(code.node_count(), 2);
    let buf = emitted(&info_with(vec![code]));
    assert_eq!(buf.len(), 8);
    assert_eq!(buf[4], 4);
    assert_eq!(buf[5], (6 << 4) | 8);
    assert_eq!(u16::from_le_bytes([buf[6], buf[7]]) as u32, k);
}

#[test]
fn save_xmm_with_large_scaled_offset_uses_far_form() {
    let k: u32 = 65536 + 0x1234;
    let code = UnwindCode::SaveXmm { offset: 4, reg: 15, stack_offset: 16 * k };
    assert_eq!(code.node_count(), 3);
    let buf = emitted(&info_with(vec![code]));
    assert_eq!(buf.len(), 12);
    assert_eq!(buf[5], (15 << 4) | 9);
    let lo = u16::from_le_bytes([buf[6], buf[7]]) as u32;
    let hi = u16::from_le_bytes([buf[8], buf[9]]) as u32;
    assert_eq!(lo + (hi << 16), k);
    assert_eq!(lo, 0x1234);
    assert_eq!(hi, 1);
}

#[test]
fn save_xmm_small_offset_exact_bytes() {
    let code = UnwindCode::SaveXmm { offset: 0x20, reg: 7, stack_offset: 0x30 };
    let buf = emitted(&info_with(vec![code]));
    assert_eq!(buf, vec![1, 0, 2, 0, 0x20, 0x78, 3, 0]);
}

#[test]
fn size_formula_holds_for_mixed_codes() {
    let cases: Vec<Vec<UnwindCode>> = vec![
        vec![],
        vec![UnwindCode::PushRegister { offset: 1, reg: 5 }],
        vec![
            UnwindCode::PushRegister { offset: 1, reg: 5 },
            UnwindCode::StackAlloc { offset: 5, size: 256 },
        ],
        vec![
            UnwindCode::PushRegister { offset: 1, reg: 5 },
            UnwindCode::StackAlloc { offset: 5, size: 1 << 20 },
            UnwindCode::SaveXmm { offset: 9, reg: 6, stack_offset: 32 },
        ],
    ];
    for codes in cases {
        let info = info_with(codes);
        let n = info.node_count();
        let expected = 4 + 2 * n + if n % 2 == 1 { 2 } else { 0 };
        assert_eq!(info.emit_size(), expected);
        assert_eq!(emitted(&info).len(), expected);
    }
}

#[test]
fn emit_leaves_bytes_after_the_structure_alone() {
    let info = info_with(vec![UnwindCode::StackAlloc { offset: 4, size: 40 }]);
    let size = info.emit_size();
    assert_eq!(size, 8);
    let mut buf = vec![0xEEu8; size + 5];
    info.emit(&mut buf);
    assert_eq!(&buf[..size], &[1, 0, 1, 0, 4, 0x42, 0, 0]);
    assert!(buf[size..].iter().all(|b| *b == 0xEE));
}

#[test]
fn codes_are_emitted_in_descending_offset_order() {
    let op_a = UnwindCode::PushRegister { offset: 2, reg: 3 };
    let op_b = UnwindCode::PushRegister { offset: 10, reg: 12 };
    let buf = emitted(&info_with(vec![op_a, op_b]));
    assert_eq!(buf, vec![1, 0, 2, 0, 10, 0xC0, 2, 0x30]);
}

#[test]
fn odd_node_count_gets_two_zero_padding_bytes() {
    let info = info_with(vec![UnwindCode::PushRegister { offset: 1, reg: 5 }]);
    assert_eq!(info.node_count(), 1);
    let mut buf = vec![0xFFu8; info.emit_size()];
    info.emit(&mut buf);
    assert_eq!(buf, vec![1, 0, 1, 0, 1, 0x50, 0, 0]);
}

#[test]
fn even_node_count_gets_no_padding() {
    let info = info_with(vec![
        UnwindCode::PushRegister { offset: 1, reg: 5 },
        UnwindCode::PushRegister { offset: 2, reg: 6 },
    ]);
    assert_eq!(info.node_count(), 2);
    let buf = emitted(&info);
    assert_eq!(buf, vec![1, 0, 2, 0, 2, 0x60, 1, 0x50]);
}

#[test]
fn header_holds_prologue_size_and_frame_register() {
    let info = UnwindInfo {
        flags: 0,
        prologue_size: 17,
        frame_register: Some(5),
        frame_register_offset: 3,
        unwind_codes: vec![
            UnwindCode::PushRegister { offset: 1, reg: 5 },
            UnwindCode::StackAlloc { offset: 17, size: 64 },
        ],
    };
    assert_eq!(info.emit_size(), 8);
    let buf = emitted(&info);
    assert_eq!(buf, vec![1, 17, 2, 0x35, 17, 0x72, 1, 0x50]);
}

#[test]
fn empty_code_list_is_header_only() {
    let info = info_with(vec![]);
    assert_eq!(info.node_count(), 0);
    assert_eq!(info.emit_size(), 4);
    assert_eq!(emitted(&info), vec![1, 0, 0, 0]);
}

#[test]
fn writer_writes_little_endian_and_advances() {
    let mut buf = [0u8; 8];
    let mut w = Writer::new(&mut buf);
    w.write_u8(0xAB);
    w.write_u16(0x1234);
    w.write_u32(0xDEADBEEF);
    assert_eq!(w.offset, 7);
    assert_eq!(buf, [0xAB, 0x34, 0x12, 0xEF, 0xBE, 0xAD, 0xDE, 0]);
}
