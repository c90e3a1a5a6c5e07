use usb2snes::frame::{
    decode_u32_be, encode_command, encode_frame, encode_get_memory, frame_address_field, frame_size_field, Flags,
    Opcode, Space, ADDRESS_OFFSET, FRAME_SIZE, SIZE_OFFSET,
};

#[test]
fn frame_layout_is_exact() {
    let f = encode_command(Opcode::Put, Space::Cmd, Flags::Data64b, 0x0A0B0C0D, 0x01020304);
    assert_eq!(f.len(), 512);
    assert_eq!(&f[0..4], b"USBA");
    assert_eq!(f[4], 1);
    assert_eq!(f[5], 3);
    assert_eq!(f[6], 128);
    assert_eq!(&f[252..256], &[0x01, 0x02, 0x03, 0x04]);
    assert_eq!(&f[256..260], &[0x0A, 0x0B, 0x0C, 0x0D]);
    for (i, b) in f.iter().enumerate() {
        if (7..252).contains(&i) || i >= 260 {
            assert_eq!(*b, 0, "byte {} is not zero", i);
        }
    }
}

#[test]
fn get_memory_frame_header() {
    let f = encode_get_memory(0xF50000, 2048);
    assert_eq!(f.len(), FRAME_SIZE);
    assert_eq!(&f[0..7], &[b'U', b'S', b'B', b'A', 0, 1, 64]);
    assert_eq!(&f[252..256], &[0x00, 0x00, 0x08, 0x00]);
    assert_eq!(&f[256..260], &[0x00, 0xF5, 0x00, 0x00]);
}

#[test]
fn raw_frame_fields() {
    let f = encode_frame(0xAB, 0xCD, 0xEF, 1, 2);
    assert_eq!(&f[4..7], &[0xAB, 0xCD, 0xEF]);
    assert_eq!(f[SIZE_OFFSET + 3], 2);
    assert_eq!(f[ADDRESS_OFFSET + 3], 1);
}

#[test]
fn size_and_address_round_trip() {
    for &(address, size) in &[(0u32, 0u32), (0xFFFF_FFFF, 0xFFFF_FFFF), (0x12345678, 0x9ABCDEF0), (1, 0x8000_0000)] {
        let f = encode_command(Opcode::Get, Space::Snes, Flags::Noresp, address, size);
        assert_eq!(frame_size_field(&f), size);
        assert_eq!(frame_address_field(&f), address);
    }
}

#[test]
fn decode_big_endian() {
    assert_eq!(decode_u32_be(&[9, 0x12, 0x34, 0x56, 0x78], 1), 0x12345678);
    assert_eq!(decode_u32_be(&[0xFF, 0, 0, 1], 0), 0xFF00_0001);
}

#[test]
fn opcode_space_and_flag_values() {
    assert_eq!(Opcode::Get.code(), 0);
    assert_eq!(Opcode::Mv.code(), 7);
    assert_eq!(Opcode::Stream.code(), 13);
    assert_eq!(Opcode::Respose.code(), 15);
    assert_eq!(Space::File.code(), 0);
    assert_eq!(Space::Snes.code(), 1);
    assert_eq!(Space::Config.code(), 4);
    assert_eq!(Flags::NoFlag.bits(), 0);
    assert_eq!(Flags::SkipReset.bits(), 1);
    assert_eq!(Flags::OnlyReset.bits(), 2);
    assert_eq!(Flags::Clrx.bits(), 4);
    assert_eq!(Flags::Setx.bits(), 8);
    assert_eq!(Flags::StreamBurst.bits(), 16);
    assert_eq!(Flags::Noresp.bits(), 64);
    assert_eq!(Flags::Data64b.bits(), 128);
}
