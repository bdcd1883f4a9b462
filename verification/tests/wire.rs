use esp_psram::wire::{
    address_of_chunk, chunk_range, count_chunks, Command, ADDRESS_SPACE, CHUNK, ID_PADDING,
};

#[test]
fn read_frame_is_the_opcode_and_the_address_most_significant_byte_first() {
    assert_eq!(Command::Read(0x001000).encode(), vec![0x03, 0x00, 0x10, 0x00]);
    assert_eq!(Command::Read(0x123456).encode(), vec![0x03, 0x12, 0x34, 0x56]);
    assert_eq!(Command::Read(0).encode(), vec![0x03, 0x00, 0x00, 0x00]);
    assert_eq!(Command::Read(0xFFFFFF).encode(), vec![0x03, 0xFF, 0xFF, 0xFF]);
}

#[test]
fn write_frame_is_the_opcode_and_the_address_most_significant_byte_first() {
    assert_eq!(Command::Write(0x001000).encode(), vec![0x02, 0x00, 0x10, 0x00]);
    assert_eq!(Command::Write(0x7FFFFF).encode(), vec![0x02, 0x7F, 0xFF, 0xFF]);
    assert_eq!(Command::Write(0x0000FF).encode(), vec![0x02, 0x00, 0x00, 0xFF]);
}

#[test]
fn frames_drop_the_bits_above_bit_23() {
    assert_eq!(Command::Read(0xFF00_0001).encode(), vec![0x03, 0x00, 0x00, 0x01]);
    assert_eq!(Command::Write(0x0100_0000).encode(), vec![0x02, 0x00, 0x00, 0x00]);
    assert_eq!(Command::Write(0xFFFF_FFFF).encode(), vec![0x02, 0xFF, 0xFF, 0xFF]);
}

#[test]
fn commands_without_an_address_are_one_byte() {
    assert_eq!(Command::ResetEnable.encode(), vec![0x66]);
    assert_eq!(Command::Reset.encode(), vec![0x99]);
    assert_eq!(Command::SetBurstLength.encode(), vec![0xC0]);
}

#[test]
fn read_id_frame_is_the_opcode_and_13_zero_bytes() {
    let frame = Command::ReadId.encode();
    assert_eq!(frame.len(), 14);
    assert_eq!(frame.len(), 1 + ID_PADDING);
    assert_eq!(frame[0], 0x9F);
    assert!(frame[1..].iter().all(|byte| *byte == 0));
}

#[test]
fn chunks_are_counted_by_rounding_up() {
    assert_eq!(CHUNK, 256);
    assert_eq!(count_chunks(0), 0);
    assert_eq!(count_chunks(1), 1);
    assert_eq!(count_chunks(255), 1);
    assert_eq!(count_chunks(256), 1);
    assert_eq!(count_chunks(257), 2);
    assert_eq!(count_chunks(512), 2);
    assert_eq!(count_chunks(600), 3);
    assert_eq!(count_chunks(usize::MAX), usize::MAX / 256 + 1);
}

#[test]
fn chunk_ranges_tile_the_buffer() {
    assert_eq!(chunk_range(600, 0), (0, 256));
    assert_eq!(chunk_range(600, 1), (256, 512));
    assert_eq!(chunk_range(600, 2), (512, 600));
    assert_eq!(chunk_range(512, 1), (256, 512));
    assert_eq!(chunk_range(1, 0), (0, 1));
    let len = 100_000;
    let mut end = 0;
    for chunk in 0..count_chunks(len) {
        let (start, stop) = chunk_range(len, chunk);
        assert_eq!(start, end);
        assert!(stop - start <= 256);
        assert!(stop > start);
        end = stop;
    }
    assert_eq!(end, len);
}

#[test]
fn the_last_chunk_holds_the_remainder_or_a_full_chunk() {
    for len in [1usize, 2, 255, 256, 257, 511, 512, 513, 1000, 4096] {
        let last = count_chunks(len) - 1;
        let (start, end) = chunk_range(len, last);
        let expected = if len % 256 == 0 { 256 } else { len % 256 };
        assert_eq!(end - start, expected);
        assert_eq!(end, len);
    }
}

#[test]
fn chunk_addresses_advance_by_256_within_24_bits() {
    assert_eq!(ADDRESS_SPACE, 1 << 24);
    assert_eq!(address_of_chunk(0x000100, 0), 0x000100);
    assert_eq!(address_of_chunk(0x000100, 1), 0x000200);
    assert_eq!(address_of_chunk(0x000100, 2), 0x000300);
    assert_eq!(address_of_chunk(0x012345, 3), 0x012645);
    assert_eq!(address_of_chunk(0xFFFF00, 1), 0x000000);
    assert_eq!(address_of_chunk(0xFFFFFF, 1), 0x0000FF);
    assert_eq!(address_of_chunk(0xFFFF_FFF0, 0), 0xFFFFF0);
    assert_eq!(address_of_chunk(0xFFFF_FFF0, 1), 0x0000F0);
    assert_eq!(address_of_chunk(0x000001, 0x1_0000), 0x000001);
    assert_eq!(address_of_chunk(0x000001, 0x1_0001), 0x000101);
}
