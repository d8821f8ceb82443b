use ssb_parser::frame::{invert_row_u16, invert_row_u32, invert_row_u8};

#[test]
fn invert_8bit_row() {
    let mut row = vec![0u8, 10, 128, 255];
    invert_row_u8(&mut row);
    assert_eq!(row, vec![255, 245, 127, 0]);
}

#[test]
fn invert_16bit_rows() {
    let mut row = vec![0u16, 1023, 100];
    invert_row_u16(&mut row, 10);
    assert_eq!(row, vec![1023, 0, 923]);
    let mut full = vec![0u16, 65535, 1];
    invert_row_u16(&mut full, 16);
    assert_eq!(full, vec![65535, 0, 65534]);
}

#[test]
fn invert_32bit_rows() {
    let mut row = vec![0u32, 1, 0xFF_FFFF];
    invert_row_u32(&mut row, 24);
    assert_eq!(row, vec![0xFF_FFFF, 0xFF_FFFE, 0]);
    let mut full = vec![0u32, u32::MAX];
    invert_row_u32(&mut full, 32);
    assert_eq!(full, vec![u32::MAX, 0]);
}

#[test]
fn invert_twice_restores() {
    let before = vec![3u16, 500, 4095];
    let mut row = before.clone();
    invert_row_u16(&mut row, 12);
    invert_row_u16(&mut row, 12);
    assert_eq!(row, before);
}

#[test]
fn invert_twice_restores_8_and_32_bit_rows() {
    let bytes = vec![0u8, 17, 255];
    let mut row = bytes.clone();
    invert_row_u8(&mut row);
    assert_eq!(row, vec![255u8, 238, 0]);
    invert_row_u8(&mut row);
    assert_eq!(row, bytes);
    let words = vec![0u32, 70000, 0xFFFF_FFFF];
    let mut row = words.clone();
    invert_row_u32(&mut row, 32);
    invert_row_u32(&mut row, 32);
    assert_eq!(row, words);
}
