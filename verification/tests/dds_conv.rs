use aetherment::dds::{
    convert_from_a1r5g5b5, convert_from_a4r4g4b4, convert_from_a8, convert_from_l8, convert_from_x8r8g8b8,
    convert_to_a1r5g5b5, convert_to_a4r4g4b4, convert_to_a8, convert_to_l8, convert_to_x8r8g8b8,
};

#[test]
fn l8_becomes_grey_and_opaque() {
    assert_eq!(convert_from_l8(&[1, 200]), vec![1, 1, 1, 255, 200, 200, 200, 255]);
    assert_eq!(convert_from_l8(&[]), Vec::<u8>::new());
}

#[test]
fn l8_keeps_first_byte_of_whole_pixels() {
    assert_eq!(convert_to_l8(&[9, 1, 2, 3, 8, 4, 5, 6, 7]), vec![9, 8]);
}

#[test]
fn l8_written_then_read_gives_the_bytes_back() {
    let d = [3u8, 4, 5, 250];
    assert_eq!(convert_to_l8(&convert_from_l8(&d)), d.to_vec());
}

#[test]
fn a8_puts_the_byte_in_alpha() {
    assert_eq!(convert_from_a8(&[5, 6]), vec![0, 0, 0, 5, 0, 0, 0, 6]);
    assert_eq!(convert_to_a8(&[1, 2, 3, 4, 5]), vec![4]);
    assert_eq!(convert_to_a8(&[0, 0, 0, 7]), vec![7]);
}

#[test]
fn a8_written_then_read_gives_the_bytes_back() {
    let d = [0u8, 7, 128, 255];
    assert_eq!(convert_to_a8(&convert_from_a8(&d)), d.to_vec());
}

#[test]
fn a4r4g4b4_widens_each_channel() {
    assert_eq!(convert_from_a4r4g4b4(&[0x21, 0x43]), vec![0x10, 0x20, 0x30, 0x40]);
    assert_eq!(convert_from_a4r4g4b4(&[0x3C, 0xAB, 0x11]), vec![0xC0, 0x30, 0xB0, 0xA0]);
}

#[test]
fn a4r4g4b4_packs_the_high_halves() {
    assert_eq!(convert_to_a4r4g4b4(&[0x10, 0x20, 0x30, 0x40]), vec![0x21, 0x43]);
    assert_eq!(convert_to_a4r4g4b4(&[0, 1, 0, 0]), vec![0, 0]);
    assert_eq!(convert_to_a4r4g4b4(&[0xFF, 0xFF, 0xFF, 0xFF]), vec![0xFF, 0xFF]);
    assert_eq!(convert_to_a4r4g4b4(&[0x30, 0x01, 0x50]), Vec::<u8>::new());
}

#[test]
fn a4r4g4b4_widened_then_packed_gives_the_pixels_back() {
    let d = [0x21u8, 0x43, 0xFF, 0x00, 0x5A, 0xC3];
    assert_eq!(convert_to_a4r4g4b4(&convert_from_a4r4g4b4(&d)), d.to_vec());
}

#[test]
fn a1r5g5b5_widens_each_channel() {
    assert_eq!(convert_from_a1r5g5b5(&[0xFF, 0x00]), vec![0xF8, 0x38, 0x00, 0x00]);
    assert_eq!(convert_from_a1r5g5b5(&[0x00, 0x80]), vec![0, 0, 0, 0x80]);
    assert_eq!(convert_from_a1r5g5b5(&[0xFF, 0xFF]), vec![0xF8, 0xF8, 0xF8, 0x80]);
}

#[test]
fn a1r5g5b5_packs_the_top_bits() {
    assert_eq!(convert_to_a1r5g5b5(&[0xF8, 0x38, 0x00, 0x00]), vec![0xFF, 0x00]);
    assert_eq!(convert_to_a1r5g5b5(&[0, 0, 0x20, 0]), vec![0, 0x10]);
    assert_eq!(convert_to_a1r5g5b5(&[0xFF, 0xFF, 0xFF, 0xFF]), vec![0xFF, 0xFF]);
}

#[test]
fn a1r5g5b5_widened_then_packed_gives_the_pixels_back() {
    let d = [0x1Fu8, 0x80, 0x34, 0xD2, 0x00, 0x7F];
    assert_eq!(convert_to_a1r5g5b5(&convert_from_a1r5g5b5(&d)), d.to_vec());
}

#[test]
fn x8r8g8b8_sets_the_fourth_byte() {
    assert_eq!(convert_from_x8r8g8b8(&[1, 2, 3, 4, 9]), vec![1, 2, 3, 255]);
    assert_eq!(convert_to_x8r8g8b8(&[1, 2, 3, 4]), vec![1, 2, 3, 0]);
}

#[test]
fn x8r8g8b8_written_then_read_is_opaque() {
    let d = [10u8, 20, 30, 40, 50, 60, 70, 80];
    assert_eq!(convert_from_x8r8g8b8(&convert_to_x8r8g8b8(&d)), convert_from_x8r8g8b8(&d));
}
