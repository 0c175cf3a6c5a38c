use gothspace::bmp::{encode_bitmap, HEADER_SIZE};

#[test]
fn a_bitmap_of_two_rows() {
    // Top row: red, green, blue; bottom row: white, black, a mix.
    let pixels = vec![0xff0000, 0x00ff00, 0x0000ff, 0xffffff, 0x000000, 0x123456];
    let file = encode_bitmap(3, 2, &pixels).unwrap();
    let expected: Vec<u8> = vec![
        0x42, 0x4d, // signature
        78, 0, 0, 0, // length of the file
        0, 0, 0, 0, // reserved
        54, 0, 0, 0, // where the rows start
        40, 0, 0, 0, // length of the picture header
        3, 0, 0, 0, // width
        2, 0, 0, 0, // height
        1, 0, // planes
        24, 0, // bits to a pixel
        0, 0, 0, 0, // no compression
        24, 0, 0, 0, // length of the rows
        0x13, 0x0b, 0, 0, // 2835 pixels to the metre
        0x13, 0x0b, 0, 0, //
        0, 0, 0, 0, // no palette
        0, 0, 0, 0, //
        // bottom row first, blue before green before red, filled up to 12 bytes
        0xff, 0xff, 0xff, 0, 0, 0, 0x56, 0x34, 0x12, 0, 0, 0, //
        0, 0, 0xff, 0, 0xff, 0, 0xff, 0, 0, 0, 0, 0,
    ];
    assert_eq!(file, expected);
    assert_eq!(HEADER_SIZE, 54);
}

#[test]
fn rows_are_filled_to_a_multiple_of_four() {
    for width in 0usize..9 {
        let pixels = vec![0x010203; width * 3];
        let file = encode_bitmap(width, 3, &pixels).unwrap();
        let row = (3 * width + 3) / 4 * 4;
        assert_eq!(file.len(), 54 + 3 * row);
        for r in 0..3 {
            for x in 0..width {
                let at = 54 + r * row + 3 * x;
                assert_eq!(&file[at..at + 3], &[3, 2, 1]);
            }
            for fill in 3 * width..row {
                assert_eq!(file[54 + r * row + fill], 0);
            }
        }
    }
}

#[test]
fn an_empty_picture_is_a_header() {
    let file = encode_bitmap(0, 0, &Vec::new()).unwrap();
    assert_eq!(file.len(), 54);
    assert_eq!(&file[0..6], &[0x42, 0x4d, 54, 0, 0, 0]);
}

#[test]
fn bits_above_the_colour_are_left_out() {
    let file = encode_bitmap(1, 1, &vec![0xaa112233]).unwrap();
    assert_eq!(&file[54..], &[0x33, 0x22, 0x11, 0]);
}

#[test]
fn a_grid_of_the_wrong_length_has_no_bitmap() {
    assert_eq!(encode_bitmap(2, 2, &vec![0; 3]), None);
    assert_eq!(encode_bitmap(2, 2, &vec![0; 5]), None);
    assert_eq!(encode_bitmap(0, 0, &vec![0; 1]), None);
}

#[test]
fn a_picture_too_large_for_the_header_has_no_bitmap() {
    assert_eq!(encode_bitmap(0x8000_0000, 0, &Vec::new()), None);
    assert_eq!(encode_bitmap(0, 0x8000_0000, &Vec::new()), None);
    assert_eq!(encode_bitmap(0x7fff_ffff, 1, &Vec::new()), None);
    assert_eq!(encode_bitmap(0x4000_0000, 0x4000_0000, &Vec::new()), None);
}
