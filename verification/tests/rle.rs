use pdf2pwg::rle::compress;
use pdf2pwg::rle::compress_line;

#[test]
fn pwg_1bit_example_lines() {
    let line1 = [0b10001111_u8, 0b01111000, 0b11110111];
    let line2 = [0b01110110_u8, 0b01110111, 0b01100111];
    let line3 = [0b01110111_u8, 0b01110111, 0b01110111];
    let line4 = [0b10001110_u8, 0b00111000, 0b11100011];
    let line5 = [0xff_u8, 0xff_u8, 0xff_u8];

    let mut output = Vec::with_capacity(8);
    compress_line(&line1, &mut output);
    assert_eq!(&[0xfe_u8, 0x8f, 0x78, 0xf7], output.as_slice());

    let mut output = Vec::with_capacity(8);
    compress_line(&line2, &mut output);
    assert_eq!(&[0xfe_u8, 0x76, 0x77, 0x67], output.as_slice());

    let mut output = Vec::with_capacity(8);
    compress_line(&line3, &mut output);
    assert_eq!(&[0x02_u8, 0x77], output.as_slice());

    let mut output = Vec::with_capacity(8);
    compress_line(&line4, &mut output);
    assert_eq!(&[0xfe_u8, 0x8e, 0x38, 0xe3], output.as_slice());

    let mut output = Vec::with_capacity(8);
    compress_line(&line5, &mut output);
    assert_eq!(&[0x02_u8, 0xff], output.as_slice());
}

#[test]
fn pwg_1bit_example_bitmap() {
    let bitmap = [
        0b10001111_u8,
        0b01111000,
        0b11110111,
        0b01110110_u8,
        0b01110111,
        0b01100111,
        0b01110111_u8,
        0b01110111,
        0b01110111,
        0b01110111_u8,
        0b01110111,
        0b01110111,
        0b01110111_u8,
        0b01110111,
        0b01110111,
        0b01110111_u8,
        0b01110111,
        0b01110111,
        0b10001110_u8,
        0b00111000,
        0b11100011,
        0xff_u8,
        0xff_u8,
        0xff_u8,
    ];

    let expected = [
        0x0_u8, 0xfe, 0x8f, 0x78, 0xf7, 0x0_u8, 0xfe, 0x76, 0x77, 0x67, 0x3_u8, 0x02, 0x77,
        0x0_u8, 0xfe, 0x8e, 0x38, 0xe3, 0x0_u8, 0x02, 0xff,
    ];

    let mut output = Vec::with_capacity(32);
    compress(&bitmap, 23, 1, &mut output);
    assert_eq!(&expected, output.as_slice());
}

#[test]
fn scanline_repeated_257_times_splits_outer_chunks() {
    let line = [0x11_u8, 0x22, 0x33];
    let mut bitmap = Vec::new();
    for _ in 0..257 {
        bitmap.extend_from_slice(&line);
    }

    let mut output = Vec::new();
    compress(&bitmap, 3, 8, &mut output);

    let inner = [0xfe_u8, 0x11, 0x22, 0x33];
    let mut expected = Vec::new();
    expected.push(0xff_u8); // 256 copies
    expected.extend_from_slice(&inner);
    expected.push(0x00_u8); // 1 copy
    expected.extend_from_slice(&inner);
    assert_eq!(expected, output);
}

#[test]
fn run_of_129_identical_bytes_ends_in_literal() {
    let line = [0xaa_u8; 129];
    let mut output = Vec::new();
    compress_line(&line, &mut output);
    // 128 copies as a repeated run, then the tail byte as a 1-byte literal.
    assert_eq!(&[0x7f_u8, 0xaa, 0xff, 0xaa], output.as_slice());
}

#[test]
fn literal_of_129_distinct_bytes_splits_into_two_packets() {
    let mut line = Vec::new();
    for i in 0..129 {
        line.push(i as u8);
    }
    let mut output = Vec::new();
    compress_line(&line, &mut output);

    let mut expected = Vec::new();
    expected.push(0x81_u8); // 128 literal bytes
    for i in 0..128 {
        expected.push(i as u8);
    }
    expected.push(0xff_u8); // 1 literal byte
    expected.push(128_u8);
    assert_eq!(expected, output);
}

#[test]
fn empty_bitmap_compresses_to_nothing() {
    let mut output = Vec::new();
    compress(&[], 3, 8, &mut output);
    assert!(output.is_empty());
}

#[test]
fn repeated_run_before_trailing_literal() {
    // A repeated run flushes, then the pending literal covers the tail.
    let line = [0x07_u8, 0x09, 0x09, 0x09, 0x01, 0x02];
    let mut output = Vec::new();
    compress_line(&line, &mut output);
    // 257 - 2 == 0xff: the two-byte trailing literal shares the 0xff header
    // value with a one-byte literal.
    assert_eq!(
        &[0xff_u8, 0x07, 0x02, 0x09, 0xff, 0x01, 0x02],
        output.as_slice()
    );
}

/// Reference decoder for the PWG intra-line and line-repeat layers: repeat
/// headers 0x00..=0x7f mean `header + 1` copies, literal headers 0x81..=0xff
/// mean `257 - header` verbatim bytes.
fn decode(compressed: &[u8], bytes_per_line: usize) -> Vec<u8> {
    let mut out = Vec::new();
    let mut pos = 0;
    while pos < compressed.len() {
        let line_repeat = compressed[pos] as usize + 1;
        pos += 1;
        let mut line = Vec::new();
        while line.len() < bytes_per_line {
            let header = compressed[pos];
            pos += 1;
            if header < 0x80 {
                let count = header as usize + 1;
                let byte = compressed[pos];
                pos += 1;
                for _ in 0..count {
                    line.push(byte);
                }
            } else {
                let count = 257 - header as usize;
                for _ in 0..count {
                    line.push(compressed[pos]);
                    pos += 1;
                }
            }
        }
        assert_eq!(bytes_per_line, line.len());
        for _ in 0..line_repeat {
            out.extend_from_slice(&line);
        }
    }
    out
}

#[test]
fn decoding_recovers_bitmaps_without_single_literals() {
    // Bitmaps whose encodings contain no length-1 literal packet round-trip
    // through the reference decoder exactly.
    let mut bitmap = Vec::new();
    bitmap.extend_from_slice(&[5, 5, 5, 7, 8, 9]); // repeat, then literal of 3
    bitmap.extend_from_slice(&[1, 2, 3, 4, 5, 6]); // all literal
    bitmap.extend_from_slice(&[0, 0, 0, 0, 0, 0]); // one repeat run
    bitmap.extend_from_slice(&[0, 0, 0, 0, 0, 0]); // identical line
    bitmap.extend_from_slice(&[9, 8, 7, 7, 7, 7]); // literal, then repeat
    let mut output = Vec::new();
    compress(&bitmap, 6, 8, &mut output);
    assert_eq!(bitmap, decode(&output, 6));
}
