use pdf2pwg::render::bgr_to_gray;
use pdf2pwg::render::render_pages;
use pdf2pwg::render::A4Pixels;
use pdf2pwg::render::Colors;
use pdf2pwg::Format;
use pdf2pwg::Resolution;

fn be32(bytes: &[u8]) -> u32 {
    u32::from_be_bytes([bytes[0], bytes[1], bytes[2], bytes[3]])
}

#[test]
fn canvas_follows_the_a4_table() {
    let cases = [
        (Resolution::Dpi300, 300, 2480, 3508),
        (Resolution::Dpi400, 400, 3307, 4667),
        (Resolution::Dpi600, 600, 4960, 7016),
    ];
    for &(res, dpi, width, height) in &cases {
        let gray = A4Pixels::new(res, res, Colors::Gray);
        assert_eq!(dpi, gray.resolution_width());
        assert_eq!(dpi, gray.resolution_height());
        assert_eq!(width, gray.width());
        assert_eq!(height, gray.height());
        assert_eq!(8, gray.bits_per_pixel());
        assert_eq!(width, gray.bytes_per_line());
        assert_eq!(width * height, gray.len());

        let color = A4Pixels::new(res, res, Colors::Colored);
        assert_eq!(24, color.bits_per_pixel());
        assert_eq!(width * 3, color.bytes_per_line());
        assert_eq!(width * height * 3, color.len());
    }
}

#[test]
fn bytes_per_line_holds_whole_bytes_of_pixel_bits() {
    for &rw in &[Resolution::Dpi300, Resolution::Dpi400, Resolution::Dpi600] {
        for &mode in &[Colors::Gray, Colors::Colored] {
            let pixels = A4Pixels::new(rw, Resolution::Dpi300, mode);
            let bits = pixels.width() * pixels.bits_per_pixel();
            let bpl = pixels.bytes_per_line();
            assert!(bpl * 8 >= bits);
            assert!(bpl * 8 < bits + 8);
        }
    }
}

#[test]
fn bgr_to_gray_takes_the_blue_channel() {
    let bgr = [10_u8, 11, 12, 20, 21, 22, 30, 31, 32];
    let mut gray = vec![0_u8; 3];
    bgr_to_gray(&bgr, &mut gray);
    assert_eq!(vec![10_u8, 20, 30], gray);
}

#[test]
fn blank_white_page_pwg_stream_at_600_dpi() {
    let gray = A4Pixels::new(Resolution::Dpi600, Resolution::Dpi600, Colors::Gray);
    let page = vec![0xff_u8; gray.len()];
    let output = render_pages(
        Format::Pwg,
        Resolution::Dpi600,
        Resolution::Dpi600,
        &vec![page],
    );

    assert_eq!(&[0x52_u8, 0x61, 0x53, 0x32], &output[0..4]); // "RaS2"
    assert_eq!(4960, be32(&output[372 + 4..376 + 4])); // Width
    assert_eq!(7016, be32(&output[376 + 4..380 + 4])); // Height
    assert_eq!(8, be32(&output[388 + 4..392 + 4])); // BitsPerPixel

    // One scanline of 4960 bytes 0xff: 38 repeat packets of 128 and one of 96.
    let mut line_enc = Vec::new();
    for _ in 0..38 {
        line_enc.push(0x7f_u8);
        line_enc.push(0xff_u8);
    }
    line_enc.push(95_u8);
    line_enc.push(0xff_u8);

    // 7016 identical scanlines: 27 outer chunks of 256 and one of 104.
    let mut body = Vec::new();
    for _ in 0..27 {
        body.push(0xff_u8);
        body.extend_from_slice(&line_enc);
    }
    body.push(103_u8);
    body.extend_from_slice(&line_enc);

    assert_eq!(&body, &output[1800..]);
    assert_eq!(4 + 1796 + body.len(), output.len());
}

#[test]
fn two_page_urf_stream_counts_and_frames_pages() {
    let gray = A4Pixels::new(Resolution::Dpi300, Resolution::Dpi300, Colors::Gray);
    let white = vec![0xff_u8; gray.len()];
    let black = vec![0x00_u8; gray.len()];
    let output = render_pages(
        Format::Urf,
        Resolution::Dpi300,
        Resolution::Dpi300,
        &vec![white, black],
    );

    assert_eq!(b"UNIRAST\0", &output[0..8]);
    assert_eq!(2, be32(&output[8..12]));
    // First page header.
    assert_eq!(8, output[12]);
    assert_eq!(2480, be32(&output[24..28]));
    assert_eq!(3508, be32(&output[28..32]));
    assert_eq!(300, be32(&output[32..36]));

    // 2480 bytes per line: 19 repeat packets of 128 and one of 48.
    let line_len = 20 * 2;
    // 3508 lines: 13 outer chunks of 256 and one of 180.
    let body_len = 14 * (1 + line_len);
    // Two equal-sized page bodies, each after a 32-byte page header.
    assert_eq!(12 + 2 * (32 + body_len), output.len());
}
