use pdf2pwg::pwg;
use pdf2pwg::render::A4Pixels;
use pdf2pwg::render::Colors;
use pdf2pwg::render::Resolution;
use pdf2pwg::urf;

fn be32(bytes: &[u8]) -> u32 {
    u32::from_be_bytes([bytes[0], bytes[1], bytes[2], bytes[3]])
}

#[test]
fn pwg_test_page_size_matches() {
    const PWG_HEADER_SIZE: usize = 1796;
    let pixels = A4Pixels::new(Resolution::Dpi600, Resolution::Dpi600, Colors::Gray);
    let header = pwg::PageHeader::new(&pixels);
    assert_eq!(PWG_HEADER_SIZE, header.as_slice().len());
}

#[test]
fn urf_test_page_size_matches() {
    const URF_HEADER_SIZE: usize = 32;
    let pixels = A4Pixels::new(Resolution::Dpi600, Resolution::Dpi600, Colors::Gray);
    let header = urf::PageHeader::new(&pixels);
    assert_eq!(URF_HEADER_SIZE, header.as_slice().len());
}

#[test]
fn pwg_header_fields_at_600_dpi() {
    let pixels = A4Pixels::new(Resolution::Dpi600, Resolution::Dpi600, Colors::Gray);
    let header = pwg::PageHeader::new(&pixels);
    let h = header.as_slice();

    // Leading PwgRaster name, NUL-padded to 64 bytes.
    assert_eq!(b"PwgRaster", &h[0..9]);
    assert!(h[9..64].iter().all(|&b| b == 0));
    // MediaColor, MediaType, PrintContentOptimize are empty strings.
    assert!(h[64..256].iter().all(|&b| b == 0));

    assert_eq!(600, be32(&h[276..280])); // HWResolutionFeed
    assert_eq!(600, be32(&h[280..284])); // HWResolutionCrossFeed
    assert_eq!(1, be32(&h[340..344])); // NumCopies
    assert_eq!(595, be32(&h[352..356])); // PageSizeWidthPts
    assert_eq!(842, be32(&h[356..360])); // PageSizeHeightPts
    assert_eq!(4960, be32(&h[372..376])); // Width
    assert_eq!(7016, be32(&h[376..380])); // Height
    assert_eq!(8, be32(&h[384..388])); // BitsPerColor
    assert_eq!(8, be32(&h[388..392])); // BitsPerPixel
    assert_eq!(4960, be32(&h[392..396])); // BytesPerLine
    assert_eq!(0, be32(&h[396..400])); // ColorOrder: chunky
    assert_eq!(18, be32(&h[400..404])); // ColorSpace: sgray
    assert_eq!(1, be32(&h[420..424])); // NumColors
    assert_eq!(1, be32(&h[452..456])); // TotalPageCount
    assert_eq!(1, be32(&h[456..460])); // CrossFeedTransform
    assert_eq!(1, be32(&h[460..464])); // FeedTransform
    assert_eq!(0x00ff_ffff, be32(&h[480..484])); // AlternatePrimary
    assert_eq!(0, be32(&h[508..512])); // VendorIdentifier
    assert_eq!(0, be32(&h[512..516])); // VendorLength
    assert!(h[516..1604].iter().all(|&b| b == 0)); // VendorData
    assert_eq!(b"iso_a4_210x297mm", &h[1732..1748]); // PageSizeName
    assert!(h[1748..1796].iter().all(|&b| b == 0));
}

#[test]
fn pwg_file_header_is_sync_word() {
    let pixels = A4Pixels::new(Resolution::Dpi300, Resolution::Dpi300, Colors::Gray);
    let mut out = Vec::new();
    pwg::write_file_header(&pixels, &mut out);
    assert_eq!(b"RaS2", out.as_slice());
}

#[test]
fn urf_header_fields_at_600_dpi() {
    let pixels = A4Pixels::new(Resolution::Dpi600, Resolution::Dpi600, Colors::Gray);
    let header = urf::PageHeader::new(&pixels);
    let h = header.as_slice();

    assert_eq!(8, h[0]); // BitsPerPixel
    assert_eq!(0, h[1]); // ColorSpace: sgray
    assert_eq!(1, h[2]); // Duplex: none
    assert_eq!(0, h[3]); // Quality: default
    assert_eq!(0, h[4]); // MediaType: automatic
    assert_eq!(0, h[5]); // MediaPosition: auto
    assert!(h[6..12].iter().all(|&b| b == 0));
    assert_eq!(4960, be32(&h[12..16])); // Width
    assert_eq!(7016, be32(&h[16..20])); // Height
    assert_eq!(600, be32(&h[20..24])); // HWResolution: cross-feed DPI
    assert!(h[24..32].iter().all(|&b| b == 0));
}

#[test]
fn urf_file_header_has_sync_word_and_page_count() {
    let pixels = A4Pixels::new(Resolution::Dpi300, Resolution::Dpi300, Colors::Gray);
    let mut out = Vec::new();
    urf::write_file_header(&pixels, 3, &mut out);
    assert_eq!(b"UNIRAST\0", &out[0..8]);
    assert_eq!(3, be32(&out[8..12]));
    assert_eq!(12, out.len());
}

#[test]
fn urf_create_page_frames_compressed_bytes() {
    let pixels = A4Pixels::new(Resolution::Dpi300, Resolution::Dpi300, Colors::Gray);
    let compressed = [0x01_u8, 0x02, 0x03];
    let page = urf::create_page(&pixels, 1, &compressed);
    assert_eq!(b"UNIRAST\0", &page[0..8]);
    assert_eq!(1, be32(&page[8..12]));
    assert_eq!(32 + 3, page[12..].len());
    assert_eq!(&compressed, &page[44..47]);
}

#[test]
fn cstring_keeps_short_text_and_pads_with_zeros() {
    let mut out = Vec::new();
    pwg::CString::new("PwgRaster").write(&mut out);
    assert_eq!(64, out.len());
    assert_eq!(b"PwgRaster", &out[0..9]);
    assert!(out[9..].iter().all(|&b| b == 0));
}

#[test]
fn cstring_truncates_long_text_to_63_bytes_and_terminator() {
    let long = "x".repeat(80);
    let mut out = Vec::new();
    pwg::CString::new(&long).write(&mut out);
    assert_eq!(64, out.len());
    assert!(out[0..63].iter().all(|&b| b == b'x'));
    assert_eq!(0, out[63]);
}

#[test]
fn pwg_value_types_serialize_big_endian() {
    let mut out = Vec::new();
    pwg::Boolean::new(true).write(&mut out);
    pwg::Integer::new(-2).write(&mut out);
    pwg::UnsignedInteger::new(0x0102_0304).write(&mut out);
    pwg::SrgbColor::new(0x00ff_ffff).write(&mut out);
    pwg::HwResolution::new(600, 300).write(&mut out);
    assert_eq!(
        &[
            0, 0, 0, 1, // true
            0xff, 0xff, 0xff, 0xfe, // -2
            1, 2, 3, 4, // 0x01020304
            0, 0xff, 0xff, 0xff, // white
            0, 0, 2, 0x58, // 600
            0, 0, 1, 0x2c, // 300
        ],
        out.as_slice()
    );
}

#[test]
fn page_size_rounds_points_to_nearest() {
    let pixels = A4Pixels::new(Resolution::Dpi300, Resolution::Dpi300, Colors::Gray);
    let size = pwg::PageSize::new(&pixels);
    // 2480 px at 300 dpi: (2480 * 72 + 150) / 300 = 595.7 -> 595.
    assert_eq!(595, size.width.value);
    // 3508 px at 300 dpi: (3508 * 72 + 150) / 300 = 842.42 -> 842.
    assert_eq!(842, size.height.value);
}

#[test]
fn enum_codes_match_the_wire_values() {
    assert_eq!(18, pwg::ColorSpace::Sgray.code());
    assert_eq!(19, pwg::ColorSpace::Srgb.code());
    assert_eq!(48, pwg::ColorSpace::Device1.code());
    assert_eq!(62, pwg::ColorSpace::Device15.code());
    assert_eq!(3, pwg::PrintQuality::Draft.code());
    assert_eq!(4, pwg::When::AfterPage.code());
    assert_eq!(49, pwg::MediaPosition::Roll10.code());
    assert_eq!(1, pwg::Edge::LongEdgeFirst.code());
    assert_eq!(0, pwg::ColorOrder::Chunky.code());
    assert_eq!(3, pwg::Orientation::ReverseLandscape.code());

    assert_eq!(0, urf::ColorSpace::Sgray.code());
    assert_eq!(6, urf::ColorSpace::CMYK.code());
    assert_eq!(3, urf::Duplex::LongSide.code());
    assert_eq!(13, urf::MediaType::OtherMediaType.code());
    assert_eq!(5, urf::Quality::High.code());
    assert_eq!(49, urf::MediaPosition::Roll10.code());
}

#[test]
fn page_size_points_at_400_dpi() {
    let pixels = A4Pixels::new(Resolution::Dpi400, Resolution::Dpi400, Colors::Gray);
    let size = pwg::PageSize::new(&pixels);
    // 3307 px at 400 dpi: (3307 * 72 + 200) / 400 = 595.76 -> 595.
    assert_eq!(595, size.width.value);
    // 4667 px at 400 dpi: (4667 * 72 + 200) / 400 = 840.56 -> 840.
    assert_eq!(840, size.height.value);
}

#[test]
fn mixed_resolutions_use_each_axis_table() {
    let pixels = A4Pixels::new(Resolution::Dpi400, Resolution::Dpi600, Colors::Gray);
    assert_eq!(3307, pixels.width());
    assert_eq!(7016, pixels.height());
    assert_eq!(400, pixels.resolution_width());
    assert_eq!(600, pixels.resolution_height());
    let header = pwg::PageHeader::new(&pixels);
    let h = header.as_slice();
    assert_eq!(600, be32(&h[276..280])); // feed resolution
    assert_eq!(400, be32(&h[280..284])); // cross-feed resolution
}
