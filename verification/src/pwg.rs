//! PWG-Raster header codec: the 4-byte file sync word and the bit-exact
//! 1796-byte page header, all multi-byte fields big-endian.

use vstd::prelude::*;

use crate::render::A4Pixels;
use crate::wire::{be32, cstr64, push_be32, push_bytes, push_zeros, zeros};
use vstd::string::StringSliceAdditionalSpecFns;

verus! {

/// The bytes of the name `PwgRaster` that opens every page header.
pub open spec fn pwg_raster_name() -> Seq<u8> {
    seq![0x50u8, 0x77u8, 0x67u8, 0x52u8, 0x61u8, 0x73u8, 0x74u8, 0x65u8, 0x72u8]
}

/// The bytes of the page size name `iso_a4_210x297mm`.
pub open spec fn a4_name() -> Seq<u8> {
    seq![
        0x69u8, 0x73u8, 0x6fu8, 0x5fu8, 0x61u8, 0x34u8, 0x5fu8, 0x32u8, 0x31u8, 0x30u8, 0x78u8,
        0x32u8, 0x39u8, 0x37u8, 0x6du8, 0x6du8,
    ]
}

/// The 4-byte PWG file sync word `RaS2`.
pub open spec fn pwg_sync_word() -> Seq<u8> {
    seq![0x52u8, 0x61u8, 0x53u8, 0x32u8]
}

proof fn lemma_pwg_raster_name_bytes()
    ensures
        ("PwgRaster").spec_bytes() == pwg_raster_name(),
{
    reveal_strlit("PwgRaster");
    assert(("PwgRaster")@ =~= seq!['P', 'w', 'g', 'R', 'a', 's', 't', 'e', 'r']);
    assert(vstd::string::is_ascii("PwgRaster"));
    vstd::string::is_ascii_spec_bytes("PwgRaster");
    assert(("PwgRaster").spec_bytes() =~= pwg_raster_name());
}

proof fn lemma_a4_name_bytes()
    ensures
        ("iso_a4_210x297mm").spec_bytes() == a4_name(),
{
    reveal_strlit("iso_a4_210x297mm");
    assert(("iso_a4_210x297mm")@ =~= seq![
        'i', 's', 'o', '_', 'a', '4', '_', '2', '1', '0', 'x', '2', '9', '7', 'm', 'm',
    ]);
    assert(vstd::string::is_ascii("iso_a4_210x297mm"));
    vstd::string::is_ascii_spec_bytes("iso_a4_210x297mm");
    assert(("iso_a4_210x297mm").spec_bytes() =~= a4_name());
}

proof fn lemma_empty_str_bytes()
    ensures
        ("").spec_bytes() == Seq::<u8>::empty(),
{
    reveal_strlit("");
    assert((""@).len() == 0);
    assert(("").spec_bytes() =~= Seq::<u8>::empty());
}

/// A boolean serialized as a big-endian 32-bit word.
pub struct Boolean {
    pub value: bool,
}

impl Boolean {
    pub open spec fn spec_bytes(self) -> Seq<u8> {
        be32(
            if self.value {
                1u32
            } else {
                0u32
            },
        )
    }

    pub fn new(value: bool) -> (r: Boolean)
        ensures
            r.value == value,
    {
        Boolean { value }
    }

    pub fn write(&self, out: &mut Vec<u8>)
        ensures
            final(out)@ == old(out)@ + self.spec_bytes(),
    {
        if self.value {
            push_be32(out, 1);
        } else {
            push_be32(out, 0);
        }
    }
}

/// A fixed 64-byte string buffer: up to 63 bytes of text, NUL-padded.
pub struct CString {
    bytes: Vec<u8>,
}

impl View for CString {
    type V = Seq<u8>;

    closed spec fn view(&self) -> Seq<u8> {
        self.bytes@
    }
}

impl CString {
    pub fn new(string: &str) -> (r: CString)
        ensures
            r@ == cstr64(string.spec_bytes()),
            r@.len() == 64,
    {
        let input = string.as_bytes();
        let n = input.len();
        let k: usize = if n > 63 {
            63
        } else {
            n
        };
        let head = vstd::slice::slice_subrange(input, 0, k);
        let mut bytes: Vec<u8> = Vec::new();
        push_bytes(&mut bytes, head);
        push_zeros(&mut bytes, 64 - k);
        proof {
            assert(bytes@ =~= cstr64(string.spec_bytes()));
        }
        CString { bytes }
    }

    pub fn write(&self, out: &mut Vec<u8>)
        ensures
            final(out)@ == old(out)@ + self@,
    {
        push_bytes(out, self.bytes.as_slice());
    }
}

impl Default for CString {
    fn default() -> (r: CString)
        ensures
            r@ == cstr64(Seq::<u8>::empty()),
            r@.len() == 64,
    {
        proof {
            lemma_empty_str_bytes();
        }
        CString::new("")
    }
}

/// Pixel component order; only chunky layout is produced.
pub enum ColorOrder {
    Chunky,
}

impl ColorOrder {
    pub open spec fn spec_code(self) -> u32 {
        match self {
            ColorOrder::Chunky => 0,
        }
    }

    pub fn code(&self) -> (r: u32)
        ensures
            r == self.spec_code(),
    {
        match self {
            ColorOrder::Chunky => 0,
        }
    }
}

/// PWG color space codes; grayscale output uses `Sgray`.
pub enum ColorSpace {
    Rgb,
    Black,
    Cmyk,
    Sgray,
    Srgb,
    AdobeRgb,
    Device1,
    Device2,
    Device3,
    Device4,
    Device5,
    Device6,
    Device7,
    Device8,
    Device9,
    Device10,
    Device11,
    Device12,
    Device13,
    Device14,
    Device15,
}

impl ColorSpace {
    pub open spec fn spec_code(self) -> u32 {
        match self {
            ColorSpace::Rgb => 1,
            ColorSpace::Black => 3,
            ColorSpace::Cmyk => 6,
            ColorSpace::Sgray => 18,
            ColorSpace::Srgb => 19,
            ColorSpace::AdobeRgb => 20,
            ColorSpace::Device1 => 48,
            ColorSpace::Device2 => 49,
            ColorSpace::Device3 => 50,
            ColorSpace::Device4 => 51,
            ColorSpace::Device5 => 52,
            ColorSpace::Device6 => 53,
            ColorSpace::Device7 => 54,
            ColorSpace::Device8 => 55,
            ColorSpace::Device9 => 56,
            ColorSpace::Device10 => 57,
            ColorSpace::Device11 => 58,
            ColorSpace::Device12 => 59,
            ColorSpace::Device13 => 60,
            ColorSpace::Device14 => 61,
            ColorSpace::Device15 => 62,
        }
    }

    pub fn code(&self) -> (r: u32)
        ensures
            r == self.spec_code(),
    {
        match self {
            ColorSpace::Rgb => 1,
            ColorSpace::Black => 3,
            ColorSpace::Cmyk => 6,
            ColorSpace::Sgray => 18,
            ColorSpace::Srgb => 19,
            ColorSpace::AdobeRgb => 20,
            ColorSpace::Device1 => 48,
            ColorSpace::Device2 => 49,
            ColorSpace::Device3 => 50,
            ColorSpace::Device4 => 51,
            ColorSpace::Device5 => 52,
            ColorSpace::Device6 => 53,
            ColorSpace::Device7 => 54,
            ColorSpace::Device8 => 55,
            ColorSpace::Device9 => 56,
            ColorSpace::Device10 => 57,
            ColorSpace::Device11 => 58,
            ColorSpace::Device12 => 59,
            ColorSpace::Device13 => 60,
            ColorSpace::Device14 => 61,
            ColorSpace::Device15 => 62,
        }
    }
}

/// Which paper edge enters the printer first.
pub enum Edge {
    ShortEdgeFirst,
    LongEdgeFirst,
}

impl Edge {
    pub open spec fn spec_code(self) -> u32 {
        match self {
            Edge::ShortEdgeFirst => 0,
            Edge::LongEdgeFirst => 1,
        }
    }

    pub fn code(&self) -> (r: u32)
        ensures
            r == self.spec_code(),
    {
        match self {
            Edge::ShortEdgeFirst => 0,
            Edge::LongEdgeFirst => 1,
        }
    }
}

/// A signed integer serialized as a big-endian 32-bit word.
pub struct Integer {
    pub value: i32,
}

impl Integer {
    pub open spec fn spec_bytes(self) -> Seq<u8> {
        be32(self.value as u32)
    }

    pub fn new(value: i32) -> (r: Integer)
        ensures
            r.value == value,
    {
        Integer { value }
    }

    pub fn write(&self, out: &mut Vec<u8>)
        ensures
            final(out)@ == old(out)@ + self.spec_bytes(),
    {
        push_be32(out, self.value as u32);
    }
}

impl Default for Integer {
    fn default() -> (r: Integer)
        ensures
            r.value == 0,
    {
        Integer { value: 0 }
    }
}

/// PWG media input positions.
pub enum MediaPosition {
    Auto,
    Main,
    Alternate,
    LargeCapacity,
    Manual,
    Envelope,
    Disc,
    Photo,
    Hagaki,
    MainRoll,
    AlternateRoll,
    Top,
    Middle,
    Bottom,
    Side,
    Left,
    Right,
    Center,
    Rear,
    ByPassTray,
    Tray1,
    Tray2,
    Tray3,
    Tray4,
    Tray5,
    Tray6,
    Tray7,
    Tray8,
    Tray9,
    Tray10,
    Tray11,
    Tray12,
    Tray13,
    Tray14,
    Tray15,
    Tray16,
    Tray17,
    Tray18,
    Tray19,
    Tray20,
    Roll1,
    Roll2,
    Roll3,
    Roll4,
    Roll5,
    Roll6,
    Roll7,
    Roll8,
    Roll9,
    Roll10,
}

impl MediaPosition {
    pub open spec fn spec_code(self) -> u32 {
        match self {
            MediaPosition::Auto => 0,
            MediaPosition::Main => 1,
            MediaPosition::Alternate => 2,
            MediaPosition::LargeCapacity => 3,
            MediaPosition::Manual => 4,
            MediaPosition::Envelope => 5,
            MediaPosition::Disc => 6,
            MediaPosition::Photo => 7,
            MediaPosition::Hagaki => 8,
            MediaPosition::MainRoll => 9,
            MediaPosition::AlternateRoll => 10,
            MediaPosition::Top => 11,
            MediaPosition::Middle => 12,
            MediaPosition::Bottom => 13,
            MediaPosition::Side => 14,
            MediaPosition::Left => 15,
            MediaPosition::Right => 16,
            MediaPosition::Center => 17,
            MediaPosition::Rear => 18,
            MediaPosition::ByPassTray => 19,
            MediaPosition::Tray1 => 20,
            MediaPosition::Tray2 => 21,
            MediaPosition::Tray3 => 22,
            MediaPosition::Tray4 => 23,
            MediaPosition::Tray5 => 24,
            MediaPosition::Tray6 => 25,
            MediaPosition::Tray7 => 26,
            MediaPosition::Tray8 => 27,
            MediaPosition::Tray9 => 28,
            MediaPosition::Tray10 => 29,
            MediaPosition::Tray11 => 30,
            MediaPosition::Tray12 => 31,
            MediaPosition::Tray13 => 32,
            MediaPosition::Tray14 => 33,
            MediaPosition::Tray15 => 34,
            MediaPosition::Tray16 => 35,
            MediaPosition::Tray17 => 36,
            MediaPosition::Tray18 => 37,
            MediaPosition::Tray19 => 38,
            MediaPosition::Tray20 => 39,
            MediaPosition::Roll1 => 40,
            MediaPosition::Roll2 => 41,
            MediaPosition::Roll3 => 42,
            MediaPosition::Roll4 => 43,
            MediaPosition::Roll5 => 44,
            MediaPosition::Roll6 => 45,
            MediaPosition::Roll7 => 46,
            MediaPosition::Roll8 => 47,
            MediaPosition::Roll9 => 48,
            MediaPosition::Roll10 => 49,
        }
    }

    pub fn code(&self) -> (r: u32)
        ensures
            r == self.spec_code(),
    {
        match self {
            MediaPosition::Auto => 0,
            MediaPosition::Main => 1,
            MediaPosition::Alternate => 2,
            MediaPosition::LargeCapacity => 3,
            MediaPosition::Manual => 4,
            MediaPosition::Envelope => 5,
            MediaPosition::Disc => 6,
            MediaPosition::Photo => 7,
            MediaPosition::Hagaki => 8,
            MediaPosition::MainRoll => 9,
            MediaPosition::AlternateRoll => 10,
            MediaPosition::Top => 11,
            MediaPosition::Middle => 12,
            MediaPosition::Bottom => 13,
            MediaPosition::Side => 14,
            MediaPosition::Left => 15,
            MediaPosition::Right => 16,
            MediaPosition::Center => 17,
            MediaPosition::Rear => 18,
            MediaPosition::ByPassTray => 19,
            MediaPosition::Tray1 => 20,
            MediaPosition::Tray2 => 21,
            MediaPosition::Tray3 => 22,
            MediaPosition::Tray4 => 23,
            MediaPosition::Tray5 => 24,
            MediaPosition::Tray6 => 25,
            MediaPosition::Tray7 => 26,
            MediaPosition::Tray8 => 27,
            MediaPosition::Tray9 => 28,
            MediaPosition::Tray10 => 29,
            MediaPosition::Tray11 => 30,
            MediaPosition::Tray12 => 31,
            MediaPosition::Tray13 => 32,
            MediaPosition::Tray14 => 33,
            MediaPosition::Tray15 => 34,
            MediaPosition::Tray16 => 35,
            MediaPosition::Tray17 => 36,
            MediaPosition::Tray18 => 37,
            MediaPosition::Tray19 => 38,
            MediaPosition::Tray20 => 39,
            MediaPosition::Roll1 => 40,
            MediaPosition::Roll2 => 41,
            MediaPosition::Roll3 => 42,
            MediaPosition::Roll4 => 43,
            MediaPosition::Roll5 => 44,
            MediaPosition::Roll6 => 45,
            MediaPosition::Roll7 => 46,
            MediaPosition::Roll8 => 47,
            MediaPosition::Roll9 => 48,
            MediaPosition::Roll10 => 49,
        }
    }
}

/// Page orientation codes.
pub enum Orientation {
    Portrait,
    Landscape,
    ReversePortrait,
    ReverseLandscape,
}

impl Orientation {
    pub open spec fn spec_code(self) -> u32 {
        match self {
            Orientation::Portrait => 0,
            Orientation::Landscape => 1,
            Orientation::ReversePortrait => 2,
            Orientation::ReverseLandscape => 3,
        }
    }

    pub fn code(&self) -> (r: u32)
        ensures
            r == self.spec_code(),
    {
        match self {
            Orientation::Portrait => 0,
            Orientation::Landscape => 1,
            Orientation::ReversePortrait => 2,
            Orientation::ReverseLandscape => 3,
        }
    }
}

/// Print quality codes.
pub enum PrintQuality {
    Default,
    Draft,
    Normal,
    High,
}

impl PrintQuality {
    pub open spec fn spec_code(self) -> u32 {
        match self {
            PrintQuality::Default => 0,
            PrintQuality::Draft => 3,
            PrintQuality::Normal => 4,
            PrintQuality::High => 5,
        }
    }

    pub fn code(&self) -> (r: u32)
        ensures
            r == self.spec_code(),
    {
        match self {
            PrintQuality::Default => 0,
            PrintQuality::Draft => 3,
            PrintQuality::Normal => 4,
            PrintQuality::High => 5,
        }
    }
}

/// `N` reserved bytes, always written as zeros.
pub struct Reserved<const N: usize> {}

impl<const N: usize> Reserved<N> {
    pub fn write(&self, out: &mut Vec<u8>)
        ensures
            final(out)@ == old(out)@ + zeros(N as int),
    {
        push_zeros(out, N);
    }
}

impl<const N: usize> Default for Reserved<N> {
    fn default() -> (r: Reserved<N>)
        ensures
            r == (Reserved::<N> {  }),
    {
        Reserved {}
    }
}

/// Reserved vendor-data area of the page header.
pub type VendorData = Reserved<1088>;

/// An sRGB color serialized as a big-endian 32-bit word.
pub struct SrgbColor {
    pub value: u32,
}

impl SrgbColor {
    pub open spec fn spec_bytes(self) -> Seq<u8> {
        be32(self.value)
    }

    pub fn new(value: u32) -> (r: SrgbColor)
        ensures
            r.value == value,
    {
        SrgbColor { value }
    }

    pub fn write(&self, out: &mut Vec<u8>)
        ensures
            final(out)@ == old(out)@ + self.spec_bytes(),
    {
        push_be32(out, self.value);
    }
}

/// An unsigned integer serialized as a big-endian 32-bit word.
pub struct UnsignedInteger {
    pub value: u32,
}

impl UnsignedInteger {
    pub open spec fn spec_bytes(self) -> Seq<u8> {
        be32(self.value)
    }

    pub fn new(value: u32) -> (r: UnsignedInteger)
        ensures
            r.value == value,
    {
        UnsignedInteger { value }
    }

    pub fn write(&self, out: &mut Vec<u8>)
        ensures
            final(out)@ == old(out)@ + self.spec_bytes(),
    {
        push_be32(out, self.value);
    }
}

impl Default for UnsignedInteger {
    fn default() -> (r: UnsignedInteger)
        ensures
            r.value == 0,
    {
        UnsignedInteger { value: 0 }
    }
}

/// When the printer should cut or jog media.
pub enum When {
    Never,
    AfterDocument,
    AfterJob,
    AfterSet,
    AfterPage,
}

impl When {
    pub open spec fn spec_code(self) -> u32 {
        match self {
            When::Never => 0,
            When::AfterDocument => 1,
            When::AfterJob => 2,
            When::AfterSet => 3,
            When::AfterPage => 4,
        }
    }

    pub fn code(&self) -> (r: u32)
        ensures
            r == self.spec_code(),
    {
        match self {
            When::Never => 0,
            When::AfterDocument => 1,
            When::AfterJob => 2,
            When::AfterSet => 3,
            When::AfterPage => 4,
        }
    }
}

/// Feed and cross-feed resolution pair.
pub struct HwResolution {
    pub feed_res_dpi: UnsignedInteger,
    pub cross_feed_res_dpi: UnsignedInteger,
}

impl HwResolution {
    pub fn new(feed_dpi: u32, cross_feed_dpi: u32) -> (r: HwResolution)
        ensures
            r.feed_res_dpi.value == feed_dpi,
            r.cross_feed_res_dpi.value == cross_feed_dpi,
    {
        HwResolution {
            feed_res_dpi: UnsignedInteger::new(feed_dpi),
            cross_feed_res_dpi: UnsignedInteger::new(cross_feed_dpi),
        }
    }

    pub fn write(&self, out: &mut Vec<u8>)
        ensures
            final(out)@ == old(out)@ + be32(self.feed_res_dpi.value) + be32(
                self.cross_feed_res_dpi.value,
            ),
    {
        self.feed_res_dpi.write(out);
        self.cross_feed_res_dpi.write(out);
    }
}

/// Page size in points, rounded to nearest from pixels and resolution and
/// saturated to the 32-bit range.
pub open spec fn pwg_points(px: int, dpi: int) -> u32 {
    let p = (px * 72 + dpi / 2) / dpi;
    if p > u32::MAX {
        u32::MAX
    } else {
        p as u32
    }
}

/// Page size in points, width and height.
pub struct PageSize {
    pub width: UnsignedInteger,
    pub height: UnsignedInteger,
}

impl PageSize {
    pub fn new(page_pixels: &A4Pixels) -> (r: PageSize)
        requires
            page_pixels.wf(),
        ensures
            r.width.value == pwg_points(
                page_pixels.width as int,
                page_pixels.resolution_width as int,
            ),
            r.height.value == pwg_points(
                page_pixels.height as int,
                page_pixels.resolution_height as int,
            ),
    {
        let width_dpi = page_pixels.resolution_width() as u64;
        let width_points = ((page_pixels.width() as u64) * 72 + width_dpi / 2) / width_dpi;

        let height_dpi = page_pixels.resolution_height() as u64;
        let height_points = ((page_pixels.height() as u64) * 72 + height_dpi / 2) / height_dpi;

        let width_pts: u32 = if width_points > 0xffff_ffff {
            u32::MAX
        } else {
            width_points as u32
        };
        let height_pts: u32 = if height_points > 0xffff_ffff {
            u32::MAX
        } else {
            height_points as u32
        };

        PageSize { width: UnsignedInteger::new(width_pts), height: UnsignedInteger::new(
            height_pts,
        ) }
    }

    pub fn write(&self, out: &mut Vec<u8>)
        ensures
            final(out)@ == old(out)@ + be32(self.width.value) + be32(self.height.value),
    {
        self.width.write(out);
        self.height.write(out);
    }
}

/// The 1796 bytes of the PWG page header for a render target: the fixed
/// constants of this encoder with the canvas-dependent fields filled in.
pub open spec fn spec_page_header(p: A4Pixels) -> Seq<u8> {
    cstr64(pwg_raster_name()) + cstr64(Seq::<u8>::empty()) + cstr64(Seq::<u8>::empty()) + cstr64(
        Seq::<u8>::empty(),
    ) + zeros(12) + be32(0)  // CutMedia: never
     + be32(0)  // Duplex: false
     + be32(p.resolution_height as u32) + be32(p.resolution_width as u32) + zeros(16) + be32(0)  // InsertSheet: false
     + be32(0)  // Jog: never
     + be32(0)  // LeadingEdge: short edge first
     + zeros(12) + be32(0)  // MediaPosition: auto
     + be32(0)  // MediaWeight
     + zeros(8) + be32(1)  // NumCopies
     + be32(0)  // Orientation: portrait
     + zeros(4) + be32(pwg_points(p.width as int, p.resolution_width as int)) + be32(
        pwg_points(p.height as int, p.resolution_height as int),
    ) + zeros(8) + be32(0)  // Tumble: false
     + be32(p.width as u32) + be32(p.height as u32) + zeros(4) + be32(p.bits_per_pixel as u32)
        + be32(p.bits_per_pixel as u32) + be32(p.spec_bytes_per_line() as u32) + be32(0)  // ColorOrder: chunky
     + be32(18)  // ColorSpace: sgray
     + zeros(16) + be32(1)  // NumColors
     + zeros(28) + be32(1)  // TotalPageCount
     + be32(1)  // CrossFeedTransform
     + be32(1)  // FeedTransform
     + be32(0) + be32(0) + be32(0) + be32(0)  // ImageBox
     + be32(0x00ffffff)  // AlternatePrimary: white
     + be32(0)  // PrintQuality: default
     + zeros(20) + be32(0)  // VendorIdentifier
     + be32(0)  // VendorLength
     + zeros(1088) + zeros(64) + cstr64(Seq::<u8>::empty()) + cstr64(a4_name())
}

pub proof fn lemma_spec_page_header_len(p: A4Pixels)
    ensures
        spec_page_header(p).len() == 1796,
{
}

/// The serialized PWG page header of one page.
pub struct PageHeader {
    bytes: Vec<u8>,
}

impl View for PageHeader {
    type V = Seq<u8>;

    closed spec fn view(&self) -> Seq<u8> {
        self.bytes@
    }
}

impl PageHeader {
    /// Serializes the page header for the given render target; the record is
    /// always exactly 1796 bytes.
    pub fn new(page_pixels: &A4Pixels) -> (r: PageHeader)
        requires
            page_pixels.wf(),
        ensures
            r@ == spec_page_header(*page_pixels),
            r@.len() == 1796,
    {
        let mut b: Vec<u8> = Vec::new();

        let name = CString::new("PwgRaster");
        proof {
            lemma_pwg_raster_name_bytes();
        }
        name.write(&mut b);
        proof {
            assert(b@ =~= cstr64(pwg_raster_name()));
        }
        let media_color = CString::default();
        media_color.write(&mut b);
        let media_type = CString::default();
        media_type.write(&mut b);
        let optimize = CString::default();
        optimize.write(&mut b);
        let reserved1: Reserved<12> = Reserved::default();
        reserved1.write(&mut b);
        push_be32(&mut b, When::Never.code());  // CutMedia
        Boolean::new(false).write(&mut b);  // Duplex
        HwResolution::new(
            page_pixels.resolution_height() as u32,
            page_pixels.resolution_width() as u32,
        ).write(&mut b);
        let reserved2: Reserved<16> = Reserved::default();
        reserved2.write(&mut b);
        Boolean::new(false).write(&mut b);  // InsertSheet
        push_be32(&mut b, When::Never.code());  // Jog
        push_be32(&mut b, Edge::ShortEdgeFirst.code());  // LeadingEdge
        let reserved3: Reserved<12> = Reserved::default();
        reserved3.write(&mut b);
        push_be32(&mut b, MediaPosition::Auto.code());
        UnsignedInteger::default().write(&mut b);  // MediaWeight
        let reserved4: Reserved<8> = Reserved::default();
        reserved4.write(&mut b);
        UnsignedInteger::new(1).write(&mut b);  // NumCopies
        push_be32(&mut b, Orientation::Portrait.code());
        let reserved5: Reserved<4> = Reserved::default();
        reserved5.write(&mut b);
        PageSize::new(page_pixels).write(&mut b);
        let reserved6: Reserved<8> = Reserved::default();
        reserved6.write(&mut b);
        Boolean::new(false).write(&mut b);  // Tumble
        UnsignedInteger::new(page_pixels.width() as u32).write(&mut b);
        UnsignedInteger::new(page_pixels.height() as u32).write(&mut b);
        let reserved7: Reserved<4> = Reserved::default();
        reserved7.write(&mut b);
        UnsignedInteger::new(page_pixels.bits_per_pixel() as u32).write(&mut b);  // BitsPerColor
        UnsignedInteger::new(page_pixels.bits_per_pixel() as u32).write(&mut b);  // BitsPerPixel
        UnsignedInteger::new(page_pixels.bytes_per_line() as u32).write(&mut b);
        push_be32(&mut b, ColorOrder::Chunky.code());
        push_be32(&mut b, ColorSpace::Sgray.code());
        let reserved8: Reserved<16> = Reserved::default();
        reserved8.write(&mut b);
        UnsignedInteger::new(1).write(&mut b);  // NumColors
        let reserved9: Reserved<28> = Reserved::default();
        reserved9.write(&mut b);
        UnsignedInteger::new(1).write(&mut b);  // TotalPageCount
        Integer::new(1).write(&mut b);  // CrossFeedTransform
        Integer::new(1).write(&mut b);  // FeedTransform
        UnsignedInteger::default().write(&mut b);  // ImageBoxLeft
        UnsignedInteger::default().write(&mut b);  // ImageBoxTop
        UnsignedInteger::default().write(&mut b);  // ImageBoxRight
        UnsignedInteger::default().write(&mut b);  // ImageBoxBottom
        SrgbColor::new(0x00ffffff).write(&mut b);  // AlternatePrimary
        push_be32(&mut b, PrintQuality::Default.code());
        let reserved10: Reserved<20> = Reserved::default();
        reserved10.write(&mut b);
        UnsignedInteger::default().write(&mut b);  // VendorIdentifier
        UnsignedInteger::default().write(&mut b);  // VendorLength
        let vendor_data: VendorData = Reserved::default();
        vendor_data.write(&mut b);
        let reserved11: Reserved<64> = Reserved::default();
        reserved11.write(&mut b);
        let intent = CString::default();
        intent.write(&mut b);
        let page_size_name = CString::new("iso_a4_210x297mm");
        proof {
            lemma_a4_name_bytes();
        }
        page_size_name.write(&mut b);

        proof {
            assert(b@ == spec_page_header(*page_pixels));
            lemma_spec_page_header_len(*page_pixels);
        }
        PageHeader { bytes: b }
    }

    pub fn as_slice(&self) -> (r: &[u8])
        ensures
            r@ == self@,
    {
        self.bytes.as_slice()
    }
}

/// Writes the 4-byte PWG file sync word `RaS2`.
pub fn write_file_header(_pixels: &A4Pixels, writer: &mut Vec<u8>)
    ensures
        final(writer)@ == old(writer)@ + pwg_sync_word(),
{
    writer.push(0x52u8);
    writer.push(0x61u8);
    writer.push(0x53u8);
    writer.push(0x32u8);
    proof {
        assert(writer@ =~= old(writer)@ + pwg_sync_word());
    }
}

/// Writes the 1796-byte PWG page header for one page.
pub fn write_page_header(pixels: &A4Pixels, writer: &mut Vec<u8>)
    requires
        pixels.wf(),
    ensures
        final(writer)@ == old(writer)@ + spec_page_header(*pixels),
{
    push_bytes(writer, PageHeader::new(pixels).as_slice());
}

} // verus!
