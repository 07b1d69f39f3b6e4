//! Apple URF (UNIRAST) codec: the 8-byte sync word, the big-endian page
//! count, and the bit-exact 32-byte page header.

use vstd::prelude::*;

use crate::render::A4Pixels;
use crate::wire::{be32, push_be32, push_bytes, push_zeros, zeros};

verus! {

/// The 8-byte URF file sync word `UNIRAST` with its NUL terminator.
pub open spec fn urf_sync_word() -> Seq<u8> {
    seq![0x55u8, 0x4eu8, 0x49u8, 0x52u8, 0x41u8, 0x53u8, 0x54u8, 0x00u8]
}

/// URF color space codes; grayscale output uses `Sgray`.
pub enum ColorSpace {
    Sgray,
    Srgb,
    CieLab,
    AdobeRgb,
    Gray32,
    RGB,
    CMYK,
}

impl ColorSpace {
    pub open spec fn spec_code(self) -> u8 {
        match self {
            ColorSpace::Sgray => 0,
            ColorSpace::Srgb => 1,
            ColorSpace::CieLab => 2,
            ColorSpace::AdobeRgb => 3,
            ColorSpace::Gray32 => 4,
            ColorSpace::RGB => 5,
            ColorSpace::CMYK => 6,
        }
    }

    pub fn code(&self) -> (r: u8)
        ensures
            r == self.spec_code(),
    {
        match self {
            ColorSpace::Sgray => 0,
            ColorSpace::Srgb => 1,
            ColorSpace::CieLab => 2,
            ColorSpace::AdobeRgb => 3,
            ColorSpace::Gray32 => 4,
            ColorSpace::RGB => 5,
            ColorSpace::CMYK => 6,
        }
    }
}

/// URF duplex codes.
pub enum Duplex {
    NoDuplex,
    ShortSide,
    LongSide,
}

impl Duplex {
    pub open spec fn spec_code(self) -> u8 {
        match self {
            Duplex::NoDuplex => 1,
            Duplex::ShortSide => 2,
            Duplex::LongSide => 3,
        }
    }

    pub fn code(&self) -> (r: u8)
        ensures
            r == self.spec_code(),
    {
        match self {
            Duplex::NoDuplex => 1,
            Duplex::ShortSide => 2,
            Duplex::LongSide => 3,
        }
    }
}

/// URF media input positions.
pub enum MediaPosition {
    Auto,
    Main,
    Alternate,
    LargeCapacity,
    Manual,
    Envelope,
    Disc,
    Photo,
    Hagaki,
    MainRoll,
    AlternateRoll,
    Top,
    Middle,
    Bottom,
    Side,
    Left,
    Right,
    Center,
    Rear,
    ByPassTray,
    Tray1,
    Tray2,
    Tray3,
    Tray4,
    Tray5,
    Tray6,
    Tray7,
    Tray8,
    Tray9,
    Tray10,
    Tray11,
    Tray12,
    Tray13,
    Tray14,
    Tray15,
    Tray16,
    Tray17,
    Tray18,
    Tray19,
    Tray20,
    Roll1,
    Roll2,
    Roll3,
    Roll4,
    Roll5,
    Roll6,
    Roll7,
    Roll8,
    Roll9,
    Roll10,
}

impl MediaPosition {
    pub open spec fn spec_code(self) -> u8 {
        match self {
            MediaPosition::Auto => 0,
            MediaPosition::Main => 1,
            MediaPosition::Alternate => 2,
            MediaPosition::LargeCapacity => 3,
            MediaPosition::Manual => 4,
            MediaPosition::Envelope => 5,
            MediaPosition::Disc => 6,
            MediaPosition::Photo => 7,
            MediaPosition::Hagaki => 8,
            MediaPosition::MainRoll => 9,
            MediaPosition::AlternateRoll => 10,
            MediaPosition::Top => 11,
            MediaPosition::Middle => 12,
            MediaPosition::Bottom => 13,
            MediaPosition::Side => 14,
            MediaPosition::Left => 15,
            MediaPosition::Right => 16,
            MediaPosition::Center => 17,
            MediaPosition::Rear => 18,
            MediaPosition::ByPassTray => 19,
            MediaPosition::Tray1 => 20,
            MediaPosition::Tray2 => 21,
            MediaPosition::Tray3 => 22,
            MediaPosition::Tray4 => 23,
            MediaPosition::Tray5 => 24,
            MediaPosition::Tray6 => 25,
            MediaPosition::Tray7 => 26,
            MediaPosition::Tray8 => 27,
            MediaPosition::Tray9 => 28,
            MediaPosition::Tray10 => 29,
            MediaPosition::Tray11 => 30,
            MediaPosition::Tray12 => 31,
            MediaPosition::Tray13 => 32,
            MediaPosition::Tray14 => 33,
            MediaPosition::Tray15 => 34,
            MediaPosition::Tray16 => 35,
            MediaPosition::Tray17 => 36,
            MediaPosition::Tray18 => 37,
            MediaPosition::Tray19 => 38,
            MediaPosition::Tray20 => 39,
            MediaPosition::Roll1 => 40,
            MediaPosition::Roll2 => 41,
            MediaPosition::Roll3 => 42,
            MediaPosition::Roll4 => 43,
            MediaPosition::Roll5 => 44,
            MediaPosition::Roll6 => 45,
            MediaPosition::Roll7 => 46,
            MediaPosition::Roll8 => 47,
            MediaPosition::Roll9 => 48,
            MediaPosition::Roll10 => 49,
        }
    }

    pub fn code(&self) -> (r: u8)
        ensures
            r == self.spec_code(),
    {
        match self {
            MediaPosition::Auto => 0,
            MediaPosition::Main => 1,
            MediaPosition::Alternate => 2,
            MediaPosition::LargeCapacity => 3,
            MediaPosition::Manual => 4,
            MediaPosition::Envelope => 5,
            MediaPosition::Disc => 6,
            MediaPosition::Photo => 7,
            MediaPosition::Hagaki => 8,
            MediaPosition::MainRoll => 9,
            MediaPosition::AlternateRoll => 10,
            MediaPosition::Top => 11,
            MediaPosition::Middle => 12,
            MediaPosition::Bottom => 13,
            MediaPosition::Side => 14,
            MediaPosition::Left => 15,
            MediaPosition::Right => 16,
            MediaPosition::Center => 17,
            MediaPosition::Rear => 18,
            MediaPosition::ByPassTray => 19,
            MediaPosition::Tray1 => 20,
            MediaPosition::Tray2 => 21,
            MediaPosition::Tray3 => 22,
            MediaPosition::Tray4 => 23,
            MediaPosition::Tray5 => 24,
            MediaPosition::Tray6 => 25,
            MediaPosition::Tray7 => 26,
            MediaPosition::Tray8 => 27,
            MediaPosition::Tray9 => 28,
            MediaPosition::Tray10 => 29,
            MediaPosition::Tray11 => 30,
            MediaPosition::Tray12 => 31,
            MediaPosition::Tray13 => 32,
            MediaPosition::Tray14 => 33,
            MediaPosition::Tray15 => 34,
            MediaPosition::Tray16 => 35,
            MediaPosition::Tray17 => 36,
            MediaPosition::Tray18 => 37,
            MediaPosition::Tray19 => 38,
            MediaPosition::Tray20 => 39,
            MediaPosition::Roll1 => 40,
            MediaPosition::Roll2 => 41,
            MediaPosition::Roll3 => 42,
            MediaPosition::Roll4 => 43,
            MediaPosition::Roll5 => 44,
            MediaPosition::Roll6 => 45,
            MediaPosition::Roll7 => 46,
            MediaPosition::Roll8 => 47,
            MediaPosition::Roll9 => 48,
            MediaPosition::Roll10 => 49,
        }
    }
}

/// URF media type codes.
pub enum MediaType {
    AutomaticMediaType,
    Stationery,
    Transparency,
    Envelope,
    Cardstock,
    Labels,
    StationeryLetterhead,
    Disc,
    PhotographicMatte,
    PhotographicSatin,
    PhotographicSemiGloss,
    PhotographicGlossy,
    PhotographicHighGloss,
    OtherMediaType,
}

impl MediaType {
    pub open spec fn spec_code(self) -> u8 {
        match self {
            MediaType::AutomaticMediaType => 0,
            MediaType::Stationery => 1,
            MediaType::Transparency => 2,
            MediaType::Envelope => 3,
            MediaType::Cardstock => 4,
            MediaType::Labels => 5,
            MediaType::StationeryLetterhead => 6,
            MediaType::Disc => 7,
            MediaType::PhotographicMatte => 8,
            MediaType::PhotographicSatin => 9,
            MediaType::PhotographicSemiGloss => 10,
            MediaType::PhotographicGlossy => 11,
            MediaType::PhotographicHighGloss => 12,
            MediaType::OtherMediaType => 13,
        }
    }

    pub fn code(&self) -> (r: u8)
        ensures
            r == self.spec_code(),
    {
        match self {
            MediaType::AutomaticMediaType => 0,
            MediaType::Stationery => 1,
            MediaType::Transparency => 2,
            MediaType::Envelope => 3,
            MediaType::Cardstock => 4,
            MediaType::Labels => 5,
            MediaType::StationeryLetterhead => 6,
            MediaType::Disc => 7,
            MediaType::PhotographicMatte => 8,
            MediaType::PhotographicSatin => 9,
            MediaType::PhotographicSemiGloss => 10,
            MediaType::PhotographicGlossy => 11,
            MediaType::PhotographicHighGloss => 12,
            MediaType::OtherMediaType => 13,
        }
    }
}

/// URF print quality codes.
pub enum Quality {
    Default,
    Draft,
    Normal,
    High,
}

impl Quality {
    pub open spec fn spec_code(self) -> u8 {
        match self {
            Quality::Default => 0,
            Quality::Draft => 3,
            Quality::Normal => 4,
            Quality::High => 5,
        }
    }

    pub fn code(&self) -> (r: u8)
        ensures
            r == self.spec_code(),
    {
        match self {
            Quality::Default => 0,
            Quality::Draft => 3,
            Quality::Normal => 4,
            Quality::High => 5,
        }
    }
}

/// `N` reserved bytes, always written as zeros.
pub struct Reserved<const N: usize> {}

impl<const N: usize> Reserved<N> {
    pub fn write(&self, out: &mut Vec<u8>)
        ensures
            final(out)@ == old(out)@ + zeros(N as int),
    {
        push_zeros(out, N);
    }
}

impl<const N: usize> Default for Reserved<N> {
    fn default() -> (r: Reserved<N>)
        ensures
            r == (Reserved::<N> {  }),
    {
        Reserved {}
    }
}

/// The 32 bytes of the URF page header for a render target: six code bytes,
/// six reserved bytes, then width, height and the cross-feed resolution as
/// big-endian words, and eight reserved bytes.
pub open spec fn spec_page_header(p: A4Pixels) -> Seq<u8> {
    seq![
        p.bits_per_pixel as u8, 0u8,  // ColorSpace: sgray
        1u8,  // Duplex: none
        0u8,  // Quality: default
        0u8,  // MediaType: automatic
        0u8,  // MediaPosition: auto
    ] + zeros(6) + be32(p.width as u32) + be32(p.height as u32) + be32(p.resolution_width as u32)
        + zeros(8)
}

pub proof fn lemma_spec_page_header_len(p: A4Pixels)
    ensures
        spec_page_header(p).len() == 32,
{
}

/// The serialized URF page header of one page.
pub struct PageHeader {
    bytes: Vec<u8>,
}

impl View for PageHeader {
    type V = Seq<u8>;

    closed spec fn view(&self) -> Seq<u8> {
        self.bytes@
    }
}

impl PageHeader {
    /// Serializes the page header for the given render target; the record is
    /// always exactly 32 bytes.
    pub fn new(page_pixels: &A4Pixels) -> (r: PageHeader)
        requires
            page_pixels.wf(),
        ensures
            r@ == spec_page_header(*page_pixels),
            r@.len() == 32,
    {
        let mut b: Vec<u8> = Vec::new();
        b.push(page_pixels.bits_per_pixel() as u8);
        b.push(ColorSpace::Sgray.code());
        b.push(Duplex::NoDuplex.code());
        b.push(Quality::Default.code());
        b.push(MediaType::AutomaticMediaType.code());
        b.push(MediaPosition::Auto.code());
        proof {
            assert(b@ =~= seq![
                page_pixels.bits_per_pixel as u8, 0u8, 1u8, 0u8, 0u8, 0u8,
            ]);
        }
        let reserved1: Reserved<6> = Reserved::default();
        reserved1.write(&mut b);
        push_be32(&mut b, page_pixels.width() as u32);
        push_be32(&mut b, page_pixels.height() as u32);
        push_be32(&mut b, page_pixels.resolution_width() as u32);
        let reserved2: Reserved<8> = Reserved::default();
        reserved2.write(&mut b);
        proof {
            assert(b@ == spec_page_header(*page_pixels));
            lemma_spec_page_header_len(*page_pixels);
        }
        PageHeader { bytes: b }
    }

    pub fn as_slice(&self) -> (r: &[u8])
        ensures
            r@ == self@,
    {
        self.bytes.as_slice()
    }
}

/// Writes the URF file header: the sync word `UNIRAST\0` and the big-endian
/// page count.
pub fn write_file_header(_pixels: &A4Pixels, pages: u32, writer: &mut Vec<u8>)
    ensures
        final(writer)@ == old(writer)@ + urf_sync_word() + be32(pages),
{
    writer.push(0x55u8);
    writer.push(0x4eu8);
    writer.push(0x49u8);
    writer.push(0x52u8);
    writer.push(0x41u8);
    writer.push(0x53u8);
    writer.push(0x54u8);
    writer.push(0x00u8);
    proof {
        assert(writer@ =~= old(writer)@ + urf_sync_word());
    }
    push_be32(writer, pages);
}

/// Writes the 32-byte URF page header for one page.
pub fn write_page_header(pixels: &A4Pixels, writer: &mut Vec<u8>)
    requires
        pixels.wf(),
    ensures
        final(writer)@ == old(writer)@ + spec_page_header(*pixels),
{
    push_bytes(writer, PageHeader::new(pixels).as_slice());
}

/// Builds a complete single-page URF stream: file header, page header, and
/// the compressed page bytes.
pub fn create_page(pixels: &A4Pixels, pages: u32, compressed: &[u8]) -> (r: Vec<u8>)
    requires
        pixels.wf(),
    ensures
        r@ == urf_sync_word() + be32(pages) + spec_page_header(*pixels) + compressed@,
{
    let mut page: Vec<u8> = Vec::new();
    write_file_header(pixels, pages, &mut page);
    write_page_header(pixels, &mut page);
    push_bytes(&mut page, compressed);
    proof {
        assert(page@ =~= urf_sync_word() + be32(pages) + spec_page_header(*pixels) + compressed@);
    }
    page
}

} // verus!
