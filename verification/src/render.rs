//! A4 render targets and the raster pipeline: pixel geometry derived from
//! resolution and color mode, grayscale extraction from rasterized pages, and
//! the framing of complete PWG and URF streams.

use vstd::prelude::*;

use crate::rle::encode_bitmap;
use crate::wire::be32;

verus! {

/// Supported print resolutions (dots per inch) for A4 media.
#[derive(Clone, Copy, PartialEq, Eq)]
pub enum Resolution {
    Dpi300,
    Dpi400,
    Dpi600,
}

/// The two raster wire formats this library produces.
#[derive(Clone, Copy, PartialEq, Eq)]
pub enum Format {
    Pwg,
    Urf,
}

/// Color mode of a bitmap: 8-bpp grayscale output or 24-bpp BGR input.
#[derive(Clone, Copy, PartialEq, Eq)]
pub enum Colors {
    Gray,
    Colored,
}

impl Resolution {
    /// The numeric dots-per-inch value of this resolution.
    pub open spec fn spec_dpi(self) -> usize {
        match self {
            Resolution::Dpi300 => 300,
            Resolution::Dpi400 => 400,
            Resolution::Dpi600 => 600,
        }
    }

    /// A4 width in pixels at this horizontal resolution.
    pub open spec fn spec_a4_width(self) -> usize {
        match self {
            Resolution::Dpi300 => 2480,
            Resolution::Dpi400 => 3307,
            Resolution::Dpi600 => 4960,
        }
    }

    /// A4 height in pixels at this vertical resolution.
    pub open spec fn spec_a4_height(self) -> usize {
        match self {
            Resolution::Dpi300 => 3508,
            Resolution::Dpi400 => 4667,
            Resolution::Dpi600 => 7016,
        }
    }

    pub fn dpi(&self) -> (r: usize)
        ensures
            r == self.spec_dpi(),
    {
        match self {
            Resolution::Dpi300 => 300,
            Resolution::Dpi400 => 400,
            Resolution::Dpi600 => 600,
        }
    }
}

impl Colors {
    /// Bits per pixel of a bitmap in this color mode.
    pub open spec fn spec_bits_per_pixel(self) -> usize {
        match self {
            Colors::Gray => 8,
            Colors::Colored => 24,
        }
    }
}

/// An A4 render target: pixel dimensions, resolution and pixel depth.
pub struct A4Pixels {
    pub width: usize,
    pub resolution_width: usize,
    pub height: usize,
    pub resolution_height: usize,
    pub bits_per_pixel: usize,
}

impl A4Pixels {
    /// A value built by `new`: dimensions follow the A4 table and the
    /// pixel depth is one of the two supported color modes.
    pub open spec fn wf(self) -> bool {
        &&& (self.resolution_width == 300 || self.resolution_width == 400
            || self.resolution_width == 600)
        &&& (self.resolution_height == 300 || self.resolution_height == 400
            || self.resolution_height == 600)
        &&& self.width == (if self.resolution_width == 300 {
            2480usize
        } else if self.resolution_width == 400 {
            3307usize
        } else {
            4960usize
        })
        &&& self.height == (if self.resolution_height == 300 {
            3508usize
        } else if self.resolution_height == 400 {
            4667usize
        } else {
            7016usize
        })
        &&& (self.bits_per_pixel == 8 || self.bits_per_pixel == 24)
    }

    /// Bytes in one scanline: pixel bits rounded up to whole bytes.
    pub open spec fn spec_bytes_per_line(self) -> int {
        (self.width * self.bits_per_pixel + 7) / 8
    }

    /// Total bytes of a full bitmap for this target.
    pub open spec fn spec_len(self) -> int {
        self.height * self.spec_bytes_per_line()
    }

    pub fn new(resolution_width: Resolution, resolution_height: Resolution, colors: Colors) -> (r:
        A4Pixels)
        ensures
            r.wf(),
            r.resolution_width == resolution_width.spec_dpi(),
            r.resolution_height == resolution_height.spec_dpi(),
            r.width == resolution_width.spec_a4_width(),
            r.height == resolution_height.spec_a4_height(),
            r.bits_per_pixel == colors.spec_bits_per_pixel(),
    {
        let width: usize = match resolution_width {
            Resolution::Dpi300 => 2480,
            Resolution::Dpi400 => 3307,
            Resolution::Dpi600 => 4960,
        };

        let height: usize = match resolution_height {
            Resolution::Dpi300 => 3508,
            Resolution::Dpi400 => 4667,
            Resolution::Dpi600 => 7016,
        };

        let bits_per_pixel: usize = match colors {
            Colors::Gray => 8,
            Colors::Colored => 24,
        };

        A4Pixels {
            width,
            resolution_width: resolution_width.dpi(),
            height,
            resolution_height: resolution_height.dpi(),
            bits_per_pixel,
        }
    }

    pub fn width(&self) -> (r: usize)
        ensures
            r == self.width,
    {
        self.width
    }

    pub fn width_i32(&self) -> (r: i32)
        requires
            self.wf(),
        ensures
            r == self.width,
    {
        self.width as i32
    }

    pub fn resolution_width(&self) -> (r: usize)
        ensures
            r == self.resolution_width,
    {
        self.resolution_width
    }

    pub fn height(&self) -> (r: usize)
        ensures
            r == self.height,
    {
        self.height
    }

    pub fn height_i32(&self) -> (r: i32)
        requires
            self.wf(),
        ensures
            r == self.height,
    {
        self.height as i32
    }

    pub fn resolution_height(&self) -> (r: usize)
        ensures
            r == self.resolution_height,
    {
        self.resolution_height
    }

    pub fn bits_per_pixel(&self) -> (r: usize)
        ensures
            r == self.bits_per_pixel,
    {
        self.bits_per_pixel
    }

    /// One scanline occupies the fewest whole bytes that hold
    /// `width × bits_per_pixel` bits.
    pub fn bytes_per_line(&self) -> (r: usize)
        requires
            self.wf(),
        ensures
            r == self.spec_bytes_per_line(),
            r * 8 >= self.width * self.bits_per_pixel,
            r * 8 < self.width * self.bits_per_pixel + 8,
    {
        (self.width * self.bits_per_pixel + 7) / 8
    }

    pub fn len(&self) -> (r: usize)
        requires
            self.wf(),
        ensures
            r == self.spec_len(),
    {
        self.height * self.bytes_per_line()
    }
}

/// The grayscale A4 render target for a resolution pair, as a value.
pub open spec fn spec_gray_canvas(rw: Resolution, rh: Resolution) -> A4Pixels {
    A4Pixels {
        width: rw.spec_a4_width(),
        resolution_width: rw.spec_dpi(),
        height: rh.spec_a4_height(),
        resolution_height: rh.spec_dpi(),
        bits_per_pixel: 8,
    }
}

/// The file header of a stream: the PWG sync word, or the URF sync word
/// followed by the big-endian page count.
pub open spec fn spec_file_header(format: Format, pages: u32) -> Seq<u8> {
    match format {
        Format::Pwg => crate::pwg::pwg_sync_word(),
        Format::Urf => crate::urf::urf_sync_word() + be32(pages),
    }
}

/// The page header of one page in the given format.
pub open spec fn spec_page_prefix(format: Format, p: A4Pixels) -> Seq<u8> {
    match format {
        Format::Pwg => crate::pwg::spec_page_header(p),
        Format::Urf => crate::urf::spec_page_header(p),
    }
}

/// One page of a stream: its header followed by the compressed bitmap.
pub open spec fn spec_page_bytes(format: Format, p: A4Pixels, gray: Seq<u8>) -> Seq<u8> {
    spec_page_prefix(format, p) + encode_bitmap(gray, p.spec_bytes_per_line())
}

/// The pages of a stream from index `k` on, in document order.
pub open spec fn spec_pages_from(
    format: Format,
    p: A4Pixels,
    pages: Seq<Seq<u8>>,
    k: int,
) -> Seq<u8>
    decreases pages.len() - k,
{
    if k < 0 || k >= pages.len() {
        Seq::empty()
    } else {
        spec_page_bytes(format, p, pages[k]) + spec_pages_from(format, p, pages, k + 1)
    }
}

/// A complete stream: the file header, then every page in document order.
pub open spec fn spec_stream(format: Format, p: A4Pixels, pages: Seq<Seq<u8>>) -> Seq<u8> {
    spec_file_header(format, pages.len() as u32) + spec_pages_from(format, p, pages, 0)
}

/// Extracts the 8-bpp grayscale bitmap from a packed 24-bpp BGR bitmap by
/// taking the first (blue) byte of each pixel; the rasterizer renders in
/// grayscale, so the three channels agree.
pub fn bgr_to_gray(bgr: &[u8], gray: &mut Vec<u8>)
    requires
        old(gray)@.len() * 3 == bgr@.len(),
    ensures
        final(gray)@.len() == old(gray)@.len(),
        forall|i: int| 0 <= i < final(gray)@.len() ==> final(gray)@[i] == bgr@[3 * i],
{
    let n = gray.len();
    let m = bgr.len();
    let mut out: Vec<u8> = Vec::new();
    let mut i: usize = 0;
    while i < n
        invariant
            i <= n,
            n * 3 == m == bgr@.len(),
            out@.len() == i,
            forall|t: int| 0 <= t < i ==> out@[t] == bgr@[3 * t],
        decreases n - i,
    {
        out.push(bgr[3 * i]);
        i = i + 1;
    }
    *gray = out;
}

/// Writes the file header of the stream for the chosen format.
pub fn write_stream_header(format: Format, pixels: &A4Pixels, pages: u32, output: &mut Vec<u8>)
    ensures
        final(output)@ == old(output)@ + spec_file_header(format, pages),
{
    match format {
        Format::Pwg => crate::pwg::write_file_header(pixels, output),
        Format::Urf => crate::urf::write_file_header(pixels, pages, output),
    }
}

/// Appends one page to the stream: the format's page header, then the
/// compressed grayscale bitmap.
pub fn append_page(format: Format, pixels: &A4Pixels, gray: &[u8], output: &mut Vec<u8>)
    requires
        pixels.wf(),
        pixels.bits_per_pixel == 8,
        gray@.len() == pixels.spec_len(),
    ensures
        final(output)@ == old(output)@ + spec_page_bytes(format, *pixels, gray@),
{
    match format {
        Format::Pwg => crate::pwg::write_page_header(pixels, output),
        Format::Urf => crate::urf::write_page_header(pixels, output),
    }
    proof {
        vstd::arithmetic::div_mod::lemma_mod_multiples_basic(
            pixels.height as int,
            pixels.spec_bytes_per_line(),
        );
    }
    crate::rle::compress(gray, pixels.width(), pixels.bits_per_pixel(), output);
}

/// Builds a complete raster stream from the grayscale bitmaps of a
/// document's pages, in document order: the file header, then each page's
/// header and compressed body.
pub fn render_pages(
    format: Format,
    resolution_width: Resolution,
    resolution_height: Resolution,
    pages: &Vec<Vec<u8>>,
) -> (r: Vec<u8>)
    requires
        pages@.len() <= u32::MAX,
        forall|k: int|
            0 <= k < pages@.len() ==> (#[trigger] pages@[k])@.len() == spec_gray_canvas(
                resolution_width,
                resolution_height,
            ).spec_len(),
    ensures
        r@ == spec_stream(
            format,
            spec_gray_canvas(resolution_width, resolution_height),
            pages.deep_view(),
        ),
{
    let gray = A4Pixels::new(resolution_width, resolution_height, Colors::Gray);
    let ghost c = spec_gray_canvas(resolution_width, resolution_height);
    proof {
        assert(gray == c);
    }
    let ghost pv = pages.deep_view();
    proof {
        assert(pv.len() == pages@.len());
        assert(forall|k: int| 0 <= k < pv.len() ==> pv[k] =~= (#[trigger] pages@[k])@);
    }
    let count = pages.len();
    let mut output: Vec<u8> = Vec::new();
    write_stream_header(format, &gray, count as u32, &mut output);
    let ghost hdr = spec_file_header(format, pv.len() as u32);
    proof {
        assert(output@ =~= hdr);
    }
    let ghost mut done: Seq<u8> = Seq::empty();
    let mut k: usize = 0;
    proof {
        assert(hdr + done =~= hdr);
        assert(Seq::<u8>::empty() + spec_pages_from(format, c, pv, 0) =~= spec_pages_from(
            format,
            c,
            pv,
            0,
        ));
    }
    while k < count
        invariant
            k <= count == pages@.len(),
            gray == c,
            gray.wf(),
            gray.bits_per_pixel == 8,
            pv == pages.deep_view(),
            pv.len() == pages@.len(),
            forall|t: int| 0 <= t < pv.len() ==> pv[t] == (#[trigger] pages@[t])@,
            forall|t: int|
                0 <= t < pages@.len() ==> (#[trigger] pages@[t])@.len() == c.spec_len(),
            output@ == hdr + done,
            spec_pages_from(format, c, pv, 0) == done + spec_pages_from(format, c, pv, k as int),
        decreases count - k,
    {
        let page = &pages[k];
        append_page(format, &gray, page.as_slice(), &mut output);
        proof {
            let chunk = spec_page_bytes(format, c, pv[k as int]);
            assert(spec_pages_from(format, c, pv, k as int) == chunk + spec_pages_from(
                format,
                c,
                pv,
                k as int + 1,
            ));
            assert(output@ =~= hdr + (done + chunk));
            assert(done + (chunk + spec_pages_from(format, c, pv, k as int + 1)) =~= (done + chunk)
                + spec_pages_from(format, c, pv, k as int + 1));
            done = done + chunk;
        }
        k = k + 1;
    }
    proof {
        assert(spec_pages_from(format, c, pv, count as int) == Seq::<u8>::empty());
        assert(done + Seq::<u8>::empty() =~= done);
        assert(output@ =~= spec_stream(format, c, pv));
    }
    output
}

} // verus!
