//! An image surface held as plain values: its size, its color semantics and
//! one premultiplied ARGB pixel per position, in row-major order.

use vstd::prelude::*;

verus! {

/// One premultiplied ARGB pixel.
#[derive(Clone, Copy, PartialEq, Eq, Structural, Debug)]
pub struct Pixel {
    pub r: u8,
    pub g: u8,
    pub b: u8,
    pub a: u8,
}

/// What the color channels of a surface mean.
#[derive(Clone, Copy, PartialEq, Eq, Structural, Debug)]
pub enum SurfaceType {
    SRgb,
    LinearRgb,
    AlphaOnly,
}

/// The layout of a 32-bit word of image data as an image library hands it out.
#[derive(Clone, Copy, PartialEq, Eq, Structural, Debug)]
pub enum PixelFormat {
    /// Alpha in the top byte, then red, green and blue; premultiplied.
    ARgb32,
    /// Red, green and blue in the low three bytes; the top byte is unused.
    Rgb24,
}

/// The mathematical content of a surface.
pub ghost struct SurfaceView {
    pub width: nat,
    pub height: nat,
    pub surface_type: SurfaceType,
    pub pixels: Seq<Pixel>,
}

/// An immutable image surface.
pub struct SharedImageSurface {
    width: usize,
    height: usize,
    surface_type: SurfaceType,
    pixels: Vec<Pixel>,
}

impl View for SharedImageSurface {
    type V = SurfaceView;

    closed spec fn view(&self) -> SurfaceView {
        SurfaceView {
            width: self.width as nat,
            height: self.height as nat,
            surface_type: self.surface_type,
            pixels: self.pixels@,
        }
    }
}

/// The pixel that a word of image data in `format` stands for.
pub open spec fn decode_word(format: PixelFormat, w: u32) -> Pixel {
    Pixel {
        r: ((w / 0x10000) % 0x100) as u8,
        g: ((w / 0x100) % 0x100) as u8,
        b: (w % 0x100) as u8,
        a: match format {
            PixelFormat::ARgb32 => (w / 0x1000000) as u8,
            PixelFormat::Rgb24 => 255u8,
        },
    }
}

/// The ARGB32 word of a pixel.
pub open spec fn encode_pixel(p: Pixel) -> u32 {
    (p.a as int * 0x1000000 + p.r as int * 0x10000 + p.g as int * 0x100 + p.b as int) as u32
}

/// The surface that image data in `format` stands for.
pub open spec fn view_of_words(
    width: nat,
    height: nat,
    format: PixelFormat,
    data: Seq<u32>,
    surface_type: SurfaceType,
) -> SurfaceView {
    SurfaceView {
        width,
        height,
        surface_type,
        pixels: Seq::new(data.len(), |i: int| decode_word(format, data[i])),
    }
}

/// The ARGB32 words of a sequence of pixels.
pub open spec fn words_of(pixels: Seq<Pixel>) -> Seq<u32> {
    Seq::new(pixels.len(), |i: int| encode_pixel(pixels[i]))
}

impl SurfaceView {
    /// Each position of the surface holds exactly one pixel.
    pub open spec fn wf(self) -> bool {
        self.pixels.len() == self.width * self.height
    }

    pub open spec fn same_size(self, other: SurfaceView) -> bool {
        self.width == other.width && self.height == other.height
    }
}

/// The pixel of a word of image data, converted to premultiplied ARGB.
pub fn decode_pixel(format: PixelFormat, w: u32) -> (p: Pixel)
    ensures
        p == decode_word(format, w),
{
    let a: u8 = match format {
        PixelFormat::ARgb32 => (w / 0x1000000) as u8,
        PixelFormat::Rgb24 => 255u8,
    };
    Pixel { r: ((w / 0x10000) % 0x100) as u8, g: ((w / 0x100) % 0x100) as u8, b: (w % 0x100) as u8, a }
}

/// The ARGB32 word of a pixel.
pub fn encode_pixel_word(p: Pixel) -> (w: u32)
    ensures
        w == encode_pixel(p),
{
    let w: u32 = (p.a as u32) * 0x1000000 + (p.r as u32) * 0x10000 + (p.g as u32) * 0x100 + (p.b as u32);
    w
}

/// A pixel survives its conversion to an ARGB32 word and back.
pub proof fn lemma_word_round_trip(p: Pixel)
    ensures
        decode_word(PixelFormat::ARgb32, encode_pixel(p)) == p,
{
    let w = encode_pixel(p);
    assert(w as int == p.a as int * 0x1000000 + p.r as int * 0x10000 + p.g as int * 0x100 + p.b as int);
    assert(w / 0x1000000 == p.a as u32) by (nonlinear_arith)
        requires w as int == p.a as int * 0x1000000 + p.r as int * 0x10000 + p.g as int * 0x100 + p.b as int,
            p.r < 256, p.g < 256, p.b < 256;
    assert((w / 0x10000) % 0x100 == p.r as u32) by (nonlinear_arith)
        requires w as int == p.a as int * 0x1000000 + p.r as int * 0x10000 + p.g as int * 0x100 + p.b as int,
            p.r < 256, p.g < 256, p.b < 256, p.a < 256;
    assert((w / 0x100) % 0x100 == p.g as u32) by (nonlinear_arith)
        requires w as int == p.a as int * 0x1000000 + p.r as int * 0x10000 + p.g as int * 0x100 + p.b as int,
            p.r < 256, p.g < 256, p.b < 256, p.a < 256;
    assert(w % 0x100 == p.b as u32) by (nonlinear_arith)
        requires w as int == p.a as int * 0x1000000 + p.r as int * 0x10000 + p.g as int * 0x100 + p.b as int,
            p.r < 256, p.g < 256, p.b < 256, p.a < 256;
}

/// A surface survives its conversion to ARGB32 words and back.
pub proof fn lemma_words_round_trip(s: SurfaceView)
    ensures
        view_of_words(s.width, s.height, PixelFormat::ARgb32, words_of(s.pixels), s.surface_type)
            == s,
{
    let t = view_of_words(s.width, s.height, PixelFormat::ARgb32, words_of(s.pixels), s.surface_type);
    assert forall|i: int| 0 <= i < s.pixels.len() implies t.pixels[i] == s.pixels[i] by {
        lemma_word_round_trip(s.pixels[i]);
    }
    assert(t.pixels =~= s.pixels);
}

/// Image data as a decoder hands it out: one word per pixel, row-major.
pub struct DecodedImage {
    pub width: usize,
    pub height: usize,
    pub format: PixelFormat,
    pub data: Vec<u32>,
}

impl DecodedImage {
    /// Each position of the image holds exactly one word.
    pub open spec fn wf(&self) -> bool {
        self.data@.len() == self.width * self.height
    }

    /// The surface with the given color semantics that this image data stands for.
    pub open spec fn surface_view(&self, surface_type: SurfaceType) -> SurfaceView {
        view_of_words(self.width as nat, self.height as nat, self.format, self.data@, surface_type)
    }
}

impl SharedImageSurface {
    /// A surface of `width` by `height` pixels, or `None` when `pixels` does not
    /// hold exactly one pixel per position.
    pub fn new(width: usize, height: usize, pixels: Vec<Pixel>, surface_type: SurfaceType) -> (r:
        Option<SharedImageSurface>)
        ensures
            pixels@.len() == width * height <==> r is Some,
            r matches Some(s) ==> s@ == (SurfaceView {
                width: width as nat,
                height: height as nat,
                surface_type,
                pixels: pixels@,
            }),
    {
        match width.checked_mul(height) {
            Some(n) => {
                if pixels.len() == n {
                    Some(SharedImageSurface { width, height, surface_type, pixels })
                } else {
                    None
                }
            },
            None => {
                let n_pixels = pixels.len();
                proof {
                    assert(n_pixels <= usize::MAX < width * height);
                }
                None
            },
        }
    }

    /// Wraps image data as handed out by an image library: one word per pixel,
    /// row-major, in `format`. The result is premultiplied ARGB; data without
    /// an alpha channel becomes opaque. `None` when `data` does not hold
    /// exactly one word per position.
    pub fn from_words(
        width: usize,
        height: usize,
        format: PixelFormat,
        data: &Vec<u32>,
        surface_type: SurfaceType,
    ) -> (r: Option<SharedImageSurface>)
        ensures
            data@.len() == width * height <==> r is Some,
            r matches Some(s) ==> s@ == view_of_words(
                width as nat,
                height as nat,
                format,
                data@,
                surface_type,
            ),
    {
        let mut pixels: Vec<Pixel> = Vec::new();
        let mut i: usize = 0;
        while i < data.len()
            invariant
                i <= data@.len(),
                pixels@.len() == i,
                forall|j: int| 0 <= j < i ==> #[trigger] pixels@[j] == decode_word(format, data@[j]),
            decreases data@.len() - i,
        {
            pixels.push(decode_pixel(format, data[i]));
            i = i + 1;
        }
        assert(pixels@ =~= Seq::new(data@.len(), |i: int| decode_word(format, data@[i])));
        SharedImageSurface::new(width, height, pixels, surface_type)
    }

    /// The pixels as ARGB32 words, row-major.
    pub fn to_words(&self) -> (r: Vec<u32>)
        ensures
            r@ == words_of(self@.pixels),
    {
        let mut words: Vec<u32> = Vec::new();
        let mut i: usize = 0;
        while i < self.pixels.len()
            invariant
                i <= self.pixels@.len(),
                words@.len() == i,
                forall|j: int| 0 <= j < i ==> #[trigger] words@[j] == encode_pixel(self.pixels@[j]),
            decreases self.pixels@.len() - i,
        {
            words.push(encode_pixel_word(self.pixels[i]));
            i = i + 1;
        }
        assert(words@ =~= words_of(self.pixels@));
        words
    }

    pub fn width(&self) -> (r: usize)
        ensures
            r == self@.width,
    {
        self.width
    }

    pub fn height(&self) -> (r: usize)
        ensures
            r == self@.height,
    {
        self.height
    }

    pub fn surface_type(&self) -> (r: SurfaceType)
        ensures
            r == self@.surface_type,
    {
        self.surface_type
    }

    /// The number of pixels, `width * height`.
    pub fn len(&self) -> (r: usize)
        ensures
            r == self@.pixels.len(),
            self@.wf(),
    {
        proof {
            use_type_invariant(self);
        }
        self.pixels.len()
    }

    /// The pixel at row-major position `i`.
    pub fn pixel(&self, i: usize) -> (p: Pixel)
        requires
            i < self@.pixels.len(),
        ensures
            p == self@.pixels[i as int],
    {
        self.pixels[i]
    }

    #[verifier::type_invariant]
    spec fn inv(&self) -> bool {
        self.pixels@.len() == self.width * self.height
    }
}

} // verus!
