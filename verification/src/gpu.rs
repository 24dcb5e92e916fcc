//! The framebuffer surface: the negotiated pixel memory, and the encoding of
//! colored pixels into its 32-bit words.
//!
//! The co-processor reports a color depth and a pixel order; together they
//! decide how an `(red, green, blue)` triple is packed into a pixel word.
//! Observed modes disagree on channel ordering, so every write branches on
//! the negotiated variant instead of assuming one.

use vstd::prelude::*;

use crate::Fault;

verus! {

/// Negotiated layout of one pixel word.
#[allow(non_camel_case_types)]
#[derive(Clone, Copy, Debug, PartialEq, Eq, Structural)]
pub enum ColorDepth {
    /// 24 bits per pixel, red in the high color byte.
    RGB24,
    /// 32 bits per pixel, red-green-blue below the (ignored) alpha byte.
    ARGB32,
    /// 32 bits per pixel, blue-green-red below the (ignored) alpha byte.
    ABGR32,
    /// A depth/order pair with no known encoding: every pixel write fails.
    UNKNOWN,
}

/// The variant negotiated for a reported depth (bits per pixel) and pixel
/// order (`true` when the co-processor kept RGB order).
pub open spec fn spec_determine_depth(depth_bits: u32, rgb_order: bool) -> ColorDepth {
    if depth_bits == 32 && rgb_order {
        ColorDepth::ARGB32
    } else if depth_bits == 32 {
        ColorDepth::ABGR32
    } else if depth_bits == 24 && rgb_order {
        ColorDepth::RGB24
    } else {
        ColorDepth::UNKNOWN
    }
}

impl ColorDepth {
    /// Classifies the depth and pixel-order words of a mailbox response.
    pub fn determine_depth(depth_bits: u32, rgb_order: bool) -> (d: ColorDepth)
        ensures
            d == spec_determine_depth(depth_bits, rgb_order),
    {
        if depth_bits == 32 && rgb_order {
            ColorDepth::ARGB32
        } else if depth_bits == 32 {
            ColorDepth::ABGR32
        } else if depth_bits == 24 && rgb_order {
            ColorDepth::RGB24
        } else {
            ColorDepth::UNKNOWN
        }
    }

    /// Whether pixels can be encoded under this variant.
    pub open spec fn spec_supported(self) -> bool {
        self != ColorDepth::UNKNOWN
    }

    /// Runtime test for [`ColorDepth::spec_supported`].
    pub fn supported(&self) -> (b: bool)
        ensures
            b == self.spec_supported(),
    {
        match self {
            ColorDepth::UNKNOWN => false,
            _ => true,
        }
    }
}

/// Three color bytes packed into one word, high to low.
pub open spec fn spec_pack(hi: u8, mid: u8, lo: u8) -> u32 {
    ((hi as int) * 0x10000 + (mid as int) * 0x100 + (lo as int)) as u32
}

/// Packs three color bytes into one word, high byte first.
pub fn byte_array_to_u32(src: [u8; 3]) -> (w: u32)
    ensures
        w == spec_pack(src[0], src[1], src[2]),
{
    (src[0] as u32) * 0x10000 + (src[1] as u32) * 0x100 + (src[2] as u32)
}

/// The 32-bit word that encodes `(red, green, blue)` under variant `d`.
///
/// The two 32-bit variants differ exactly in the order of the red and blue
/// bytes; the alpha byte is zero, as negotiated (alpha ignored).
pub open spec fn spec_encode_pixel(d: ColorDepth, red: u8, green: u8, blue: u8) -> u32 {
    match d {
        ColorDepth::RGB24 => spec_pack(red, green, blue),
        ColorDepth::ARGB32 => spec_pack(red, green, blue),
        ColorDepth::ABGR32 => spec_pack(blue, green, red),
        ColorDepth::UNKNOWN => 0,
    }
}

/// Encodes `(red, green, blue)` into a pixel word under variant `d`.
pub fn encode_pixel(d: ColorDepth, red: u8, green: u8, blue: u8) -> (w: u32)
    requires
        d.spec_supported(),
    ensures
        w == spec_encode_pixel(d, red, green, blue),
{
    match d {
        ColorDepth::ABGR32 => byte_array_to_u32([blue, green, red]),
        _ => byte_array_to_u32([red, green, blue]),
    }
}

/// One pixel write into row-major pixel memory: an in-bounds write updates
/// the word at `x + y * width`, an out-of-bounds write is dropped.
pub open spec fn spec_put_pixel(
    px: Seq<u32>,
    width: int,
    height: int,
    d: ColorDepth,
    x: int,
    y: int,
    red: u8,
    green: u8,
    blue: u8,
) -> Seq<u32>
    recommends
        px.len() == width * height,
{
    if 0 <= x < width && 0 <= y < height {
        px.update(y * width + x, spec_encode_pixel(d, red, green, blue))
    } else {
        px
    }
}

/// Pixel memory scrolled up by `rows` pixel rows: every surviving row moves
/// up by `rows`, the freed bottom rows are zero.
pub open spec fn spec_scrolled(px: Seq<u32>, width: int, height: int, rows: int) -> Seq<u32>
    recommends
        px.len() == width * height,
        0 <= rows <= height,
{
    Seq::new(px.len(), |i: int| if i < (height - rows) * width {
        px[i + rows * width]
    } else {
        0u32
    })
}

/// Pixel memory. The words inside are reachable only through [`Display`]
/// methods; its view is the row-major word sequence.
pub struct PixelMem {
    words: Vec<u32>,
}

impl View for PixelMem {
    type V = Seq<u32>;

    closed spec fn view(&self) -> Seq<u32> {
        self.words@
    }
}

/// The negotiated framebuffer surface: mode, location, and the pixel words
/// the console draws into.
///
/// The raw framebuffer address never leaves this type as something to write
/// through: all pixel access is mediated by these methods.
pub struct Display {
    /// Width in pixels.
    pub width: u32,
    /// Height in pixels.
    pub height: u32,
    /// Negotiated pixel layout.
    pub depth: ColorDepth,
    /// CPU-visible base address: the bus address the co-processor returned,
    /// with the top alias bits masked.
    pub fb_base: u32,
    /// Byte length of the framebuffer region as the co-processor reported it.
    pub fb_len: u32,
    /// Row-major pixel words, one per pixel.
    pub mem: PixelMem,
}

impl Display {
    /// The pixel words, row-major.
    pub open spec fn pixels(&self) -> Seq<u32> {
        self.mem@
    }

    /// The surface holds exactly one word per pixel.
    pub open spec fn wf(&self) -> bool {
        self.pixels().len() == self.width as int * self.height as int
    }

    /// Allocates a zeroed surface for a negotiated mode; `None` when the
    /// pixel count exceeds the address space.
    pub fn create(width: u32, height: u32, depth: ColorDepth, fb_base: u32, fb_len: u32) -> (r:
        Option<Display>)
        ensures
            match r {
                Some(d) => d.wf() && d.width == width && d.height == height && d.depth == depth
                    && d.fb_base == fb_base && d.fb_len == fb_len && width as int * height as int
                    <= usize::MAX && d.pixels() =~= Seq::new(
                    (width as int * height as int) as nat,
                    |i: int| 0u32,
                ),
                None => width as int * height as int > usize::MAX,
            },
    {
        match (width as usize).checked_mul(height as usize) {
            None => None,
            Some(n) => {
                let mut fb: Vec<u32> = Vec::new();
                let mut i: usize = 0;
                while i < n
                    invariant
                        i <= n,
                        fb@.len() == i as int,
                        forall|j: int| 0 <= j < i ==> fb@[j] == 0u32,
                    decreases n - i,
                {
                    fb.push(0u32);
                    i += 1;
                }
                Some(Display { width, height, depth, fb_base, fb_len, mem: PixelMem { words: fb } })
            },
        }
    }

    /// Encodes `(red, green, blue)` and writes the pixel word at `(x, y)`.
    ///
    /// Coordinates outside the surface are dropped silently: that is
    /// intentional clipping, not a fault. An unsupported variant makes every
    /// write fail, in or out of bounds, since no encoding can be guessed.
    pub fn write_pixel(&mut self, x: u32, y: u32, red: u8, green: u8, blue: u8) -> (r: Result<
        (),
        Fault,
    >)
        requires
            old(self).wf(),
        ensures
            final(self).wf(),
            final(self).width == old(self).width,
            final(self).height == old(self).height,
            final(self).depth == old(self).depth,
            final(self).fb_base == old(self).fb_base,
            final(self).fb_len == old(self).fb_len,
            r is Ok <==> old(self).depth.spec_supported(),
            r is Err ==> *final(self) == *old(self) && r == Err::<(), Fault>(
                Fault::UnsupportedColorDepth,
            ),
            r is Ok ==> final(self).pixels() == spec_put_pixel(
                old(self).pixels(),
                old(self).width as int,
                old(self).height as int,
                old(self).depth,
                x as int,
                y as int,
                red,
                green,
                blue,
            ),
            r is Ok && (x >= old(self).width || y >= old(self).height) ==> final(self).pixels()
                == old(self).pixels(),
    {
        if !self.depth.supported() {
            return Err(Fault::UnsupportedColorDepth);
        }
        if x < self.width && y < self.height {
            let n = self.mem.words.len();
            proof {
                assert((y as int) * (self.width as int) + (x as int) < (self.width as int)
                    * (self.height as int) && 0 <= (y as int) * (self.width as int))
                    by (nonlinear_arith)
                    requires
                        x < self.width,
                        y < self.height,
                ;
                assert((self.width as int) * (self.height as int) == n);
            }
            let idx: usize = (y as usize) * (self.width as usize) + (x as usize);
            let w = encode_pixel(self.depth, red, green, blue);
            self.mem.words[idx] = w;
        }
        Ok(())
    }

    /// The pixel word at `(x, y)`.
    pub fn read_pixel(&self, x: u32, y: u32) -> (w: u32)
        requires
            self.wf(),
            x < self.width,
            y < self.height,
        ensures
            w == self.pixels()[y as int * self.width as int + x as int],
    {
        let n = self.mem.words.len();
        proof {
            assert((y as int) * (self.width as int) + (x as int) < (self.width as int)
                * (self.height as int) && 0 <= (y as int) * (self.width as int))
                by (nonlinear_arith)
                requires
                    x < self.width,
                    y < self.height,
            ;
            assert((self.width as int) * (self.height as int) == n);
        }
        let idx: usize = (y as usize) * (self.width as usize) + (x as usize);
        self.mem.words[idx]
    }

    /// Zeroes every pixel word of the surface.
    pub fn clear(&mut self)
        requires
            old(self).wf(),
        ensures
            final(self).wf(),
            final(self).width == old(self).width,
            final(self).height == old(self).height,
            final(self).depth == old(self).depth,
            final(self).fb_base == old(self).fb_base,
            final(self).fb_len == old(self).fb_len,
            final(self).pixels() =~= Seq::new(old(self).pixels().len(), |i: int| 0u32),
    {
        let n = self.mem.words.len();
        let mut i: usize = 0;
        while i < n
            invariant
                i <= n,
                self.mem.words@.len() == n,
                self.width == old(self).width,
                self.height == old(self).height,
                self.depth == old(self).depth,
                self.fb_base == old(self).fb_base,
                self.fb_len == old(self).fb_len,
                forall|j: int| 0 <= j < i ==> self.mem.words@[j] == 0u32,
            decreases n - i,
        {
            self.mem.words[i] = 0u32;
            i += 1;
        }
    }

    /// Moves every pixel row up by `rows` rows and zeroes the freed bottom
    /// rows. The copy runs top to bottom, so within the overlapping region a
    /// word is always read before anything overwrites it.
    pub fn scroll_up(&mut self, rows: u32)
        requires
            old(self).wf(),
            rows <= old(self).height,
        ensures
            final(self).wf(),
            final(self).width == old(self).width,
            final(self).height == old(self).height,
            final(self).depth == old(self).depth,
            final(self).fb_base == old(self).fb_base,
            final(self).fb_len == old(self).fb_len,
            final(self).pixels() =~= spec_scrolled(
                old(self).pixels(),
                old(self).width as int,
                old(self).height as int,
                rows as int,
            ),
    {
        let w = self.width as usize;
        let h = self.height as usize;
        let r = rows as usize;
        let n = self.mem.words.len();
        proof {
            assert((h as int - r) * w + r as int * w == h as int * w && 0 <= (h as int - r) * w
                && 0 <= r as int * w) by (nonlinear_arith)
                requires
                    r <= h,
                    0 <= w,
            ;
            assert(w as int * (h as int) == n);
        }
        let keep: usize = (h - r) * w;
        let shift: usize = r * w;
        let mut i: usize = 0;
        while i < keep
            invariant
                i <= keep,
                keep + shift == n,
                self.mem.words@.len() == n,
                self.width == old(self).width,
                self.height == old(self).height,
                self.depth == old(self).depth,
                self.fb_base == old(self).fb_base,
                self.fb_len == old(self).fb_len,
                forall|j: int| 0 <= j < i ==> self.mem.words@[j] == old(self).pixels()[j + shift],
                forall|j: int| i <= j < n ==> self.mem.words@[j] == old(self).pixels()[j],
            decreases keep - i,
        {
            let v = self.mem.words[i + shift];
            self.mem.words[i] = v;
            i += 1;
        }
        while i < n
            invariant
                keep <= i <= n,
                keep + shift == n,
                self.mem.words@.len() == n,
                self.width == old(self).width,
                self.height == old(self).height,
                self.depth == old(self).depth,
                self.fb_base == old(self).fb_base,
                self.fb_len == old(self).fb_len,
                forall|j: int| 0 <= j < keep ==> self.mem.words@[j] == old(self).pixels()[j + shift],
                forall|j: int| keep <= j < i ==> self.mem.words@[j] == 0u32,
            decreases n - i,
        {
            self.mem.words[i] = 0u32;
            i += 1;
        }
    }
}

/// After a scroll by `rows` pixel rows, the row that sat at pixel row `rows`
/// appears at row 0 with equal content, and the freed bottom `rows` rows are
/// entirely zero.
pub proof fn lemma_scroll_row_moves(px: Seq<u32>, width: int, height: int, rows: int)
    requires
        px.len() == width * height,
        0 < rows < height,
        0 < width,
    ensures
        forall|x: int| 0 <= x < width ==> #[trigger] spec_scrolled(px, width, height, rows)[x]
            == px[rows * width + x],
        forall|x: int, y: int|
            0 <= x < width && height - rows <= y < height ==> #[trigger] spec_scrolled(
                px,
                width,
                height,
                rows,
            )[y * width + x] == 0u32,
{
    assert forall|x: int| 0 <= x < width implies #[trigger] spec_scrolled(
        px,
        width,
        height,
        rows,
    )[x] == px[rows * width + x] by {
        assert(x < (height - rows) * width && rows * width + x < width * height)
            by (nonlinear_arith)
            requires
                0 <= x < width,
                0 < rows < height,
        ;
    }
    assert forall|x: int, y: int|
        0 <= x < width && height - rows <= y < height implies #[trigger] spec_scrolled(
        px,
        width,
        height,
        rows,
    )[y * width + x] == 0u32 by {
        assert((height - rows) * width <= y * width + x < width * height) by (nonlinear_arith)
            requires
                0 <= x < width,
                0 < rows < height,
                height - rows <= y < height,
        ;
    }
}

} // verus!
