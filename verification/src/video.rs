//! The scrolling text console.
//!
//! The console owns a cursor, glyph-cell metrics and write/read counters,
//! and turns character output into pixel draws on the negotiated
//! [`Display`] surface: hard line wrap at the right edge, an immediate
//! scroll whenever a row advance would leave the surface, and a newline
//! forcing the cursor to the next row. Without a surface it degrades to a
//! counting sink.

use vstd::prelude::*;

use crate::Fault;
use crate::font::{FONT_HEIGHT, FONT_WIDTH, font_cell_size, glyph_lit, glyph_pixel_lit};
use crate::gpu::{ColorDepth, Display, spec_put_pixel, spec_scrolled};
use crate::mailbox::{MailBox, MailReply, spec_negotiate};

verus! {

/// Mathematical view of a surface: its mode and its pixel words.
#[verifier::ext_equal]
pub ghost struct SurfaceModel {
    /// Width in pixels.
    pub width: int,
    /// Height in pixels.
    pub height: int,
    /// Negotiated pixel layout.
    pub depth: ColorDepth,
    /// Row-major pixel words.
    pub pixels: Seq<u32>,
}

/// Mathematical view of the console: cursor, counters, glyph metrics and
/// the surface, if one was negotiated.
#[verifier::ext_equal]
pub ghost struct ConsoleModel {
    /// The draw surface; `None` when the hardware offered no framebuffer.
    pub surface: Option<SurfaceModel>,
    /// Cursor column position in pixels.
    pub cursor_x: int,
    /// Cursor row position in pixels: the glyph cell's bottom row.
    pub cursor_y: int,
    /// Characters accepted so far.
    pub chars_written: int,
    /// Characters read so far; always zero for this output-only console.
    pub chars_read: int,
    /// Glyph cell width in pixels.
    pub font_width: int,
    /// Glyph cell height in pixels.
    pub font_height: int,
}

impl ConsoleModel {
    /// The console's invariant between writes, once a surface is attached:
    /// one pixel word per pixel, the glyph cell fits the surface, and the
    /// cursor rests inside the surface with a full glyph row above it.
    pub open spec fn wf(self) -> bool {
        match self.surface {
            None => true,
            Some(sf) => {
                &&& sf.pixels.len() == sf.width * sf.height
                &&& 0 < sf.width <= u32::MAX
                &&& 0 < sf.height <= u32::MAX
                &&& self.font_width == FONT_WIDTH as int
                &&& self.font_height == FONT_HEIGHT as int
                &&& self.font_width <= sf.width
                &&& self.font_height <= sf.height
                &&& 0 <= self.cursor_x < sf.width
                &&& self.cursor_x % self.font_width == 0
                &&& self.font_height - 1 <= self.cursor_y < sf.height
                &&& self.cursor_y % self.font_height == self.font_height - 1
            },
        }
    }

    /// The surface, if any, holds one pixel word per pixel. Holds in
    /// particular whenever [`ConsoleModel::wf`] does, and already from
    /// initialization on, before a reset parks the cursor.
    pub open spec fn surface_wf(self) -> bool {
        match self.surface {
            None => true,
            Some(sf) => {
                &&& sf.pixels.len() == sf.width * sf.height
                &&& 0 <= sf.width <= u32::MAX
                &&& 0 <= sf.height <= u32::MAX
            },
        }
    }
}

/// The first `k` of the glyph cell's pixels (raster order, 6 per row)
/// stamped white onto row-major pixel memory; `(x, y)` is the cell's
/// top-left corner on the surface. Out-of-surface pixels are clipped.
pub open spec fn spec_stamp_cell(
    px: Seq<u32>,
    width: int,
    height: int,
    d: ColorDepth,
    c: char,
    x: int,
    y: int,
    k: int,
) -> Seq<u32>
    decreases k,
{
    if k <= 0 {
        px
    } else {
        let j = k - 1;
        let gx = j % 6;
        let gy = j / 6;
        let prev = spec_stamp_cell(px, width, height, d, c, x, y, j);
        if glyph_lit(c, gx, gy) {
            spec_put_pixel(prev, width, height, d, x + gx, y + gy, 255, 255, 255)
        } else {
            prev
        }
    }
}

/// One whole glyph stamped white with its cell's top-left corner at
/// `(x, y)`.
pub open spec fn spec_stamp_char(
    px: Seq<u32>,
    width: int,
    height: int,
    d: ColorDepth,
    c: char,
    x: int,
    y: int,
) -> Seq<u32> {
    spec_stamp_cell(px, width, height, d, c, x, y, 60)
}

/// The first `k` characters of `text` stamped left to right, cells one
/// glyph width apart, tops on row `y`, starting at column pixel `x`.
pub open spec fn spec_stamp_text(
    px: Seq<u32>,
    width: int,
    height: int,
    d: ColorDepth,
    text: Seq<char>,
    x: int,
    y: int,
    k: int,
) -> Seq<u32>
    decreases k,
{
    if k <= 0 {
        px
    } else {
        let prev = spec_stamp_text(px, width, height, d, text, x, y, k - 1);
        spec_stamp_char(prev, width, height, d, text[k - 1], x + (k - 1) * (FONT_WIDTH as int), y)
    }
}

/// Pixel memory and cursor row after scrolling one glyph row at a time
/// until the cursor is back inside the surface.
pub open spec fn spec_scroll_fix(px: Seq<u32>, width: int, height: int, fh: int, cy: int) -> (
    Seq<u32>,
    int,
)
    decreases cy,
        when 1 <= fh <= height
{
    if cy >= height {
        spec_scroll_fix(spec_scrolled(px, width, height, fh), width, height, fh, cy - fh)
    } else {
        (px, cy)
    }
}

/// The columns still free on the cursor's row.
pub open spec fn spec_cols_left(s: ConsoleModel) -> int
    recommends
        s.surface is Some,
{
    match s.surface {
        None => 0,
        Some(sf) => (sf.width - s.cursor_x) / s.font_width,
    }
}

/// The console after writing `text`.
///
/// Without a surface the characters are counted and nothing is drawn; with
/// one, the fitting prefix is stamped at the cursor, the cursor advances —
/// to column 0 of the next row on a wrap, a full row, or a trailing
/// newline — the surface scrolls until the cursor is back inside, and a
/// wrapped remainder is written from the new cursor position. A surface
/// whose pixel layout has no known encoding takes nothing at all.
pub open spec fn spec_write(s: ConsoleModel, text: Seq<char>) -> ConsoleModel
    decreases text.len(), s.cursor_x,
        when s.wf()
        via spec_write_decreases
{
    match s.surface {
        None => ConsoleModel { chars_written: s.chars_written + text.len(), ..s },
        Some(sf) => {
            if !sf.depth.spec_supported() {
                s
            } else if text.len() == 0 {
                s
            } else {
                let cols_left = spec_cols_left(s);
                let fits = text.len() <= cols_left;
                let cutoff = if fits {
                    text.len() as int
                } else {
                    cols_left
                };
                let stamped = spec_stamp_text(
                    sf.pixels,
                    sf.width,
                    sf.height,
                    sf.depth,
                    text,
                    s.cursor_x,
                    s.cursor_y - (s.font_height - 1),
                    cutoff,
                );
                let x2 = if fits {
                    s.cursor_x + cutoff * s.font_width
                } else {
                    0
                };
                let y2 = if fits {
                    s.cursor_y
                } else {
                    s.cursor_y + s.font_height
                };
                let x3 = if text.last() == '\n' {
                    0
                } else {
                    x2
                };
                let y3 = if text.last() == '\n' {
                    y2 + s.font_height
                } else {
                    y2
                };
                let x4 = if x3 >= sf.width {
                    0
                } else {
                    x3
                };
                let y4 = if x3 >= sf.width {
                    y3 + s.font_height
                } else {
                    y3
                };
                let fixed = spec_scroll_fix(stamped, sf.width, sf.height, s.font_height, y4);
                let s5 = ConsoleModel {
                    surface: Some(SurfaceModel { pixels: fixed.0, ..sf }),
                    cursor_x: x4,
                    cursor_y: fixed.1,
                    chars_written: s.chars_written + cutoff,
                    ..s
                };
                if fits {
                    s5
                } else {
                    spec_write(s5, text.skip(cutoff))
                }
            }
        },
    }
}

#[via_fn]
proof fn spec_write_decreases(s: ConsoleModel, text: Seq<char>) {
    if s.wf() && s.surface is Some {
        let sf = s.surface.unwrap();
        if sf.depth.spec_supported() && text.len() > 0 {
            let cols_left = spec_cols_left(s);
            if cols_left <= 0 {
                vstd::arithmetic::div_mod::lemma_small_div_converse(
                    sf.width - s.cursor_x,
                    s.font_width,
                );
            }
        }
    }
}

/// The text console: cursor, counters, glyph metrics and, once
/// initialization found one, the draw surface.
pub struct Video {
    display: Option<Display>,
    cursor_x: u32,
    cursor_y: u32,
    chars_written: usize,
    chars_read: usize,
    font_width: u32,
    font_height: u32,
}

impl View for Video {
    type V = ConsoleModel;

    closed spec fn view(&self) -> ConsoleModel {
        ConsoleModel {
            surface: match self.display {
                None => None,
                Some(d) => Some(
                    SurfaceModel {
                        width: d.width as int,
                        height: d.height as int,
                        depth: d.depth,
                        pixels: d.pixels(),
                    },
                ),
            },
            cursor_x: self.cursor_x as int,
            cursor_y: self.cursor_y as int,
            chars_written: self.chars_written as int,
            chars_read: self.chars_read as int,
            font_width: self.font_width as int,
            font_height: self.font_height as int,
        }
    }
}

/// Stamps the glyph for `c` onto the surface, cell top-left at `(x, y)`;
/// pixels falling outside the surface are clipped.
fn draw_glyph(d: &mut Display, c: char, x: u32, y: u32)
    requires
        old(d).wf(),
        old(d).depth.spec_supported(),
        x <= u32::MAX - FONT_WIDTH,
        y <= u32::MAX - FONT_HEIGHT,
    ensures
        final(d).wf(),
        final(d).width == old(d).width,
        final(d).height == old(d).height,
        final(d).depth == old(d).depth,
        final(d).fb_base == old(d).fb_base,
        final(d).fb_len == old(d).fb_len,
        final(d).pixels() == spec_stamp_char(
            old(d).pixels(),
            old(d).width as int,
            old(d).height as int,
            old(d).depth,
            c,
            x as int,
            y as int,
        ),
{
    let mut p: usize = 0;
    while p < 60
        invariant
            p <= 60,
            d.wf(),
            d.depth.spec_supported(),
            d.width == old(d).width,
            d.height == old(d).height,
            d.depth == old(d).depth,
            d.fb_base == old(d).fb_base,
            d.fb_len == old(d).fb_len,
            x <= u32::MAX - FONT_WIDTH,
            y <= u32::MAX - FONT_HEIGHT,
            d.pixels() == spec_stamp_cell(
                old(d).pixels(),
                old(d).width as int,
                old(d).height as int,
                old(d).depth,
                c,
                x as int,
                y as int,
                p as int,
            ),
        decreases 60 - p,
    {
        let gx = (p % 6) as u32;
        let gy = (p / 6) as u32;
        if glyph_pixel_lit(c, gx, gy) {
            let r = d.write_pixel(x + gx, y + gy, 255, 255, 255);
            proof {
                assert(r is Ok);
            }
        }
        p += 1;
    }
}

impl Video {
    /// A console with no surface yet: cursor, metrics and counters all
    /// zero.
    pub fn new() -> (v: Video)
        ensures
            v@ == (ConsoleModel {
                surface: None,
                cursor_x: 0,
                cursor_y: 0,
                chars_written: 0,
                chars_read: 0,
                font_width: 0,
                font_height: 0,
            }),
    {
        Video {
            display: None,
            cursor_x: 0,
            cursor_y: 0,
            chars_written: 0,
            chars_read: 0,
            font_width: 0,
            font_height: 0,
        }
    }

    /// Negotiates a framebuffer through the mailbox, once at startup, and
    /// adopts the surface it yields. Cursor, metrics and counters stay
    /// untouched; with no framebuffer on offer the console runs on as a
    /// counting sink and startup does not fail.
    pub fn init(
        &mut self,
        mailbox: &mut MailBox,
        width: u32,
        height: u32,
        replies: &Vec<MailReply>,
    )
        requires
            old(mailbox).wf(),
            forall|k: int|
                0 <= k < replies@.len() ==> #[trigger] replies@[k].mail@.len()
                    == crate::mailbox::BUFFER_LENGTH as int,
        ensures
            final(mailbox).wf(),
            final(mailbox).buffer_addr == old(mailbox).buffer_addr,
            final(self)@.cursor_x == old(self)@.cursor_x,
            final(self)@.cursor_y == old(self)@.cursor_y,
            final(self)@.chars_written == old(self)@.chars_written,
            final(self)@.chars_read == old(self)@.chars_read,
            final(self)@.font_width == old(self)@.font_width,
            final(self)@.font_height == old(self)@.font_height,
            final(self)@.surface_wf(),
            (final(self)@.surface is Some) <==> (spec_negotiate(replies@) matches Some(d) && (
            d.width as int) * (d.height as int) <= usize::MAX),
            final(self)@.surface matches Some(sf) ==> (spec_negotiate(replies@) matches Some(d)
                && sf.width == d.width as int && sf.height == d.height as int && sf.depth
                == d.depth && sf.pixels =~= Seq::new(
                ((d.width as int) * (d.height as int)) as nat,
                |i: int| 0u32,
            )),
    {
        self.display = mailbox.request_framebuffer(width, height, replies);
    }

    /// Reads the glyph cell size from the font, parks the cursor at the
    /// start of the first text row — text anchors at the glyph's bottom
    /// row, so the first line begins one row short of the cell height —
    /// and zeroes the surface. A surface too small to hold even one glyph
    /// cell cannot carry the console and is dropped like an absent
    /// framebuffer.
    pub fn reset_console(&mut self)
        requires
            old(self)@.surface_wf(),
        ensures
            final(self)@.wf(),
            final(self)@.font_width == FONT_WIDTH as int,
            final(self)@.font_height == FONT_HEIGHT as int,
            final(self)@.cursor_x == 0,
            final(self)@.cursor_y == FONT_HEIGHT as int - 1,
            final(self)@.chars_written == old(self)@.chars_written,
            final(self)@.chars_read == old(self)@.chars_read,
            (final(self)@.surface is Some) <==> (old(self)@.surface matches Some(sf) && sf.width
                >= FONT_WIDTH as int && sf.height >= FONT_HEIGHT as int),
            final(self)@.surface matches Some(sf2) ==> (old(self)@.surface matches Some(sf)
                && sf2.width == sf.width && sf2.height == sf.height && sf2.depth == sf.depth
                && sf2.pixels =~= Seq::new(sf.pixels.len(), |i: int| 0u32)),
    {
        let (fw, fh) = font_cell_size();
        self.font_width = fw;
        self.font_height = fh;
        self.cursor_y = fh - 1;
        self.cursor_x = 0;
        let keep = match &self.display {
            None => false,
            Some(d) => fw <= d.width && fh <= d.height,
        };
        if keep {
            if let Some(d) = &mut self.display {
                d.clear();
            }
        } else {
            self.display = None;
        }
    }

    /// Writes the characters `chars[start..]`: the fitting prefix is drawn
    /// at the cursor, a remainder wraps hard to column 0 of the next row
    /// and is written recursively; a trailing line break forces a fresh
    /// row, and the surface scrolls whenever a row advance would leave it.
    /// Characters are counted even without a surface.
    pub fn write_chars(&mut self, chars: &Vec<char>, start: usize) -> (r: Result<(), Fault>)
        requires
            old(self)@.wf(),
            start <= chars@.len(),
            old(self)@.chars_written + chars@.len() - start <= usize::MAX,
        ensures
            final(self)@.wf(),
            r is Ok <==> !(old(self)@.surface matches Some(sf) && !sf.depth.spec_supported()),
            r is Ok ==> final(self)@ == spec_write(old(self)@, chars@.skip(start as int)),
            r is Err ==> final(self)@ == old(self)@ && r == Err::<(), Fault>(
                Fault::UnsupportedColorDepth,
            ),
        decreases chars@.len() - start, old(self)@.cursor_x,
    {
        let len = chars.len();
        let ghost tail = chars@.skip(start as int);
        if self.display.is_none() {
            self.chars_written = self.chars_written + (len - start);
            proof {
                assert(self@ =~~= spec_write(old(self)@, tail));
            }
            return Ok(());
        }
        let unsupported = match &self.display {
            Some(d) => !d.depth.supported(),
            None => false,
        };
        if unsupported {
            return Err(Fault::UnsupportedColorDepth);
        }
        if start >= len {
            proof {
                assert(tail.len() == 0);
                assert(self@ =~~= spec_write(old(self)@, tail));
            }
            return Ok(());
        }

        let dopt = self.display.take();
        let mut d = dopt.unwrap();
        let ghost sf0 = old(self)@.surface.unwrap();
        let ghost wdt: int = d.width as int;
        let ghost hgt: int = d.height as int;
        let ghost dep = d.depth;

        let fw = self.font_width;
        let fh = self.font_height;
        proof {
            assert(fw == FONT_WIDTH && fh == FONT_HEIGHT);
        }
        let cols_left: u32 = (d.width - self.cursor_x) / fw;
        proof {
            vstd::arithmetic::div_mod::lemma_fundamental_div_mod(wdt - self.cursor_x as int, 6);
            vstd::arithmetic::div_mod::lemma_mod_bound(wdt - self.cursor_x as int, 6);
            assert(cols_left as int == spec_cols_left(old(self)@));
            assert(6 * (cols_left as int) <= wdt - self.cursor_x as int);
        }
        let remaining = len - start;
        let wrapped = remaining > cols_left as usize;
        let cutoff: usize = if wrapped {
            cols_left as usize
        } else {
            remaining
        };
        proof {
            assert(cutoff as int <= cols_left as int);
            assert(self.cursor_x as int + (cutoff as int) * 6 <= wdt) by {
                assert((cutoff as int) * 6 <= (cols_left as int) * 6) by (nonlinear_arith)
                    requires
                        cutoff as int <= cols_left as int,
                ;
            }
        }

        let top = self.cursor_y + 1 - fh;
        let x0 = self.cursor_x;
        let ghost px0 = d.pixels();
        let mut k: usize = 0;
        while k < cutoff
            invariant
                k <= cutoff,
                start + cutoff <= len,
                len == chars@.len(),
                tail == chars@.skip(start as int),
                d.wf(),
                d.depth.spec_supported(),
                d.width as int == wdt,
                d.height as int == hgt,
                d.depth == dep,
                fw == FONT_WIDTH,
                x0 as int + (cutoff as int) * 6 <= wdt,
                wdt <= u32::MAX,
                top as int + (FONT_HEIGHT as int) <= u32::MAX,
                d.pixels() == spec_stamp_text(
                    px0,
                    wdt,
                    hgt,
                    dep,
                    tail,
                    x0 as int,
                    top as int,
                    k as int,
                ),
            decreases cutoff - k,
        {
            let c = chars[start + k];
            proof {
                assert((k as int + 1) * 6 <= (cutoff as int) * 6 && 0 <= (k as int) * 6)
                    by (nonlinear_arith)
                    requires
                        0 <= (k as int),
                        (k as int) < (cutoff as int),
                ;
            }
            let gx = x0 + (k as u32) * fw;
            draw_glyph(&mut d, c, gx, top);
            proof {
                assert(tail[k as int] == c);
            }
            k += 1;
        }

        let mut nx: u32 = 0;
        let mut ny: u64 = self.cursor_y as u64;
        if !wrapped {
            nx = x0 + (cutoff as u32) * fw;
        } else {
            nx = 0;
            ny = ny + fh as u64;
        }
        let last_nl = chars[len - 1] == '\n';
        proof {
            assert(tail.last() == chars@[len - 1]);
        }
        if last_nl {
            nx = 0;
            ny = ny + fh as u64;
        }
        if nx >= d.width {
            nx = 0;
            ny = ny + fh as u64;
        }

        let ghost y4g: int = ny as int;
        let ghost stamped = d.pixels();
        let ghost fix0 = spec_scroll_fix(stamped, wdt, hgt, FONT_HEIGHT as int, y4g);
        proof {
            // The cursor row advanced by zero, one or two glyph heights,
            // which leaves its phase within the glyph row unchanged.
            vstd::arithmetic::div_mod::lemma_mod_add_multiples_vanish(old(self)@.cursor_y, 10);
            vstd::arithmetic::div_mod::lemma_mod_add_multiples_vanish(
                old(self)@.cursor_y + 10,
                10,
            );
            assert(ny as int % 10 == 9);
        }
        while ny >= d.height as u64
            invariant
                d.wf(),
                d.width as int == wdt,
                d.height as int == hgt,
                d.depth == dep,
                fh == FONT_HEIGHT,
                10 <= hgt,
                ny as int % 10 == 9,
                spec_scroll_fix(d.pixels(), wdt, hgt, FONT_HEIGHT as int, ny as int) == fix0,
            decreases ny,
        {
            proof {
                vstd::arithmetic::div_mod::lemma_mod_sub_multiples_vanish(ny as int, 10);
            }
            let ghost before = d.pixels();
            ny = ny - fh as u64;
            d.scroll_up(fh);
            proof {
                assert(d.pixels() == spec_scrolled(before, wdt, hgt, FONT_HEIGHT as int));
            }
        }
        proof {
            assert((d.pixels(), ny as int) == fix0);
            assert(ny as int >= 9) by {
                if (ny as int) < 9 {
                    vstd::arithmetic::div_mod::lemma_small_mod(ny as nat, 10);
                }
            }
        }

        self.cursor_x = nx;
        self.cursor_y = ny as u32;
        self.chars_written = self.chars_written + cutoff;
        self.display = Some(d);

        proof {
            assert(self@.wf());
            assert(spec_write(old(self)@, tail) == if cutoff as int == tail.len() as int {
                self@
            } else {
                spec_write(self@, tail.skip(cutoff as int))
            }) by {
                assert(self@ =~~= (ConsoleModel {
                    surface: Some(SurfaceModel { pixels: fix0.0, ..sf0 }),
                    cursor_x: nx as int,
                    cursor_y: fix0.1,
                    chars_written: old(self)@.chars_written + cutoff as int,
                    ..old(self)@
                }));
            }
        }

        if wrapped {
            proof {
                if cutoff == 0 {
                    vstd::arithmetic::div_mod::lemma_small_div_converse(
                        wdt - old(self)@.cursor_x,
                        6,
                    );
                }
                assert(chars@.skip((start + cutoff) as int) =~= tail.skip(cutoff as int));
            }
            let res = self.write_chars(chars, start + cutoff);
            proof {
                assert(res is Ok);
            }
            return res;
        }
        proof {
            assert(cutoff as int == tail.len() as int);
        }
        Ok(())
    }

    /// Writes a string: the fitting prefix on the current row, the rest
    /// wrapped hard onto following rows — a word may split mid-character —
    /// with a trailing line break forcing a fresh row and a scroll whenever
    /// the cursor would leave the surface.
    pub fn write_str(&mut self, text: &str) -> (r: Result<(), Fault>)
        requires
            old(self)@.wf(),
            old(self)@.chars_written + text@.len() <= usize::MAX,
        ensures
            final(self)@.wf(),
            r is Ok <==> !(old(self)@.surface matches Some(sf) && !sf.depth.spec_supported()),
            r is Ok ==> final(self)@ == spec_write(old(self)@, text@),
            r is Err ==> final(self)@ == old(self)@ && r == Err::<(), Fault>(
                Fault::UnsupportedColorDepth,
            ),
    {
        let n = text.unicode_len();
        let mut chars: Vec<char> = Vec::new();
        let mut i: usize = 0;
        while i < n
            invariant
                i <= n,
                n == text@.len(),
                chars@ == text@.subrange(0, i as int),
            decreases n - i,
        {
            let c = text.get_char(i);
            chars.push(c);
            proof {
                assert(chars@ =~= text@.subrange(0, i as int + 1));
            }
            i += 1;
        }
        proof {
            assert(chars@ =~= text@);
            assert(chars@.skip(0) =~= text@);
        }
        self.write_chars(&chars, 0)
    }

    /// Writes one character by forwarding it as a one-character fragment.
    pub fn write_char(&mut self, c: char) -> (r: Result<(), Fault>)
        requires
            old(self)@.wf(),
            old(self)@.chars_written + 1 <= usize::MAX,
        ensures
            final(self)@.wf(),
            r is Ok <==> !(old(self)@.surface matches Some(sf) && !sf.depth.spec_supported()),
            r is Ok ==> final(self)@ == spec_write(old(self)@, seq![c]),
            r is Err ==> final(self)@ == old(self)@ && r == Err::<(), Fault>(
                Fault::UnsupportedColorDepth,
            ),
    {
        let mut chars: Vec<char> = Vec::new();
        chars.push(c);
        proof {
            assert(chars@.skip(0) =~= seq![c]);
        }
        self.write_chars(&chars, 0)
    }

    /// Scrolls the surface up by one glyph row: every surviving pixel row
    /// moves up by the cell height, the freed bottom rows become zero, the
    /// cursor stays where it was. Without a surface, does nothing.
    pub fn scroll_video_console(&mut self)
        requires
            old(self)@.wf(),
        ensures
            final(self)@.wf(),
            old(self)@.surface is None ==> final(self)@ == old(self)@,
            old(self)@.surface matches Some(sf) ==> final(self)@ == (ConsoleModel {
                surface: Some(
                    SurfaceModel {
                        pixels: spec_scrolled(
                            sf.pixels,
                            sf.width,
                            sf.height,
                            old(self)@.font_height,
                        ),
                        ..sf
                    },
                ),
                ..old(self)@
            }),
    {
        let fh = self.font_height;
        let dopt = self.display.take();
        match dopt {
            None => {
                proof {
                    assert(self@ =~~= old(self)@);
                }
            },
            Some(mut d) => {
                d.scroll_up(fh);
                self.display = Some(d);
            },
        }
    }

    /// The compatibility string the driver manager registers this console
    /// under.
    pub fn compatible(&self) -> (r: &'static str)
        ensures
            r@ == "BCM VideoCore IV"@,
    {
        "BCM VideoCore IV"
    }

    /// Flush: every pixel write is immediately visible on the surface;
    /// there is nothing to push out.
    pub fn flush(&self) {
    }

    /// Clear pending input: the console is output-only; there is nothing
    /// to drop.
    pub fn clear_rx(&self) {
    }

    /// Characters accepted so far.
    pub fn chars_written(&self) -> (n: usize)
        ensures
            n as int == self@.chars_written,
    {
        self.chars_written
    }

    /// Characters read so far; always zero for this output-only console.
    pub fn chars_read(&self) -> (n: usize)
        ensures
            n as int == self@.chars_read,
    {
        self.chars_read
    }

    /// Cursor position in pixels: the column, and the row of the glyph
    /// cell's bottom.
    pub fn cursor(&self) -> (p: (u32, u32))
        ensures
            p.0 as int == self@.cursor_x,
            p.1 as int == self@.cursor_y,
    {
        (self.cursor_x, self.cursor_y)
    }

    /// The pixel word at `(x, y)`, when a surface is attached and the
    /// coordinates lie inside it.
    pub fn read_pixel(&self, x: u32, y: u32) -> (r: Option<u32>)
        requires
            self@.surface_wf(),
        ensures
            match self@.surface {
                None => r is None,
                Some(sf) => if x < sf.width && y < sf.height {
                    r == Some(sf.pixels[y as int * sf.width + x as int])
                } else {
                    r is None
                },
            },
    {
        match &self.display {
            None => None,
            Some(d) => {
                if x < d.width && y < d.height {
                    Some(d.read_pixel(x, y))
                } else {
                    None
                }
            },
        }
    }
}

/// A clipped pixel write never changes the pixel count.
proof fn lemma_put_pixel_len(
    px: Seq<u32>,
    width: int,
    height: int,
    d: ColorDepth,
    x: int,
    y: int,
)
    requires
        px.len() == width * height,
    ensures
        spec_put_pixel(px, width, height, d, x, y, 255, 255, 255).len() == px.len(),
{
    if 0 <= x < width && 0 <= y < height {
        assert(0 <= y * width + x < width * height) by (nonlinear_arith)
            requires
                0 <= x < width,
                0 <= y < height,
        ;
    }
}

/// Stamping one glyph cell never changes the pixel count.
proof fn lemma_stamp_cell_len(
    px: Seq<u32>,
    width: int,
    height: int,
    d: ColorDepth,
    c: char,
    x: int,
    y: int,
    k: int,
)
    requires
        px.len() == width * height,
    ensures
        spec_stamp_cell(px, width, height, d, c, x, y, k).len() == px.len(),
    decreases k,
{
    if k > 0 {
        lemma_stamp_cell_len(px, width, height, d, c, x, y, k - 1);
        let j = k - 1;
        if glyph_lit(c, j % 6, j / 6) {
            lemma_put_pixel_len(
                spec_stamp_cell(px, width, height, d, c, x, y, j),
                width,
                height,
                d,
                x + j % 6,
                y + j / 6,
            );
        }
    }
}

/// Stamping a run of glyphs never changes the pixel count.
proof fn lemma_stamp_text_len(
    px: Seq<u32>,
    width: int,
    height: int,
    d: ColorDepth,
    text: Seq<char>,
    x: int,
    y: int,
    k: int,
)
    requires
        px.len() == width * height,
    ensures
        spec_stamp_text(px, width, height, d, text, x, y, k).len() == px.len(),
    decreases k,
{
    if k > 0 {
        lemma_stamp_text_len(px, width, height, d, text, x, y, k - 1);
        lemma_stamp_cell_len(
            spec_stamp_text(px, width, height, d, text, x, y, k - 1),
            width,
            height,
            d,
            text[k - 1],
            x + (k - 1) * (FONT_WIDTH as int),
            y,
            60,
        );
    }
}

/// Scroll-fixing preserves the pixel count, lands the cursor row back
/// inside the surface, and keeps it on a glyph-row boundary.
proof fn lemma_scroll_fix_props(px: Seq<u32>, width: int, height: int, fh: int, cy: int)
    requires
        1 <= fh <= height,
        fh - 1 <= cy,
        cy % fh == fh - 1,
    ensures
        ({
            let r = spec_scroll_fix(px, width, height, fh, cy);
            &&& r.0.len() == px.len()
            &&& fh - 1 <= r.1 < height
            &&& r.1 % fh == fh - 1
        }),
    decreases cy,
{
    if cy >= height {
        vstd::arithmetic::div_mod::lemma_mod_sub_multiples_vanish(cy, fh);
        if cy - fh < fh - 1 {
            vstd::arithmetic::div_mod::lemma_small_mod((cy - fh) as nat, fh as nat);
        }
        lemma_scroll_fix_props(spec_scrolled(px, width, height, fh), width, height, fh, cy - fh);
    }
}

/// The state one wrapping step leaves behind: the fitting prefix of `k`
/// glyphs stamped at the cursor, the cursor at column 0 of the following
/// row, the surface scrolled back under it, and `k` characters counted.
pub open spec fn spec_wrap_step(s: ConsoleModel, text: Seq<char>) -> ConsoleModel
    recommends
        s.surface is Some,
{
    let sf = s.surface.unwrap();
    let k = spec_cols_left(s);
    let stamped = spec_stamp_text(
        sf.pixels,
        sf.width,
        sf.height,
        sf.depth,
        text,
        s.cursor_x,
        s.cursor_y - (s.font_height - 1),
        k,
    );
    let y_adv = if text.last() == '\n' {
        s.cursor_y + 2 * s.font_height
    } else {
        s.cursor_y + s.font_height
    };
    let fixed = spec_scroll_fix(stamped, sf.width, sf.height, s.font_height, y_adv);
    ConsoleModel {
        surface: Some(SurfaceModel { pixels: fixed.0, ..sf }),
        cursor_x: 0,
        cursor_y: fixed.1,
        chars_written: s.chars_written + k,
        ..s
    }
}

/// The wrapping step preserves the console invariant, and its cutoff is
/// the number of free columns.
proof fn lemma_wrap_step_wf(s: ConsoleModel, text: Seq<char>)
    requires
        s.wf(),
        s.surface is Some,
        s.surface.unwrap().depth.spec_supported(),
        text.len() > spec_cols_left(s),
    ensures
        spec_wrap_step(s, text).wf(),
        0 <= spec_cols_left(s),
        spec_cols_left(s) == 0 ==> s.cursor_x > 0,
        spec_write(s, text) == spec_write(spec_wrap_step(s, text), text.skip(spec_cols_left(s))),
{
    let sf = s.surface.unwrap();
    let k = spec_cols_left(s);
    vstd::arithmetic::div_mod::lemma_div_pos_is_pos(sf.width - s.cursor_x, s.font_width);
    if k == 0 {
        vstd::arithmetic::div_mod::lemma_small_div_converse(sf.width - s.cursor_x, s.font_width);
    }
    lemma_stamp_text_len(
        sf.pixels,
        sf.width,
        sf.height,
        sf.depth,
        text,
        s.cursor_x,
        s.cursor_y - (s.font_height - 1),
        k,
    );
    let y_adv = if text.last() == '\n' {
        s.cursor_y + 2 * s.font_height
    } else {
        s.cursor_y + s.font_height
    };
    vstd::arithmetic::div_mod::lemma_mod_add_multiples_vanish(s.cursor_y, s.font_height);
    vstd::arithmetic::div_mod::lemma_mod_add_multiples_vanish(
        s.cursor_y + s.font_height,
        s.font_height,
    );
    let stamped = spec_stamp_text(
        sf.pixels,
        sf.width,
        sf.height,
        sf.depth,
        text,
        s.cursor_x,
        s.cursor_y - (s.font_height - 1),
        k,
    );
    lemma_scroll_fix_props(stamped, sf.width, sf.height, s.font_height, y_adv);
    assert(spec_wrap_step(s, text).wf());
    assert(spec_write(s, text) == spec_write(spec_wrap_step(s, text), text.skip(k)));
}

/// Writing adds exactly the text's length to the character counter, over
/// every wrap, row advance and scroll it takes.
pub proof fn lemma_write_counts_all(s: ConsoleModel, text: Seq<char>)
    requires
        s.wf(),
        s.surface matches Some(sf) ==> sf.depth.spec_supported(),
    ensures
        spec_write(s, text).chars_written == s.chars_written + text.len(),
    decreases text.len(), s.cursor_x,
{
    match s.surface {
        None => {},
        Some(sf) => {
            if sf.depth.spec_supported() && text.len() > 0 && text.len() > spec_cols_left(s) {
                lemma_wrap_step_wf(s, text);
                lemma_write_counts_all(spec_wrap_step(s, text), text.skip(spec_cols_left(s)));
            }
        },
    }
}

/// The hard-wrap law: a string longer than the columns left on the
/// cursor's row is split. The fitting prefix is stamped where the cursor
/// stood; the remainder is written from column 0 of the
/// following row, with the surface scrolled back under the cursor if the
/// advance left it; and the characters counted over all rows equal the
/// whole string's length.
pub proof fn lemma_write_wraps(s: ConsoleModel, text: Seq<char>)
    requires
        s.wf(),
        s.surface is Some,
        s.surface.unwrap().depth.spec_supported(),
        text.len() > spec_cols_left(s),
    ensures
        spec_write(s, text) == spec_write(spec_wrap_step(s, text), text.skip(spec_cols_left(s))),
        spec_wrap_step(s, text).cursor_x == 0,
        spec_wrap_step(s, text).chars_written == s.chars_written + spec_cols_left(s),
        spec_write(s, text).chars_written == s.chars_written + text.len(),
{
    lemma_wrap_step_wf(s, text);
    lemma_write_counts_all(s, text);
}

} // verus!
