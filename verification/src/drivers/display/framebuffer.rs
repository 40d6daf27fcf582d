//! Framebuffer geometry, pixel encoding and drawing into framebuffer memory.
//!
//! Framebuffer memory is handed to the drawing functions as a byte slice of
//! at least `size()` bytes.

use vstd::prelude::*;

verus! {

/// Pixel byte order.
#[derive(Debug, Clone, Copy, PartialEq, Eq, Structural)]
pub enum PixelFormat {
    /// Bytes blue, green, red.
    RGB,
    /// Bytes red, green, blue.
    BGR,
}

/// An RGB color.
#[derive(Debug, Clone, Copy, PartialEq, Eq, Structural)]
pub struct Color {
    pub r: u8,
    pub g: u8,
    pub b: u8,
}

/// 5-bit channel value of an 8-bit one.
pub open spec fn to5(c: int) -> int {
    c * 31 / 255
}

/// 6-bit channel value of an 8-bit one.
pub open spec fn to6(c: int) -> int {
    c * 63 / 255
}

/// 8-bit channel value of a 5-bit one.
pub open spec fn from5(c: int) -> int {
    (c * 255 + 15) / 31
}

/// 8-bit channel value of a 6-bit one.
pub open spec fn from6(c: int) -> int {
    (c * 255 + 31) / 63
}

impl Color {
    /// Create a color.
    pub fn new(r: u8, g: u8, b: u8) -> (c: Color)
        ensures
            c == (Color { r, g, b }),
    {
        Color { r, g, b }
    }

    /// Black.
    pub fn black() -> (c: Color)
        ensures
            c == (Color { r: 0, g: 0, b: 0 }),
    {
        Color { r: 0, g: 0, b: 0 }
    }

    /// White.
    pub fn white() -> (c: Color)
        ensures
            c == (Color { r: 255, g: 255, b: 255 }),
    {
        Color { r: 255, g: 255, b: 255 }
    }

    /// The default foreground of the system theme (Dracula #F8F8F2).
    pub fn fg_default() -> (c: Color)
        ensures
            c == (Color { r: 248, g: 248, b: 242 }),
    {
        Color { r: 248, g: 248, b: 242 }
    }

    /// The default background of the system theme (Dracula #282A36).
    pub fn bg_default() -> (c: Color)
        ensures
            c == (Color { r: 40, g: 42, b: 54 }),
    {
        Color { r: 40, g: 42, b: 54 }
    }

    /// Decode an RGB565 value, scaling each channel to 8 bits.
    pub fn from_rgb565(rgb565: u16) -> (c: Color)
        ensures
            c.r == from5(rgb565 as int / 2048 % 32),
            c.g == from6(rgb565 as int / 32 % 64),
            c.b == from5(rgb565 as int % 32),
    {
        let r: u16 = (rgb565 >> 11u16) & 0x1F;
        let g: u16 = (rgb565 >> 5u16) & 0x3F;
        let b: u16 = rgb565 & 0x1F;
        assert(r == rgb565 / 2048 % 32 && g == rgb565 / 32 % 64 && b == rgb565 % 32) by (bit_vector)
            requires
                r == (rgb565 >> 11u16) & 0x1F,
                g == (rgb565 >> 5u16) & 0x3F,
                b == rgb565 & 0x1F,
        ;
        let r8 = (r * 255 + 15) / 31;
        let g8 = (g * 255 + 31) / 63;
        let b8 = (b * 255 + 15) / 31;
        Color { r: r8 as u8, g: g8 as u8, b: b8 as u8 }
    }

    /// Encode as RGB565.
    pub fn to_rgb565(self) -> (v: u16)
        ensures
            v == to5(self.r as int) * 2048 + to6(self.g as int) * 32 + to5(self.b as int),
    {
        let r: u16 = (self.r as u16 * 31) / 255;
        let g: u16 = (self.g as u16 * 63) / 255;
        let b: u16 = (self.b as u16 * 31) / 255;
        assert((r << 11u16) | (g << 5u16) | b == r * 2048 + g * 32 + b) by (bit_vector)
            requires
                r < 32,
                g < 64,
                b < 32,
        ;
        (r << 11u16) | (g << 5u16) | b
    }

    /// Encode as 32-bit ARGB with full alpha.
    pub fn to_rgba32(self) -> (v: u32)
        ensures
            v == 0xFF000000u32 + self.r * 65536 + self.g * 256 + self.b,
    {
        let r = self.r as u32;
        let g = self.g as u32;
        let b = self.b as u32;
        assert((r << 16u32) | (g << 8u32) | b | 0xFF000000u32 == 0xFF000000u32 + r * 65536 + g
            * 256 + b) by (bit_vector)
            requires
                r < 256,
                g < 256,
                b < 256,
        ;
        (r << 16u32) | (g << 8u32) | b | 0xFF000000u32
    }
}

/// Law: an RGB565 round trip keeps each channel within one quantization step.
pub proof fn lemma_rgb565_roundtrip(c: u8)
    ensures
        c as int - 8 <= from5(to5(c as int)) <= c as int + 8,
        c as int - 4 <= from6(to6(c as int)) <= c as int + 4,
{
    let x = c as u32;
    assert((((x * 31) / 255) * 255 + 15) / 31 + 8 >= x && (((x * 31) / 255) * 255 + 15) / 31 <= x + 8
        && (((x * 63) / 255) * 255 + 31) / 63 + 4 >= x && (((x * 63) / 255) * 255 + 31) / 63 <= x + 4)
        by (bit_vector)
        requires
            x < 256,
    ;
}

/// Framebuffer geometry and pixel format.
pub struct Framebuffer {
    pub base_addr: u64,
    pub width: usize,
    pub height: usize,
    /// Bytes per line
    pub pitch: usize,
    /// Bits per pixel
    pub bpp: usize,
    pub format: PixelFormat,
}

/// The bytes that encode `c` in a pixel of `bpp` bits and `format` (empty
/// for unsupported depths).
pub open spec fn pixel_bytes(bpp: usize, format: PixelFormat, c: Color) -> Seq<u8> {
    let v = to5(c.r as int) * 2048 + to6(c.g as int) * 32 + to5(c.b as int);
    if bpp == 16 {
        seq![(v % 256) as u8, (v / 256) as u8]
    } else if bpp == 24 || bpp == 32 {
        let first = match format {
            PixelFormat::RGB => seq![c.b, c.g, c.r],
            PixelFormat::BGR => seq![c.r, c.g, c.b],
        };
        if bpp == 32 { first.push(0xFFu8) } else { first }
    }
    else {
        Seq::empty()
    }
}

impl Framebuffer {
    /// Byte offset of pixel (`x`, `y`).
    pub open spec fn offset_of(&self, x: int, y: int) -> int {
        y * self.pitch + x * (self.bpp / 8)
    }

    /// The geometry fits: a line of pixels fits in the pitch and the whole
    /// buffer is addressable.
    pub open spec fn wf(&self) -> bool {
        &&& self.width * (self.bpp / 8) <= self.pitch
        &&& self.height * self.pitch <= usize::MAX
    }

    /// Create a framebuffer description.
    pub fn new(base_addr: u64, width: usize, height: usize, pitch: usize, bpp: usize, format: PixelFormat) -> (fb: Framebuffer)
        ensures
            fb.base_addr == base_addr && fb.width == width && fb.height == height && fb.pitch
                == pitch && fb.bpp == bpp && fb.format == format,
    {
        Framebuffer { base_addr, width, height, pitch, bpp, format }
    }

    /// Size of the framebuffer in bytes.
    pub fn size(&self) -> (r: usize)
        requires
            self.height * self.pitch <= usize::MAX,
        ensures
            r == self.height * self.pitch,
    {
        self.height * self.pitch
    }

    /// Byte offset of pixel (`x`, `y`), or `None` outside the screen.
    pub fn pixel_offset(&self, x: usize, y: usize) -> (r: Option<usize>)
        requires
            self.wf(),
        ensures
            (x >= self.width || y >= self.height) ==> r is None,
            (x < self.width && y < self.height) ==> r == Some(self.offset_of(x as int, y as int) as usize),
    {
        if x >= self.width || y >= self.height {
            return None;
        }
        proof {
            lemma_offset_in_bounds(self, x as int, y as int);
        }
        Some(y * self.pitch + x * (self.bpp / 8))
    }

    /// Write one pixel into framebuffer memory (nothing outside the screen
    /// or for an unsupported depth).
    pub fn put_pixel(&self, mem: &mut [u8], x: usize, y: usize, color: Color)
        requires
            self.wf(),
            old(mem)@.len() >= self.height * self.pitch,
        ensures
            final(mem)@.len() == old(mem)@.len(),
            (x >= self.width || y >= self.height) ==> final(mem)@ == old(mem)@,
            (x < self.width && y < self.height) ==> final(mem)@ == write_bytes(
                old(mem)@,
                self.offset_of(x as int, y as int),
                pixel_bytes(self.bpp, self.format, color),
            ),
    {
        match self.pixel_offset(x, y) {
            None => {},
            Some(offset) => {
                proof {
                    lemma_offset_in_bounds(self, x as int, y as int);
                }
                let ghost m0 = mem@;
                if self.bpp == 16 {
                    let v = color.to_rgb565();
                    mem[offset] = (v % 256) as u8;
                    mem[offset + 1] = (v / 256) as u8;
                    proof {
                        assert(mem@ =~= write_bytes(m0, offset as int, pixel_bytes(self.bpp, self.format, color)));
                    }
                } else if self.bpp == 24 || self.bpp == 32 {
                    match self.format {
                        PixelFormat::RGB => {
                            mem[offset] = color.b;
                            mem[offset + 1] = color.g;
                            mem[offset + 2] = color.r;
                        },
                        PixelFormat::BGR => {
                            mem[offset] = color.r;
                            mem[offset + 1] = color.g;
                            mem[offset + 2] = color.b;
                        },
                    }
                    if self.bpp == 32 {
                        mem[offset + 3] = 0xFF;
                    }
                    proof {
                        assert(mem@ =~= write_bytes(m0, offset as int, pixel_bytes(self.bpp, self.format, color)));
                    }
                } else {
                    proof {
                        assert(mem@ =~= write_bytes(m0, offset as int, pixel_bytes(self.bpp, self.format, color)));
                    }
                }
            },
        }
    }
}

/// `m` with the bytes `b` written from offset `off` on.
pub open spec fn write_bytes(m: Seq<u8>, off: int, b: Seq<u8>) -> Seq<u8> {
    Seq::new(m.len(), |i: int| if off <= i < off + b.len() { b[i - off] } else { m[i] })
}

/// A pixel on the screen lies, with all its bytes, inside the buffer.
pub proof fn lemma_offset_in_bounds(fb: &Framebuffer, x: int, y: int)
    requires
        fb.wf(),
        0 <= x < fb.width,
        0 <= y < fb.height,
    ensures
        0 <= fb.offset_of(x, y),
        fb.offset_of(x, y) + fb.bpp / 8 <= fb.height * fb.pitch,
{
    let b = fb.bpp / 8;
    let p = fb.pitch as int;
    let w = fb.width as int;
    let h = fb.height as int;
    assert(0 <= y * p + x * b) by (nonlinear_arith)
        requires
            0 <= x,
            0 <= y,
            0 <= p,
            0 <= b,
    ;
    assert(y * p + x * b + b <= h * p) by (nonlinear_arith)
        requires
            0 <= x < w,
            0 <= y < h,
            w * b <= p,
            0 <= b,
    ;
}

/// End of the span `[a, a + len)` cut at `limit`.
pub open spec fn span_end(a: int, len: int, limit: int) -> int {
    if a + len < limit {
        a + len
    } else {
        limit
    }
}

/// The byte of `m` at `off + k`.
pub open spec fn byte_at(m: Seq<u8>, off: int, k: int) -> u8 {
    m[off + k]
}

/// Byte `i` belongs to pixel (`px`, `py`), whose encoding is `n` bytes long.
pub open spec fn in_pixel(fb: Framebuffer, px: int, py: int, n: int, i: int) -> bool {
    fb.offset_of(px, py) <= i < fb.offset_of(px, py) + n
}

/// Pixel (`qx`, `qy`) lies in the rows `[y, ye)` and columns `[x, xe)`, or
/// in row `ye` before column `xr`: the pixels a row-by-row fill has painted
/// when it reaches (`xr`, `ye`).
pub open spec fn painted(qx: int, qy: int, x: int, xe: int, y: int, ye: int, xr: int) -> bool {
    (y <= qy < ye && x <= qx < xe) || (qy == ye && x <= qx < xr)
}

/// Byte `i` belongs to a pixel painted as `painted` says.
pub open spec fn painted_byte(fb: Framebuffer, x: int, xe: int, y: int, ye: int, xr: int, n: int, i: int) -> bool {
    exists|qx: int, qy: int| painted(qx, qy, x, xe, y, ye, xr) && #[trigger] in_pixel(fb, qx, qy, n, i)
}

/// `after` is `before` with every painted pixel encoding `pb` and every
/// other byte unchanged.
pub open spec fn filled(
    fb: Framebuffer,
    before: Seq<u8>,
    after: Seq<u8>,
    x: int,
    xe: int,
    y: int,
    ye: int,
    xr: int,
    pb: Seq<u8>,
) -> bool {
    &&& after.len() == before.len()
    &&& forall|qx: int, qy: int, k: int|
        painted(qx, qy, x, xe, y, ye, xr) && 0 <= k < pb.len() ==> #[trigger] byte_at(
            after,
            fb.offset_of(qx, qy),
            k,
        ) == pb[k]
    &&& forall|i: int|
        0 <= i < before.len() && !painted_byte(fb, x, xe, y, ye, xr, pb.len() as int, i) ==> #[trigger] after[i]
            == before[i]
}

/// The encoding of a pixel is no longer than its slot.
proof fn lemma_pixel_bytes_len(bpp: usize, format: PixelFormat, c: Color)
    ensures
        pixel_bytes(bpp, format, c).len() <= bpp / 8,
{
}

/// Distinct pixels on the screen have disjoint slots.
proof fn lemma_pixels_disjoint(fb: Framebuffer, px: int, py: int, qx: int, qy: int, k1: int, k2: int)
    requires
        fb.wf(),
        0 <= px < fb.width,
        0 <= py < fb.height,
        0 <= qx < fb.width,
        0 <= qy < fb.height,
        px != qx || py != qy,
        0 <= k1 < fb.bpp / 8,
        0 <= k2 < fb.bpp / 8,
    ensures
        fb.offset_of(px, py) + k1 != fb.offset_of(qx, qy) + k2,
{
    let b = fb.bpp / 8;
    let p = fb.pitch as int;
    let w = fb.width as int;
    if py == qy {
        assert(px * b + k1 != qx * b + k2) by (nonlinear_arith)
            requires
                px != qx,
                0 <= k1 < b,
                0 <= k2 < b,
        ;
    } else if py < qy {
        assert(py * p + px * b + k1 < qy * p + qx * b + k2) by (nonlinear_arith)
            requires
                py < qy,
                0 <= px < w,
                0 <= qx,
                w * b <= p,
                0 <= k1 < b,
                0 <= k2,
                0 <= b,
        ;
    } else {
        assert(qy * p + qx * b + k2 < py * p + px * b + k1) by (nonlinear_arith)
            requires
                qy < py,
                0 <= qx < w,
                0 <= px,
                w * b <= p,
                0 <= k2 < b,
                0 <= k1,
                0 <= b,
        ;
    }
}

impl Framebuffer {
    /// Paint the rectangle of `w` x `h` pixels at (`x`, `y`), cut at the
    /// screen edges, with `color`; every other byte stays as it was.
    pub fn fill_rect(&self, mem: &mut [u8], x: usize, y: usize, w: usize, h: usize, color: Color)
        requires
            self.wf(),
            old(mem)@.len() >= self.height * self.pitch,
            x + w <= usize::MAX,
            y + h <= usize::MAX,
        ensures
            ({
                let xe = span_end(x as int, w as int, self.width as int);
                let ye = span_end(y as int, h as int, self.height as int);
                filled(*self, old(mem)@, final(mem)@, x as int, xe, y as int, ye, x as int,
                    pixel_bytes(self.bpp, self.format, color))
            }),
    {
        let ghost pb = pixel_bytes(self.bpp, self.format, color);
        let ghost n = pb.len() as int;
        let ghost m0 = mem@;
        proof {
            lemma_pixel_bytes_len(self.bpp, self.format, color);
        }
        let ye_exec = if y + h < self.height { y + h } else { self.height };
        let xe_exec = if x + w < self.width { x + w } else { self.width };
        let ghost xe = xe_exec as int;
        let ghost ye = ye_exec as int;
        let mut py = y;
        while py < ye_exec
            invariant
                self.wf(),
                m0.len() >= self.height * self.pitch,
                pb == pixel_bytes(self.bpp, self.format, color),
                n == pb.len(),
                n <= self.bpp / 8,
                xe == xe_exec && ye == ye_exec,
                xe <= self.width && ye <= self.height,
                y <= py,
                py <= ye || py == y,
                filled(*self, m0, mem@, x as int, xe, y as int, py as int, x as int, pb),
            decreases ye_exec - py,
        {
            let mut px = x;
            while px < xe_exec
                invariant
                    self.wf(),
                    m0.len() >= self.height * self.pitch,
                    pb == pixel_bytes(self.bpp, self.format, color),
                    n == pb.len(),
                    n <= self.bpp / 8,
                    xe == xe_exec && ye == ye_exec,
                    xe <= self.width && ye <= self.height,
                    y <= py < ye,
                    x <= px,
                    px <= xe || px == x,
                    filled(*self, m0, mem@, x as int, xe, y as int, py as int, px as int, pb),
                decreases xe_exec - px,
            {
                let ghost before = mem@;
                self.put_pixel(mem, px, py, color);
                proof {
                    lemma_offset_in_bounds(self, px as int, py as int);
                    let off = self.offset_of(px as int, py as int);
                    assert forall|qx: int, qy: int, k: int|
                        painted(qx, qy, x as int, xe, y as int, py as int, px + 1) && 0 <= k < pb.len() implies #[trigger] byte_at(
                        mem@,
                        self.offset_of(qx, qy),
                        k,
                    ) == pb[k] by {
                        if qx == px && qy == py {
                        } else {
                            assert(painted(qx, qy, x as int, xe, y as int, py as int, px as int));
                            assert(byte_at(before, self.offset_of(qx, qy), k) == pb[k]);
                            lemma_offset_in_bounds(self, qx, qy);
                            let j = self.offset_of(qx, qy) + k;
                            if off <= j < off + n {
                                lemma_pixels_disjoint(*self, px as int, py as int, qx, qy, j - off, k);
                            }
                            assert(mem@[j] == before[j]);
                        }
                    }
                    assert forall|i: int|
                        0 <= i < m0.len() && !painted_byte(*self, x as int, xe, y as int, py as int, px + 1, n, i)
                        implies #[trigger] mem@[i] == m0[i] by {
                        if painted_byte(*self, x as int, xe, y as int, py as int, px as int, n, i) {
                            let (qx, qy) = choose|qx: int, qy: int|
                                painted(qx, qy, x as int, xe, y as int, py as int, px as int) && #[trigger] in_pixel(
                                    *self,
                                    qx,
                                    qy,
                                    n,
                                    i,
                                );
                            assert(painted(qx, qy, x as int, xe, y as int, py as int, px + 1));
                            assert(false);
                        }
                        if in_pixel(*self, px as int, py as int, n, i) {
                            assert(painted(px as int, py as int, x as int, xe, y as int, py as int, px + 1));
                            assert(false);
                        }
                    }
                }
                px = px + 1;
            }
            proof {
                assert forall|qx: int, qy: int, k: int|
                    painted(qx, qy, x as int, xe, y as int, py + 1, x as int) && 0 <= k < pb.len() implies #[trigger] byte_at(
                    mem@,
                    self.offset_of(qx, qy),
                    k,
                ) == pb[k] by {
                    assert(painted(qx, qy, x as int, xe, y as int, py as int, px as int));
                }
                assert forall|i: int|
                    0 <= i < m0.len() && !painted_byte(*self, x as int, xe, y as int, py + 1, x as int, n, i)
                    implies #[trigger] mem@[i] == m0[i] by {
                    if painted_byte(*self, x as int, xe, y as int, py as int, px as int, n, i) {
                        let (qx, qy) = choose|qx: int, qy: int|
                            painted(qx, qy, x as int, xe, y as int, py as int, px as int) && #[trigger] in_pixel(
                                *self,
                                qx,
                                qy,
                                n,
                                i,
                            );
                        assert(painted(qx, qy, x as int, xe, y as int, py + 1, x as int));
                        assert(false);
                    }
                }
            }
            py = py + 1;
        }
        proof {
            if ye < y {
                assert forall|i: int|
                    0 <= i < m0.len() && !painted_byte(*self, x as int, xe, y as int, ye, x as int, n, i)
                    implies #[trigger] mem@[i] == m0[i] by {
                    if painted_byte(*self, x as int, xe, y as int, py as int, x as int, n, i) {
                        let (qx, qy) = choose|qx: int, qy: int|
                            painted(qx, qy, x as int, xe, y as int, py as int, x as int) && #[trigger] in_pixel(
                                *self,
                                qx,
                                qy,
                                n,
                                i,
                            );
                        assert(false);
                    }
                }
            }
        }
    }

    /// Paint the whole screen with `color`.
    pub fn clear(&self, mem: &mut [u8], color: Color)
        requires
            self.wf(),
            old(mem)@.len() >= self.height * self.pitch,
        ensures
            filled(*self, old(mem)@, final(mem)@, 0, self.width as int, 0, self.height as int, 0,
                pixel_bytes(self.bpp, self.format, color)),
    {
        self.fill_rect(mem, 0, 0, self.width, self.height, color);
    }
}

/// `m` with its first `len` bytes replaced by the `len` bytes that follow
/// `shift` bytes further on.
pub open spec fn shifted(m: Seq<u8>, shift: int, len: int) -> Seq<u8> {
    Seq::new(m.len(), |i: int| if i < len { m[i + shift] } else { m[i] })
}

impl Framebuffer {
    /// Scroll up by `lines` text lines of `char_height` pixels: every pixel
    /// row moves up by that many rows and the rows freed at the bottom are
    /// painted black; scrolling by the screen height or more clears it.
    pub fn scroll(&self, mem: &mut [u8], lines: usize, char_height: usize)
        requires
            self.wf(),
            old(mem)@.len() >= self.height * self.pitch,
            lines * char_height <= usize::MAX,
        ensures
            ({
                let sp = lines * char_height;
                let black = pixel_bytes(self.bpp, self.format, Color { r: 0, g: 0, b: 0 });
                &&& sp >= self.height ==> filled(*self, old(mem)@, final(mem)@, 0, self.width as int, 0,
                    self.height as int, 0, black)
                &&& sp < self.height ==> filled(*self, shifted(old(mem)@, sp * self.pitch, (self.height - sp)
                    * self.pitch), final(mem)@, 0, self.width as int, self.height - sp, self.height as int, 0,
                    black)
            }),
    {
        let scroll_pixels = lines * char_height;
        if scroll_pixels >= self.height {
            self.clear(mem, Color::black());
            return;
        }
        let ghost m0 = mem@;
        let row_size = self.pitch;
        let ghost sp = scroll_pixels as int;
        let ghost p = row_size as int;
        let ghost h = self.height as int;
        proof {
            assert(h * p <= usize::MAX);
            assert(0 <= (h - sp) * p <= h * p) by (nonlinear_arith)
                requires
                    0 <= sp < h,
                    0 <= p,
            ;
            assert(sp * p + (h - sp) * p == h * p) by (nonlinear_arith);
        }
        let mut y = scroll_pixels;
        while y < self.height
            invariant
                self.wf(),
                row_size == self.pitch,
                p == row_size,
                h == self.height,
                sp == scroll_pixels,
                0 <= sp < h,
                sp <= y <= h,
                h * p <= m0.len(),
                mem@.len() == m0.len(),
                forall|i: int| 0 <= i < (y - sp) * p ==> #[trigger] mem@[i] == m0[i + sp * p],
                forall|i: int| (y - sp) * p <= i < m0.len() ==> #[trigger] mem@[i] == m0[i],
            decreases h - y,
        {
            proof {
                assert((y - sp) * p + p == (y + 1 - sp) * p) by (nonlinear_arith);
                assert(y * p == (y - sp) * p + sp * p) by (nonlinear_arith);
                assert(y * p + p <= h * p) by (nonlinear_arith)
                    requires
                        y < h,
                        0 <= p,
                ;
            }
            let src_offset = y * row_size;
            let dst_offset = (y - scroll_pixels) * row_size;
            let mut x: usize = 0;
            while x < row_size
                invariant
                    self.wf(),
                    row_size == self.pitch,
                    p == row_size,
                    h == self.height,
                    sp == scroll_pixels,
                    0 <= sp < h,
                    sp <= y < h,
                    src_offset == y * p,
                    dst_offset == (y - sp) * p,
                    src_offset == dst_offset + sp * p,
                    y * p + p <= h * p,
                    h * p <= m0.len(),
                    mem@.len() == m0.len(),
                    x <= p,
                    forall|i: int| 0 <= i < dst_offset + x ==> #[trigger] mem@[i] == m0[i + sp * p],
                    forall|i: int| dst_offset + x <= i < m0.len() ==> #[trigger] mem@[i] == m0[i],
                decreases p - x,
            {
                let v = mem[src_offset + x];
                mem[dst_offset + x] = v;
                x = x + 1;
            }
            y = y + 1;
        }
        proof {
            assert(mem@ =~= shifted(m0, sp * p, (h - sp) * p));
        }
        let ghost mid = mem@;
        let clear_start = self.height - scroll_pixels;
        self.fill_rect(mem, 0, clear_start, self.width, scroll_pixels, Color::black());
        proof {
            assert(span_end(0, self.width as int, self.width as int) == self.width);
            assert(span_end(clear_start as int, sp, h) == h);
        }
    }
}

/// Pixel (`qx`, `qy`) lies in one of the first `c` text cells from
/// (`x`, `y`): cell `k` spans columns `[x + 8k, x + 8k + 7)` and rows
/// `[y, ye)`, cut at the screen's right edge `w`.
pub open spec fn text_cell(qx: int, qy: int, x: int, y: int, ye: int, c: int, w: int) -> bool {
    &&& y <= qy < ye
    &&& x <= qx < w
    &&& (qx - x) / 8 < c
    &&& (qx - x) % 8 < 7
}

/// Byte `i` belongs to a pixel of one of the first `c` text cells.
pub open spec fn text_byte(fb: Framebuffer, x: int, y: int, ye: int, c: int, n: int, i: int) -> bool {
    exists|qx: int, qy: int| text_cell(qx, qy, x, y, ye, c, fb.width as int) && #[trigger] in_pixel(fb, qx, qy, n, i)
}

/// `after` is `before` with the pixels of the first `c` text cells encoding
/// `pb` and every other byte unchanged.
pub open spec fn text_filled(
    fb: Framebuffer,
    before: Seq<u8>,
    after: Seq<u8>,
    x: int,
    y: int,
    ye: int,
    c: int,
    pb: Seq<u8>,
) -> bool {
    &&& after.len() == before.len()
    &&& forall|qx: int, qy: int, k: int|
        text_cell(qx, qy, x, y, ye, c, fb.width as int) && 0 <= k < pb.len() ==> #[trigger] byte_at(
            after,
            fb.offset_of(qx, qy),
            k,
        ) == pb[k]
    &&& forall|i: int|
        0 <= i < before.len() && !text_byte(fb, x, y, ye, c, pb.len() as int, i) ==> #[trigger] after[i]
            == before[i]
}

impl Framebuffer {
    /// Draw `text` from (`x`, `y`) as blocks: each character is a 7 x 16
    /// rectangle in `fg_color`, characters 8 pixels apart, cut at the screen
    /// edges; `bg_color` is not used.
    pub fn write_text(&self, mem: &mut [u8], text: &str, x: usize, y: usize, fg_color: Color, bg_color: Color)
        requires
            self.wf(),
            old(mem)@.len() >= self.height * self.pitch,
            x + 8 * text@.len() + 8 <= usize::MAX,
            y + 16 <= usize::MAX,
        ensures
            text_filled(*self, old(mem)@, final(mem)@, x as int, y as int, span_end(y as int, 16, self.height as int),
                text@.len() as int, pixel_bytes(self.bpp, self.format, fg_color)),
    {
        let ghost pb = pixel_bytes(self.bpp, self.format, fg_color);
        let ghost n = pb.len() as int;
        let ghost m0 = mem@;
        let ghost ye = span_end(y as int, 16, self.height as int);
        let ghost w = self.width as int;
        proof {
            lemma_pixel_bytes_len(self.bpp, self.format, fg_color);
        }
        let count = text.unicode_len();
        let char_width: usize = 8;
        let mut current_x = x;
        let mut c: usize = 0;
        while c < count
            invariant
                self.wf(),
                m0.len() >= self.height * self.pitch,
                pb == pixel_bytes(self.bpp, self.format, fg_color),
                n == pb.len(),
                n <= self.bpp / 8,
                ye == span_end(y as int, 16, self.height as int),
                w == self.width,
                count == text@.len(),
                x + 8 * count + 8 <= usize::MAX,
                y + 16 <= usize::MAX,
                c <= count,
                char_width == 8,
                current_x == x + 8 * c,
                text_filled(*self, m0, mem@, x as int, y as int, ye, c as int, pb),
            decreases count - c,
        {
            let ghost before = mem@;
            let ghost cx = current_x as int;
            let ghost cxe = span_end(cx, 7, w);
            self.fill_rect(mem, current_x, y, char_width - 1, 16, fg_color);
            proof {
                assert forall|qx: int, qy: int, k: int|
                    text_cell(qx, qy, x as int, y as int, ye, c + 1, w) && 0 <= k < pb.len() implies #[trigger] byte_at(
                    mem@,
                    self.offset_of(qx, qy),
                    k,
                ) == pb[k] by {
                    if cx <= qx {
                        assert((qx - x) / 8 == c) by (nonlinear_arith)
                            requires
                                (qx - x) / 8 < c + 1,
                                cx <= qx,
                                cx == x + 8 * c,
                        ;
                        assert(qx < cxe) by (nonlinear_arith)
                            requires
                                (qx - x) / 8 == c,
                                (qx - x) % 8 < 7,
                                cx == x + 8 * c,
                                qx < w,
                                cxe == span_end(cx, 7, w),
                        ;
                        assert(painted(qx, qy, cx, cxe, y as int, ye, cx));
                    } else {
                        assert((qx - x) / 8 < c) by (nonlinear_arith)
                            requires
                                qx < cx,
                                cx == x + 8 * c,
                                x <= qx,
                        ;
                        assert(text_cell(qx, qy, x as int, y as int, ye, c as int, w));
                        assert(byte_at(before, self.offset_of(qx, qy), k) == pb[k]);
                        lemma_offset_in_bounds(self, qx, qy);
                        let j = self.offset_of(qx, qy) + k;
                        if painted_byte(*self, cx, cxe, y as int, ye, cx, n, j) {
                            let (rx, ry) = choose|rx: int, ry: int|
                                painted(rx, ry, cx, cxe, y as int, ye, cx) && #[trigger] in_pixel(*self, rx, ry, n, j);
                            lemma_pixels_disjoint(*self, rx, ry, qx, qy, j - self.offset_of(rx, ry), k);
                        }
                        assert(mem@[j] == before[j]);
                    }
                }
                assert forall|i: int|
                    0 <= i < m0.len() && !text_byte(*self, x as int, y as int, ye, c + 1, n, i) implies #[trigger] mem@[i]
                        == m0[i] by {
                    if text_byte(*self, x as int, y as int, ye, c as int, n, i) {
                        let (qx, qy) = choose|qx: int, qy: int|
                            text_cell(qx, qy, x as int, y as int, ye, c as int, w) && #[trigger] in_pixel(*self, qx, qy, n, i);
                        assert((qx - x) / 8 < c + 1);
                        assert(text_cell(qx, qy, x as int, y as int, ye, c + 1, w));
                        assert(false);
                    }
                    if painted_byte(*self, cx, cxe, y as int, ye, cx, n, i) {
                        let (rx, ry) = choose|rx: int, ry: int|
                            painted(rx, ry, cx, cxe, y as int, ye, cx) && #[trigger] in_pixel(*self, rx, ry, n, i);
                        assert((rx - x) / 8 == c && (rx - x) % 8 < 7) by (nonlinear_arith)
                            requires
                                cx <= rx < cxe,
                                cx == x + 8 * c,
                                cxe <= cx + 7,
                        ;
                        assert(text_cell(rx, ry, x as int, y as int, ye, c + 1, w));
                        assert(false);
                    }
                }
            }
            current_x = current_x + char_width;
            c = c + 1;
        }
    }
}

} // verus!
