//! Colors, color quantization, and the screen buffer.
//!
//! A `PackedColor` is an RGB color quantized to a small number of steps
//! per channel (7 x 9 x 4) and mixed into a single non-zero byte, so that
//! zero stays free to mean "no color" at the block level. Quantization
//! rounds to the nearest step; unpacking scales back up with truncation.
//! The round trip RGB -> packed -> RGB is lossy but stable: packing what
//! unpacking produced returns the same packed byte.

use crate::fixed::{Fix64, FRAC_ONE};
use crate::vec3d::Vec3D;
use vstd::arithmetic::div_mod::{lemma_div_is_ordered, lemma_div_pos_is_pos,
    lemma_fundamental_div_mod, lemma_fundamental_div_mod_converse, lemma_mod_bound,
    lemma_small_mod};
use vstd::prelude::*;

verus! {

/// Number of representable red steps.
pub const R_STEPS: u32 = 7;

/// Number of representable green steps.
pub const G_STEPS: u32 = 9;

/// Number of representable blue steps.
pub const B_STEPS: u32 = 4;

/// Largest red step index.
pub const R_MAX: u32 = 6;

/// Largest green step index.
pub const G_MAX: u32 = 8;

/// Largest blue step index.
pub const B_MAX: u32 = 3;

/// Quantize a `0..=255` channel to `0..=m`: round `c * m / 255` to the
/// nearest step (half rounds up).
pub open spec fn quant(c: int, m: int) -> int {
    (2 * c * m + 255) / 510
}

/// Scale a step `0..=m` back to `0..=255`, truncating.
pub open spec fn unquant(q: int, m: int) -> int {
    q * 255 / m
}

/// The packed byte for channel values `r`, `g`, `b`: the three quantized
/// steps mixed in base 9 then 4, plus one so the result is never zero.
pub open spec fn pack_bits(r: int, g: int, b: int) -> int {
    (quant(r, R_MAX as int) * (G_STEPS as int) + quant(g, G_MAX as int)) * (B_STEPS as int)
        + quant(b, B_MAX as int) + 1
}

/// The channel values a packed byte unpacks to: invert the mixed-radix
/// mix, then scale each step back up.
pub open spec fn unpack_bits(p: int) -> (int, int, int) {
    let v = p - 1;
    (
        unquant(v / (B_STEPS as int) / (G_STEPS as int) % (R_STEPS as int), R_MAX as int),
        unquant(v / (B_STEPS as int) % (G_STEPS as int), G_MAX as int),
        unquant(v % (B_STEPS as int), B_MAX as int),
    )
}

/// Quantization never exceeds the step bound.
proof fn lemma_quant_le(c: int, m: int)
    requires
        0 <= c <= 255,
        1 <= m,
    ensures
        0 <= quant(c, m) <= m,
{
    assert(2 * c * m <= 510 * m) by (nonlinear_arith)
        requires
            0 <= c <= 255 && 0 <= m;
    assert(0 <= 2 * c * m) by (nonlinear_arith)
        requires
            0 <= c && 0 <= m;
    lemma_div_is_ordered(2 * c * m + 255, 510 * m + 255, 510);
    lemma_fundamental_div_mod_converse(510 * m + 255, 510, m, 255);
    lemma_div_pos_is_pos(2 * c * m + 255, 510);
}

/// Unquantization never exceeds the channel range.
proof fn lemma_unquant_le(q: int, m: int)
    requires
        0 <= q <= m,
        1 <= m,
    ensures
        0 <= unquant(q, m) <= 255,
{
    assert(q * 255 <= m * 255) by (nonlinear_arith)
        requires
            q <= m;
    assert(0 <= q * 255) by (nonlinear_arith)
        requires
            0 <= q;
    lemma_div_is_ordered(q * 255, m * 255, m);
    lemma_fundamental_div_mod_converse(m * 255, m, 255, 0);
    lemma_div_pos_is_pos(q * 255, m);
}

/// Law: quantizing the color a step unpacks to returns the same step.
/// Rounding to the nearest step absorbs the truncation of `unquant`.
pub proof fn lemma_quant_unquant(q: int, m: int)
    requires
        0 <= q <= m,
        1 <= m <= 8,
    ensures
        quant(unquant(q, m), m) == q,
{
    let u = unquant(q, m);
    lemma_fundamental_div_mod(q * 255, m);
    lemma_mod_bound(q * 255, m);
    let t = (q * 255) % m;
    assert(q * 255 == m * u + t);
    assert(2 * u * m == 510 * q - 2 * t) by (nonlinear_arith)
        requires
            q * 255 == m * u + t;
    assert(2 * u * m + 255 == 510 * q + (255 - 2 * t));
    lemma_fundamental_div_mod_converse(510 * q + (255 - 2 * t), 510, q, 255 - 2 * t);
}

/// A color quantized and mixed into one byte; never zero, so that zero can
/// mean "no color" wherever a packed color is optional.
#[derive(Clone, Copy, PartialEq, Eq, Debug, Hash)]
pub struct PackedColor {
    bits: u8,
}

impl View for PackedColor {
    type V = u8;

    closed spec fn view(&self) -> u8 {
        self.bits
    }
}

#[verifier::type_invariant]
pub(crate) open spec fn packed_color_inv(p: PackedColor) -> bool {
    1 <= p@ <= 252
}

/// The packed color with the given byte, at the specification level.
pub closed spec fn packed_of_byte(bits: u8) -> PackedColor {
    PackedColor { bits }
}

/// What `packed_of_byte` denotes, stated over the view.
pub broadcast proof fn lemma_packed_of_byte(bits: u8)
    ensures
        #[trigger] packed_of_byte(bits)@ == bits,
{
}

impl PackedColor {
    /// The packed byte itself.
    pub fn as_byte(self) -> (b: u8)
        ensures
            b == self@,
            1 <= b <= 252,
    {
        proof {
            use_type_invariant(self);
        }
        self.bits
    }
}

/// Law: no channel values pack to the zero byte; zero always means
/// "no color".
pub proof fn lemma_packed_nonzero(r: int, g: int, b: int)
    requires
        0 <= r <= 255,
        0 <= g <= 255,
        0 <= b <= 255,
    ensures
        1 <= pack_bits(r, g, b) <= 252,
{
    lemma_quant_le(r, 6);
    lemma_quant_le(g, 8);
    lemma_quant_le(b, 3);
}

/// An 8-bit-per-channel RGB color.
#[derive(Clone, Copy, PartialEq, Eq, Structural, Debug, Hash)]
pub struct RgbColor {
    pub r: u8,
    pub g: u8,
    pub b: u8,
}

impl RgbColor {
    /// The channels as a vector, in `r`, `g`, `b` order.
    pub fn as_vec3d(self) -> (v: Vec3D<u8>)
        ensures
            v.x == self.r,
            v.y == self.g,
            v.z == self.b,
    {
        Vec3D { x: self.r, y: self.g, z: self.b }
    }

    /// Rebuild a color from a channel vector.
    pub fn from_vec3d(v: Vec3D<u8>) -> (c: Self)
        ensures
            c.r == v.x,
            c.g == v.y,
            c.b == v.z,
    {
        RgbColor { r: v.x, g: v.y, b: v.z }
    }

    /// Black: all channels zero.
    pub fn black() -> (c: Self)
        ensures
            c == (RgbColor { r: 0, g: 0, b: 0 }),
    {
        RgbColor { r: 0, g: 0, b: 0 }
    }

    /// White: all channels full.
    pub fn white() -> (c: Self)
        ensures
            c == (RgbColor { r: 0xFF, g: 0xFF, b: 0xFF }),
    {
        RgbColor { r: 0xFF, g: 0xFF, b: 0xFF }
    }

    /// Quantize into a single non-zero byte.
    pub fn to_packed(self) -> (p: PackedColor)
        ensures
            p@ == pack_bits(self.r as int, self.g as int, self.b as int),
            p == packed_of_byte(pack_bits(self.r as int, self.g as int, self.b as int) as u8),
            p@ != 0,
    {
        proof {
            lemma_quant_le(self.r as int, 6);
            lemma_quant_le(self.g as int, 8);
            lemma_quant_le(self.b as int, 3);
        }
        let rq = (2 * self.r as u32 * 6 + 255) / 510;
        let gq = (2 * self.g as u32 * 8 + 255) / 510;
        let bq = (2 * self.b as u32 * 3 + 255) / 510;
        let v = (rq * 9 + gq) * 4 + bq + 1;
        PackedColor { bits: v as u8 }
    }

    /// Invert the mixed-radix mix and scale each channel back up.
    pub fn from_packed(p: PackedColor) -> (c: Self)
        ensures
            (c.r as int, c.g as int, c.b as int) == unpack_bits(p@ as int),
    {
        proof {
            use_type_invariant(p);
            lemma_mod_bound((p@ - 1) as int, 4);
            lemma_mod_bound((p@ - 1) / 4, 9);
            lemma_mod_bound((p@ - 1) / 4 / 9, 7);
            lemma_div_pos_is_pos((p@ - 1) as int, 4);
            lemma_div_pos_is_pos((p@ - 1) / 4, 9);
            lemma_unquant_le((p@ - 1) / 4 / 9 % 7, 6);
            lemma_unquant_le((p@ - 1) / 4 % 9, 8);
            lemma_unquant_le((p@ - 1) % 4, 3);
        }
        let v = p.as_byte() - 1;
        let bq = v % 4;
        let v4 = v / 4;
        let gq = v4 % 9;
        let v9 = v4 / 9;
        let rq = v9 % 7;
        RgbColor {
            r: (rq as u32 * 255 / 6) as u8,
            g: (gq as u32 * 255 / 8) as u8,
            b: (bq as u32 * 255 / 3) as u8,
        }
    }
}

/// Unpacking a byte packed from in-range steps recovers those steps.
proof fn lemma_unpack_of_pack(qr: int, qg: int, qb: int)
    requires
        0 <= qr <= 6,
        0 <= qg <= 8,
        0 <= qb <= 3,
    ensures
        ({
            let v = (qr * 9 + qg) * 4 + qb;
            v / 4 / 9 % 7 == qr && v / 4 % 9 == qg && v % 4 == qb
        }),
{
    let v = (qr * 9 + qg) * 4 + qb;
    lemma_fundamental_div_mod_converse(v, 4, qr * 9 + qg, qb);
    lemma_fundamental_div_mod_converse(qr * 9 + qg, 9, qr, qg);
    lemma_small_mod(qr as nat, 7);
}

/// Law: packing then unpacking is idempotent after the first application.
/// The very first pass quantizes each channel; after that, every further
/// pack/unpack round trip reproduces the same channel values exactly.
pub proof fn lemma_pack_round_trip_stable(r: int, g: int, b: int)
    requires
        0 <= r <= 255,
        0 <= g <= 255,
        0 <= b <= 255,
    ensures
        ({
            let (r1, g1, b1) = unpack_bits(pack_bits(r, g, b));
            unpack_bits(pack_bits(r1, g1, b1)) == (r1, g1, b1)
        }),
{
    let qr = quant(r, 6);
    let qg = quant(g, 8);
    let qb = quant(b, 3);
    lemma_quant_le(r, 6);
    lemma_quant_le(g, 8);
    lemma_quant_le(b, 3);
    lemma_unpack_of_pack(qr, qg, qb);
    let (r1, g1, b1) = unpack_bits(pack_bits(r, g, b));
    assert(r1 == unquant(qr, 6) && g1 == unquant(qg, 8) && b1 == unquant(qb, 3));
    lemma_quant_unquant(qr, 6);
    lemma_quant_unquant(qg, 8);
    lemma_quant_unquant(qb, 3);
    lemma_unpack_of_pack(quant(r1, 6), quant(g1, 8), quant(b1, 3));
}

/// Screen width in pixels.
pub const X_SIZE: usize = 100;

/// Screen height in pixels (two pixel rows share one character row).
pub const Y_SIZE: usize = 75;

/// Decimal digits of a channel value, as ASCII bytes, minimal width.
pub open spec fn dec_seq(n: int) -> Seq<u8>
    recommends
        0 <= n <= 255,
{
    if n < 10 {
        seq![(48 + n) as u8]
    } else if n < 100 {
        seq![(48 + n / 10) as u8, (48 + n % 10) as u8]
    } else {
        seq![(48 + n / 100) as u8, (48 + n / 10 % 10) as u8, (48 + n % 10) as u8]
    }
}

/// The escape sequence that sets the foreground color: `ESC[38;2;r;g;bm`.
pub open spec fn fg_seq(c: RgbColor) -> Seq<u8> {
    seq![27u8, 91u8, 51u8, 56u8, 59u8, 50u8, 59u8] + dec_seq(c.r as int) + seq![59u8] + dec_seq(
        c.g as int,
    ) + seq![59u8] + dec_seq(c.b as int) + seq![109u8]
}

/// The escape sequence that sets the background color: `ESC[48;2;r;g;bm`.
pub open spec fn bg_seq(c: RgbColor) -> Seq<u8> {
    seq![27u8, 91u8, 52u8, 56u8, 59u8, 50u8, 59u8] + dec_seq(c.r as int) + seq![59u8] + dec_seq(
        c.g as int,
    ) + seq![59u8] + dec_seq(c.b as int) + seq![109u8]
}

/// The UTF-8 bytes of the upper-half-block glyph.
pub open spec fn glyph_seq() -> Seq<u8> {
    seq![226u8, 150u8, 128u8]
}

/// The color of the cell above (foreground) and below (background) for
/// column `x` of the character row starting at pixel row `y`.
pub open spec fn cell_colors(pix: Seq<RgbColor>, y: int, x: int) -> (RgbColor, RgbColor) {
    let up = pix[y * 100 + x];
    let down = if y + 1 < 75 {
        pix[(y + 1) * 100 + x]
    } else {
        RgbColor { r: 0, g: 0, b: 0 }
    };
    (up, down)
}

/// Walk `n` cells of the character row starting at pixel row `y`, column
/// `x`, emitting a color sequence only where the color differs from the
/// last one emitted; returns the bytes and the final two tracked colors.
pub open spec fn walk_row(pix: Seq<RgbColor>, y: int, x: int, n: nat, fg: RgbColor, bg: RgbColor)
    -> (Seq<u8>, RgbColor, RgbColor)
    decreases n,
{
    if n == 0 {
        (Seq::empty(), fg, bg)
    } else {
        let (up, down) = cell_colors(pix, y, x);
        let here = (if up != fg {
            fg_seq(up)
        } else {
            Seq::empty()
        }) + (if down != bg {
            bg_seq(down)
        } else {
            Seq::empty()
        }) + glyph_seq();
        let (rest, rfg, rbg) = walk_row(pix, y, x + 1, (n - 1) as nat, up, down);
        (here + rest, rfg, rbg)
    }
}

/// Walk `n` character rows starting at pixel row `y`. Each row re-emits
/// the tracked colors once, walks its cells, and ends with a reset and a
/// newline; the tracked colors carry over from row to row.
pub open spec fn walk_rows(pix: Seq<RgbColor>, y: int, n: nat, fg: RgbColor, bg: RgbColor) -> Seq<
    u8,
>
    decreases n,
{
    if n == 0 {
        Seq::empty()
    } else {
        let (row, rfg, rbg) = walk_row(pix, y, 0, 100, fg, bg);
        bg_seq(bg) + fg_seq(fg) + row + seq![27u8, 91u8, 109u8, 10u8] + walk_rows(
            pix,
            y + 2,
            (n - 1) as nat,
            rfg,
            rbg,
        )
    }
}

/// The whole frame: cursor home, then every character row, starting with
/// white foreground and black background tracked.
pub open spec fn display_seq(pix: Seq<RgbColor>) -> Seq<u8> {
    seq![27u8, 91u8, 72u8] + walk_rows(
        pix,
        0,
        38,
        RgbColor { r: 0xFF, g: 0xFF, b: 0xFF },
        RgbColor { r: 0, g: 0, b: 0 },
    )
}

/// Append the decimal digits of `n`.
fn push_dec(out: &mut Vec<u8>, n: u8)
    ensures
        final(out)@ == old(out)@ + dec_seq(n as int),
{
    if n >= 100 {
        out.push(48 + n / 100);
        out.push(48 + n / 10 % 10);
        out.push(48 + n % 10);
        proof {
            assert(final(out)@ =~= old(out)@ + dec_seq(n as int));
        }
    } else if n >= 10 {
        out.push(48 + n / 10);
        out.push(48 + n % 10);
        proof {
            assert(final(out)@ =~= old(out)@ + dec_seq(n as int));
        }
    } else {
        out.push(48 + n);
        proof {
            assert(final(out)@ =~= old(out)@ + dec_seq(n as int));
        }
    }
}

/// Append a color escape sequence; `51` selects foreground, `52` background.
fn push_color(out: &mut Vec<u8>, marker: u8, color: RgbColor)
    requires
        marker == 51 || marker == 52,
    ensures
        marker == 51 ==> final(out)@ == old(out)@ + fg_seq(color),
        marker == 52 ==> final(out)@ == old(out)@ + bg_seq(color),
{
    out.push(27);
    out.push(91);
    out.push(marker);
    out.push(56);
    out.push(59);
    out.push(50);
    out.push(59);
    push_dec(out, color.r);
    out.push(59);
    push_dec(out, color.g);
    out.push(59);
    push_dec(out, color.b);
    out.push(109);
    proof {
        if marker == 51 {
            assert(final(out)@ =~= old(out)@ + fg_seq(color));
        } else {
            assert(final(out)@ =~= old(out)@ + bg_seq(color));
        }
    }
}

/// Append the escape sequence that sets the foreground color.
pub fn set_foreground_color(out: &mut Vec<u8>, color: RgbColor)
    ensures
        final(out)@ == old(out)@ + fg_seq(color),
{
    push_color(out, 51, color);
}

/// Append the escape sequence that sets the background color.
pub fn set_background_color(out: &mut Vec<u8>, color: RgbColor)
    ensures
        final(out)@ == old(out)@ + bg_seq(color),
{
    push_color(out, 52, color);
}

/// A fixed-size pixel buffer, rebuilt every frame from ray-cast results
/// and flushed to the terminal as a byte stream.
pub struct Screen {
    /// Pixels in row-major order: index `y * X_SIZE + x`.
    pub pixels: Vec<RgbColor>,
}

impl Screen {
    /// A screen holds exactly one color per pixel.
    pub open spec fn wf(&self) -> bool {
        self.pixels@.len() == X_SIZE * Y_SIZE
    }

    /// The pixel at column `x`, row `y`.
    pub open spec fn pixel_spec(&self, x: int, y: int) -> RgbColor {
        self.pixels@[y * 100 + x]
    }

    /// A fresh all-black screen.
    pub fn new() -> (s: Screen)
        ensures
            s.wf(),
            forall|i: int| 0 <= i < 7500 ==> s.pixels@[i] == (RgbColor { r: 0, g: 0, b: 0 }),
    {
        let mut pixels: Vec<RgbColor> = Vec::new();
        let mut i: usize = 0;
        while i < 7500
            invariant
                pixels@.len() == i,
                i <= 7500,
                forall|j: int| 0 <= j < i ==> pixels@[j] == (RgbColor { r: 0, g: 0, b: 0 }),
            decreases 7500 - i,
        {
            pixels.push(RgbColor { r: 0, g: 0, b: 0 });
            i = i + 1;
        }
        Screen { pixels }
    }

    /// The physical extent of one pixel, horizontally and vertically.
    pub fn pixel_dimensions(&self) -> (r: (Fix64, Fix64))
        ensures
            r.0@ == FRAC_ONE,
            r.1@ == FRAC_ONE,
    {
        (Fix64::from_bits(FRAC_ONE), Fix64::from_bits(FRAC_ONE))
    }

    /// Overwrite one pixel.
    pub fn set_pixel(&mut self, x: usize, y: usize, c: RgbColor)
        requires
            old(self).wf(),
            x < 100,
            y < 75,
        ensures
            final(self).wf(),
            final(self).pixels@ == old(self).pixels@.update(y * 100 + x, c),
    {
        let idx = y * 100 + x;
        self.pixels[idx] = c;
    }

    /// Render the frame as a terminal byte stream: home the cursor, then
    /// walk the screen two pixel rows at a time (each character cell shows
    /// two pixels through a half-block glyph), emitting a foreground or
    /// background escape sequence only when the color differs from the
    /// last one emitted on that channel.
    #[verifier::rlimit(100)]
    pub fn display(&self) -> (out: Vec<u8>)
        requires
            self.wf(),
        ensures
            out@ == display_seq(self.pixels@),
    {
        let pix = &self.pixels;
        let mut out: Vec<u8> = Vec::new();
        out.push(27);
        out.push(91);
        out.push(72);
        let mut last_fg = RgbColor { r: 0xFF, g: 0xFF, b: 0xFF };
        let mut last_bg = RgbColor { r: 0, g: 0, b: 0 };
        let mut y: usize = 0;
        while y < 75
            invariant
                self.wf(),
                pix == &self.pixels,
                y % 2 == 0,
                y <= 76,
                display_seq(pix@) == out@ + walk_rows(
                    pix@,
                    y as int,
                    ((76 - y) / 2) as nat,
                    last_fg,
                    last_bg,
                ),
            decreases 76 - y,
        {
            let ghost y0 = y as int;
            let ghost n0 = ((76 - y) / 2) as nat;
            let ghost row_fg = last_fg;
            let ghost row_bg = last_bg;
            let ghost out0 = out@;
            set_background_color(&mut out, last_bg);
            set_foreground_color(&mut out, last_fg);
            let ghost row_start = out@;
            let ghost mut row_bytes: Seq<u8> = Seq::empty();
            proof {
                assert(out@ =~= row_start + row_bytes);
            }
            let mut x: usize = 0;
            while x < 100
                invariant
                    self.wf(),
                    pix == &self.pixels,
                    y < 75,
                    y0 == y as int,
                    x <= 100,
                    out@ == row_start + row_bytes,
                    walk_row(pix@, y0, 0, 100, row_fg, row_bg).0 == row_bytes + walk_row(
                        pix@,
                        y0,
                        x as int,
                        (100 - x) as nat,
                        last_fg,
                        last_bg,
                    ).0,
                    walk_row(pix@, y0, 0, 100, row_fg, row_bg).1 == walk_row(
                        pix@,
                        y0,
                        x as int,
                        (100 - x) as nat,
                        last_fg,
                        last_bg,
                    ).1,
                    walk_row(pix@, y0, 0, 100, row_fg, row_bg).2 == walk_row(
                        pix@,
                        y0,
                        x as int,
                        (100 - x) as nat,
                        last_fg,
                        last_bg,
                    ).2,
                decreases 100 - x,
            {
                let ghost x0 = x as int;
                let ghost prev_fg = last_fg;
                let ghost prev_bg = last_bg;
                let fg = pix[y * 100 + x];
                let bg = if y + 1 < 75 {
                    pix[(y + 1) * 100 + x]
                } else {
                    RgbColor { r: 0, g: 0, b: 0 }
                };
                if fg != last_fg {
                    set_foreground_color(&mut out, fg);
                    last_fg = fg;
                }
                if bg != last_bg {
                    set_background_color(&mut out, bg);
                    last_bg = bg;
                }
                out.push(226);
                out.push(150);
                out.push(128);
                x = x + 1;
                proof {
                    let here = (if fg != prev_fg {
                        fg_seq(fg)
                    } else {
                        Seq::<u8>::empty()
                    }) + (if bg != prev_bg {
                        bg_seq(bg)
                    } else {
                        Seq::<u8>::empty()
                    }) + glyph_seq();
                    assert(cell_colors(pix@, y0, x0) == (fg, bg));
                    assert(walk_row(pix@, y0, x0, (100 - x0) as nat, prev_fg, prev_bg).0 == here
                        + walk_row(pix@, y0, x0 + 1, (100 - x0 - 1) as nat, fg, bg).0);
                    assert(walk_row(pix@, y0, x0, (100 - x0) as nat, prev_fg, prev_bg).1
                        == walk_row(pix@, y0, x0 + 1, (100 - x0 - 1) as nat, fg, bg).1);
                    assert(walk_row(pix@, y0, x0, (100 - x0) as nat, prev_fg, prev_bg).2
                        == walk_row(pix@, y0, x0 + 1, (100 - x0 - 1) as nat, fg, bg).2);
                    assert(out@ =~= row_start + (row_bytes + here));
                    assert(row_bytes + walk_row(pix@, y0, x0, (100 - x0) as nat, prev_fg, prev_bg).0
                        =~= (row_bytes + here) + walk_row(
                        pix@,
                        y0,
                        x0 + 1,
                        (100 - x0 - 1) as nat,
                        fg,
                        bg,
                    ).0);
                    row_bytes = row_bytes + here;
                }
            }
            out.push(27);
            out.push(91);
            out.push(109);
            out.push(10);
            y = y + 2;
            proof {
                let row = walk_row(pix@, y0, 0, 100, row_fg, row_bg);
                assert(row.0 =~= row_bytes + Seq::<u8>::empty());
                assert(row.0 == row_bytes);
                assert(walk_rows(pix@, y0, n0, row_fg, row_bg) == bg_seq(row_bg) + fg_seq(row_fg)
                    + row.0 + seq![27u8, 91u8, 109u8, 10u8] + walk_rows(
                    pix@,
                    y0 + 2,
                    (n0 - 1) as nat,
                    row.1,
                    row.2,
                ));
                assert(out@ =~= out0 + (bg_seq(row_bg) + fg_seq(row_fg) + row_bytes + seq![
                    27u8,
                    91u8,
                    109u8,
                    10u8,
                ]));
                assert(display_seq(pix@) =~= out@ + walk_rows(
                    pix@,
                    y as int,
                    ((76 - y) / 2) as nat,
                    last_fg,
                    last_bg,
                ));
            }
        }
        proof {
            assert(out@ =~= display_seq(pix@));
        }
        out
    }
}

} // verus!
