//! Rendering of screen images as terminal text: each of 80 by 24 cells
//! takes the average colour of its pixels, drawn as a character of a
//! brightness ramp or as a coloured block.
use vstd::prelude::*;
use crate::protocol::{AsciiEncoder, EncodedFrame, RawFrame, RenderProfile};
use crate::text::{decimal_digits, push_decimal, string_from};

verus! {

/// Cells across a rendered frame.
pub open spec fn width_cells() -> int {
    80
}

/// Cells down a rendered frame.
pub open spec fn height_cells() -> int {
    24
}

// ---------------------------------------------------------------------------
// Averaging
// ---------------------------------------------------------------------------
/// The pixel lies within the image data (all four of its bytes).
pub open spec fn pixel_counted(len: int, w: int, x: int, y: int) -> bool {
    (y * w + x) * 4 + 3 < len
}

/// The number of counted pixels of row `y` from `x0` up to `x1`.
pub open spec fn row_count(len: int, w: int, y: int, x0: int, x1: int) -> int
    decreases x1 - x0,
{
    if x1 <= x0 {
        0
    } else {
        row_count(len, w, y, x0, x1 - 1) + if pixel_counted(len, w, x1 - 1, y) {
            1int
        } else {
            0int
        }
    }
}

/// The sum of one channel over the counted pixels of row `y` from `x0` up
/// to `x1`.
pub open spec fn row_sum(data: Seq<u8>, w: int, y: int, x0: int, x1: int, ch: int) -> int
    decreases x1 - x0,
{
    if x1 <= x0 {
        0
    } else {
        row_sum(data, w, y, x0, x1 - 1, ch) + if pixel_counted(data.len() as int, w, x1 - 1, y) {
            data[(y * w + x1 - 1) * 4 + ch] as int
        } else {
            0int
        }
    }
}

/// The number of counted pixels of rows `y0` up to `y1`, columns `x0` up
/// to `x1`.
pub open spec fn block_count(len: int, w: int, y0: int, y1: int, x0: int, x1: int) -> int
    decreases y1 - y0,
{
    if y1 <= y0 {
        0
    } else {
        block_count(len, w, y0, y1 - 1, x0, x1) + row_count(len, w, y1 - 1, x0, x1)
    }
}

/// The sum of one channel over the counted pixels of a block.
pub open spec fn block_sum(
    data: Seq<u8>,
    w: int,
    y0: int,
    y1: int,
    x0: int,
    x1: int,
    ch: int,
) -> int
    decreases y1 - y0,
{
    if y1 <= y0 {
        0
    } else {
        block_sum(data, w, y0, y1 - 1, x0, x1, ch) + row_sum(data, w, y1 - 1, x0, x1, ch)
    }
}

/// The first pixel column (or row) of cell `c` of `cells`, for an image
/// `size` pixels wide (or high).
pub open spec fn cell_start(c: int, size: int, cells: int) -> int {
    c * size / cells
}

/// One past the last pixel column (or row) of cell `c`.
pub open spec fn cell_end(c: int, size: int, cells: int) -> int {
    let e = (c + 1) * size / cells;
    if e < size {
        e
    } else {
        size
    }
}

/// The average of one channel over the pixels of a cell; black where the
/// cell has no pixel.
pub open spec fn cell_channel(frame: RawFrame, cx: int, cy: int, ch: int) -> u8 {
    let w = frame.width as int;
    let h = frame.height as int;
    let x0 = cell_start(cx, w, width_cells());
    let x1 = cell_end(cx, w, width_cells());
    let y0 = cell_start(cy, h, height_cells());
    let y1 = cell_end(cy, h, height_cells());
    let n = block_count(frame.data@.len() as int, w, y0, y1, x0, x1);
    if n > 0 {
        (block_sum(frame.data@, w, y0, y1, x0, x1, ch) / n) as u8
    } else {
        0
    }
}

// ---------------------------------------------------------------------------
// Luminance
// ---------------------------------------------------------------------------
/// The power of two by which `n` is divided to leave 24 significant bits
/// (1 where it has no more).
pub open spec fn scale_of(n: nat, p: nat) -> nat
    decreases n - p,
{
    if p == 0 || p > n || n / p < 0x100_0000 {
        p
    } else {
        proof {
            lemma_scale_step(n, p);
        }
        scale_of(n, 2 * p)
    }
}

/// A scale that still leaves more than 24 bits can be doubled within `n`.
pub proof fn lemma_scale_step(n: nat, p: nat)
    requires
        p > 0,
        n / p >= 0x100_0000,
    ensures
        2 * p <= n,
{
    vstd::arithmetic::div_mod::lemma_fundamental_div_mod(n as int, p as int);
    assert(p * (n / p) >= p * 0x100_0000) by (nonlinear_arith)
        requires
            p > 0,
            n / p >= 0x100_0000,
    ;
    vstd::arithmetic::div_mod::lemma_mod_pos_bound(n as int, p as int);
}

/// `n` rounded to 24 significant bits, ties to even: the rounding of a
/// single-precision floating-point operation on these magnitudes.
pub open spec fn round24(n: nat) -> nat {
    let p = scale_of(n, 1);
    let q = n / p;
    let rem = n % p;
    let half = p / 2;
    if p == 1 {
        n
    } else if rem > half || (rem == half && q % 2 == 1) {
        (q + 1) * p
    } else {
        q * p
    }
}

/// The luminance of a colour with the Rec. 709 weights 0.2126, 0.7152 and
/// 0.0722, in the arithmetic of single precision: the weights as the
/// nearest single-precision values, in units of 2^-24, each product and
/// each sum rounded to 24 significant bits, and the result truncated
/// (and held to 255, as a conversion to a byte saturates).
pub open spec fn luma(r: u8, g: u8, b: u8) -> nat {
    let t = round24(
        round24(round24(3566836 * r as nat) + round24(11999065 * g as nat)) + round24(
            1211315 * b as nat,
        ),
    ) / 0x100_0000;
    if t > 255 {
        255
    } else {
        t
    }
}

fn round24_exec(n: u64) -> (r: u64)
    requires
        n < 0x1_0000_0000_0000,
    ensures
        r == round24(n as nat),
        r <= 2 * n,
{
    let mut p: u64 = 1;
    while !(p > n || n / p < 0x100_0000)
        invariant
            p >= 1,
            p <= n || p == 1,
            n < 0x1_0000_0000_0000,
            scale_of(n as nat, p as nat) == scale_of(n as nat, 1),
        decreases n - p,
    {
        proof {
            lemma_scale_step(n as nat, p as nat);
        }
        p = 2 * p;
    }
    let q = n / p;
    let rem = n % p;
    let half = p / 2;
    if p == 1 {
        n
    } else if rem > half || (rem == half && q % 2 == 1) {
        proof {
            assert(q * p <= n) by (nonlinear_arith)
                requires
                    q == n / p,
                    p >= 1,
            ;
            assert((q + 1) * p == q * p + p) by (nonlinear_arith);
        }
        (q + 1) * p
    } else {
        proof {
            assert(q * p <= n) by (nonlinear_arith)
                requires
                    q == n / p,
                    p >= 1,
            ;
        }
        q * p
    }
}

/// The luminance of a colour, `0` to `255`.
pub fn luminance(r: u8, g: u8, b: u8) -> (y: u8)
    ensures
        y == luma(r, g, b),
{
    let a = round24_exec(3566836 * r as u64);
    let bb = round24_exec(11999065 * g as u64);
    let c = round24_exec(1211315 * b as u64);
    let s = round24_exec(a + bb);
    let t = round24_exec(s + c);
    let y = t / 0x100_0000;
    if y > 255 {
        255
    } else {
        y as u8
    }
}

// ---------------------------------------------------------------------------
// Cells as bytes
// ---------------------------------------------------------------------------
/// The brightness ramp, dark to bright: ` .:-=+*#%@`.
pub open spec fn ramp() -> Seq<u8> {
    seq![32u8, 46, 58, 45, 61, 43, 42, 35, 37, 64]
}

/// The UTF-8 bytes of the full block `█`.
pub open spec fn full_block() -> Seq<u8> {
    seq![0xE2u8, 0x96, 0x88]
}

/// The 16-colour SGR code of a colour: red, green and blue bits from the
/// upper half of each channel, bright where a channel is above 200.
pub open spec fn ansi16_code(r: u8, g: u8, b: u8) -> nat {
    30 + (if r >= 128 {
        1nat
    } else {
        0
    }) + (if g >= 128 {
        2nat
    } else {
        0
    }) + (if b >= 128 {
        4nat
    } else {
        0
    }) + (if r > 200 || g > 200 || b > 200 {
        60nat
    } else {
        0
    })
}

/// The 256-colour palette index of a colour in the 6x6x6 colour cube.
pub open spec fn ansi256_index(r: u8, g: u8, b: u8) -> nat {
    16 + 36 * (r as nat * 5 / 255) + 6 * (g as nat * 5 / 255) + (b as nat * 5 / 255)
}

/// The bytes of one cell of the given colour.
pub open spec fn cell_bytes(profile: RenderProfile, r: u8, g: u8, b: u8) -> Seq<u8> {
    match profile {
        RenderProfile::MonochromeAscii => seq![ramp()[(luma(r, g, b) * 9 / 255) as int]],
        RenderProfile::Ansi256 => seq![27u8, 91, 51, 56, 59, 53, 59] + decimal_digits(
            ansi256_index(r, g, b),
        ) + seq![109u8] + full_block(),
        RenderProfile::Ansi16 => seq![27u8, 91] + decimal_digits(ansi16_code(r, g, b)) + seq![
            109u8,
        ] + full_block(),
        _ => seq![27u8, 91, 51, 56, 59, 50, 59] + decimal_digits(r as nat) + seq![59u8]
            + decimal_digits(g as nat) + seq![59u8] + decimal_digits(b as nat) + seq![109u8]
            + full_block(),
    }
}

/// In the 16-colour profile a cell is `ESC [`, two digits, `m` and the
/// full block. The first digit is `9`, a bright colour, exactly when some
/// channel is above 200, and `3` otherwise. The second digit `u` is the
/// colour: its bit 1 is set exactly when red is in its upper half, bit 2
/// when green is, and bit 4 when blue is.
pub proof fn law_ansi16_cell(r: u8, g: u8, b: u8)
    ensures
        ({
            let c = cell_bytes(RenderProfile::Ansi16, r, g, b);
            let u = c[3] as int - 48;
            &&& c.len() == 8
            &&& c.take(2) == seq![27u8, 91]
            &&& c.skip(4) == seq![109u8] + full_block()
            &&& (c[2] == 57u8) == (r > 200 || g > 200 || b > 200)
            &&& (c[2] == 51u8) == !(r > 200 || g > 200 || b > 200)
            &&& 0 <= u < 8
            &&& (u % 2 == 1) == (r >= 128)
            &&& (u / 2 % 2 == 1) == (g >= 128)
            &&& (u / 4 == 1) == (b >= 128)
        }),
{
    let code = ansi16_code(r, g, b);
    assert(30 <= code <= 37 || 90 <= code <= 97);
    assert(decimal_digits(code / 10) == seq![(48 + code / 10) as u8]);
    assert(decimal_digits(code) == seq![(48 + code / 10) as u8, (48 + code % 10) as u8]);
    let c = cell_bytes(RenderProfile::Ansi16, r, g, b);
    assert(c =~= seq![27u8, 91, (48 + code / 10) as u8, (48 + code % 10) as u8, 109u8] + full_block());
    assert(c.take(2) =~= seq![27u8, 91]);
    assert(c.skip(4) =~= seq![109u8] + full_block());
}

/// The bytes of cells `0` up to `n` of row `cy`.
pub open spec fn row_payload(frame: RawFrame, profile: RenderProfile, cy: int, n: int) -> Seq<u8>
    decreases n,
{
    if n <= 0 {
        Seq::empty()
    } else {
        row_payload(frame, profile, cy, n - 1) + cell_bytes(
            profile,
            cell_channel(frame, n - 1, cy, 0),
            cell_channel(frame, n - 1, cy, 1),
            cell_channel(frame, n - 1, cy, 2),
        )
    }
}

/// The bytes of rows `0` up to `n`, each ended by a line feed.
pub open spec fn rows_payload(frame: RawFrame, profile: RenderProfile, n: int) -> Seq<u8>
    decreases n,
{
    if n <= 0 {
        Seq::empty()
    } else {
        rows_payload(frame, profile, n - 1) + row_payload(frame, profile, n - 1, width_cells())
            + seq![10u8]
    }
}

/// The rendering of a frame: its rows, then the reset of all attributes.
pub open spec fn frame_payload(frame: RawFrame, profile: RenderProfile) -> Seq<u8> {
    rows_payload(frame, profile, height_cells()) + seq![27u8, 91, 48, 109]
}

fn push_bytes(out: &mut Vec<u8>, bytes: &[u8])
    ensures
        final(out)@ == old(out)@ + bytes@,
{
    let mut i: usize = 0;
    while i < bytes.len()
        invariant
            i <= bytes@.len(),
            out@ == old(out)@ + bytes@.take(i as int),
        decreases bytes@.len() - i,
    {
        out.push(bytes[i]);
        assert(bytes@.take(i + 1) =~= bytes@.take(i as int).push(bytes@[i as int]));
        assert(out@ =~= old(out)@ + bytes@.take(i + 1));
        i = i + 1;
    }
    assert(bytes@.take(bytes@.len() as int) =~= bytes@);
}

fn push_cell(out: &mut Vec<u8>, profile: RenderProfile, r: u8, g: u8, b: u8)
    ensures
        final(out)@ == old(out)@ + cell_bytes(profile, r, g, b),
{
    match profile {
        RenderProfile::MonochromeAscii => {
            let y = luminance(r, g, b);
            let idx: usize = (y as usize * 9) / 255;
            let ramp_bytes: [u8; 10] = [32u8, 46, 58, 45, 61, 43, 42, 35, 37, 64];
            assert(ramp_bytes@ =~= ramp());
            out.push(ramp_bytes[idx]);
            assert(out@ =~= old(out)@ + cell_bytes(profile, r, g, b));
        },
        RenderProfile::Ansi256 => {
            let ri: u32 = (r as u32 * 5) / 255;
            let gi: u32 = (g as u32 * 5) / 255;
            let bi: u32 = (b as u32 * 5) / 255;
            let index: u64 = (16 + 36 * ri + 6 * gi + bi) as u64;
            push_bytes(out, &[27u8, 91, 51, 56, 59, 53, 59]);
            push_decimal(out, index);
            push_bytes(out, &[109u8, 0xE2, 0x96, 0x88]);
            assert(out@ =~= old(out)@ + cell_bytes(profile, r, g, b));
        },
        RenderProfile::Ansi16 => {
            let mut code: u64 = 30;
            if r >= 128 {
                code = code + 1;
            }
            if g >= 128 {
                code = code + 2;
            }
            if b >= 128 {
                code = code + 4;
            }
            if r > 200 || g > 200 || b > 200 {
                code = code + 60;
            }
            push_bytes(out, &[27u8, 91]);
            push_decimal(out, code);
            push_bytes(out, &[109u8, 0xE2, 0x96, 0x88]);
            assert(out@ =~= old(out)@ + cell_bytes(profile, r, g, b));
        },
        _ => {
            push_bytes(out, &[27u8, 91, 51, 56, 59, 50, 59]);
            push_decimal(out, r as u64);
            push_bytes(out, &[59u8]);
            push_decimal(out, g as u64);
            push_bytes(out, &[59u8]);
            push_decimal(out, b as u64);
            push_bytes(out, &[109u8, 0xE2, 0x96, 0x88]);
            assert(out@ =~= old(out)@ + cell_bytes(profile, r, g, b));
        },
    }
}

// ---------------------------------------------------------------------------
// Averaging, executable
// ---------------------------------------------------------------------------
proof fn lemma_row_bounds(data: Seq<u8>, w: int, y: int, x0: int, x1: int, ch: int)
    requires
        x0 <= x1,
        0 <= ch < 4,
    ensures
        0 <= row_count(data.len() as int, w, y, x0, x1) <= x1 - x0,
        0 <= row_sum(data, w, y, x0, x1, ch) <= 255 * row_count(data.len() as int, w, y, x0, x1),
    decreases x1 - x0,
{
    if x1 > x0 {
        lemma_row_bounds(data, w, y, x0, x1 - 1, ch);
    }
}

proof fn lemma_block_bounds(data: Seq<u8>, w: int, y0: int, y1: int, x0: int, x1: int, ch: int)
    requires
        y0 <= y1,
        x0 <= x1,
        0 <= ch < 4,
    ensures
        0 <= block_count(data.len() as int, w, y0, y1, x0, x1) <= (y1 - y0) * (x1 - x0),
        0 <= block_sum(data, w, y0, y1, x0, x1, ch) <= 255 * block_count(
            data.len() as int,
            w,
            y0,
            y1,
            x0,
            x1,
        ),
    decreases y1 - y0,
{
    if y1 > y0 {
        lemma_block_bounds(data, w, y0, y1 - 1, x0, x1, ch);
        lemma_row_bounds(data, w, y1 - 1, x0, x1, ch);
        assert((y1 - 1 - y0) * (x1 - x0) + (x1 - x0) == (y1 - y0) * (x1 - x0)) by (nonlinear_arith);
    }
}

proof fn lemma_cell_range(c: int, size: int, cells: int)
    requires
        0 <= c < cells,
        size >= 0,
        cells > 0,
    ensures
        0 <= cell_start(c, size, cells) <= cell_end(c, size, cells) <= size,
{
    assert(c * size <= (c + 1) * size) by (nonlinear_arith)
        requires
            size >= 0,
    ;
    assert(c * size / cells <= (c + 1) * size / cells) by (nonlinear_arith)
        requires
            c * size <= (c + 1) * size,
            cells > 0,
    ;
    assert(c * size / cells <= size) by (nonlinear_arith)
        requires
            0 <= c < cells,
            size >= 0,
    ;
    assert(0 <= c * size / cells) by (nonlinear_arith)
        requires
            0 <= c,
            size >= 0,
            cells > 0,
    ;
}

fn sum_row(
    data: &Vec<u8>,
    w: u64,
    h: u64,
    y: u64,
    x0: u64,
    x1: u64,
) -> (r: (u128, u128, u128, u128))
    requires
        x0 <= x1 <= w,
        y < h,
        w <= 0xffff_ffff,
        h <= 0xffff_ffff,
    ensures
        r.3 == row_count(data@.len() as int, w as int, y as int, x0 as int, x1 as int),
        r.0 == row_sum(data@, w as int, y as int, x0 as int, x1 as int, 0),
        r.1 == row_sum(data@, w as int, y as int, x0 as int, x1 as int, 1),
        r.2 == row_sum(data@, w as int, y as int, x0 as int, x1 as int, 2),
{
    let mut rs: u128 = 0;
    let mut gs: u128 = 0;
    let mut bs: u128 = 0;
    let mut n: u128 = 0;
    let mut x = x0;
    while x < x1
        invariant
            x0 <= x <= x1 <= w,
            y < h,
            w <= 0xffff_ffff,
            h <= 0xffff_ffff,
            n == row_count(data@.len() as int, w as int, y as int, x0 as int, x as int),
            rs == row_sum(data@, w as int, y as int, x0 as int, x as int, 0),
            gs == row_sum(data@, w as int, y as int, x0 as int, x as int, 1),
            bs == row_sum(data@, w as int, y as int, x0 as int, x as int, 2),
        decreases x1 - x,
    {
        proof {
            lemma_row_bounds(data@, w as int, y as int, x0 as int, x + 1, 0);
            lemma_row_bounds(data@, w as int, y as int, x0 as int, x + 1, 1);
            lemma_row_bounds(data@, w as int, y as int, x0 as int, x + 1, 2);
            assert((y as int) * (w as int) <= 0xffff_ffff * 0xffff_ffff) by (nonlinear_arith)
                requires
                    y <= 0xffff_ffff,
                    w <= 0xffff_ffff,
            ;
        }
        let idx: u128 = ((y as u128) * (w as u128) + (x as u128)) * 4;
        let len = data.len();
        if idx + 3 < len as u128 {
            let i = idx as usize;
            rs = rs + data[i] as u128;
            gs = gs + data[i + 1] as u128;
            bs = bs + data[i + 2] as u128;
            n = n + 1;
        }
        x = x + 1;
    }
    (rs, gs, bs, n)
}

/// The average colour of cell (`cx`, `cy`).
fn cell_colour(frame: &RawFrame, cx: u64, cy: u64) -> (r: (u8, u8, u8))
    requires
        cx < 80,
        cy < 24,
    ensures
        r.0 == cell_channel(*frame, cx as int, cy as int, 0),
        r.1 == cell_channel(*frame, cx as int, cy as int, 1),
        r.2 == cell_channel(*frame, cx as int, cy as int, 2),
{
    let w = frame.width as u64;
    let h = frame.height as u64;
    proof {
        assert((cx + 1) * (w as int) <= 80 * 0xffff_ffff) by (nonlinear_arith)
            requires
                cx < 80,
                w <= 0xffff_ffff,
        ;
        assert((cy + 1) * (h as int) <= 24 * 0xffff_ffff) by (nonlinear_arith)
            requires
                cy < 24,
                h <= 0xffff_ffff,
        ;
        assert(cx * (w as int) <= (cx + 1) * (w as int)) by (nonlinear_arith);
        assert(cy * (h as int) <= (cy + 1) * (h as int)) by (nonlinear_arith);
    }
    let x0 = cx * w / 80;
    let e = (cx + 1) * w / 80;
    let x1 = if e < w {
        e
    } else {
        w
    };
    let y0 = cy * h / 24;
    let e = (cy + 1) * h / 24;
    let y1 = if e < h {
        e
    } else {
        h
    };
    proof {
        lemma_cell_range(cx as int, w as int, 80);
        lemma_cell_range(cy as int, h as int, 24);
    }
    let mut rs: u128 = 0;
    let mut gs: u128 = 0;
    let mut bs: u128 = 0;
    let mut n: u128 = 0;
    let mut y = y0;
    while y < y1
        invariant
            y0 <= y <= y1 <= h,
            x0 <= x1 <= w,
            w == frame.width,
            h == frame.height,
            w <= 0xffff_ffff,
            h <= 0xffff_ffff,
            n == block_count(frame.data@.len() as int, w as int, y0 as int, y as int, x0 as int, x1 as int),
            rs == block_sum(frame.data@, w as int, y0 as int, y as int, x0 as int, x1 as int, 0),
            gs == block_sum(frame.data@, w as int, y0 as int, y as int, x0 as int, x1 as int, 1),
            bs == block_sum(frame.data@, w as int, y0 as int, y as int, x0 as int, x1 as int, 2),
        decreases y1 - y,
    {
        let (r1, g1, b1, n1) = sum_row(&frame.data, w, h, y, x0, x1);
        proof {
            lemma_block_bounds(frame.data@, w as int, y0 as int, y + 1, x0 as int, x1 as int, 0);
            lemma_block_bounds(frame.data@, w as int, y0 as int, y + 1, x0 as int, x1 as int, 1);
            lemma_block_bounds(frame.data@, w as int, y0 as int, y + 1, x0 as int, x1 as int, 2);
            assert(((y + 1 - y0) as int) * ((x1 - x0) as int) <= 0xffff_ffff * 0xffff_ffff) by (nonlinear_arith)
                requires
                    y + 1 - y0 <= 0xffff_ffff,
                    x1 - x0 <= 0xffff_ffff,
                    y + 1 >= y0,
                    x1 >= x0,
            ;
        }
        rs = rs + r1;
        gs = gs + g1;
        bs = bs + b1;
        n = n + n1;
        y = y + 1;
    }
    proof {
        lemma_block_bounds(frame.data@, w as int, y0 as int, y1 as int, x0 as int, x1 as int, 0);
        lemma_block_bounds(frame.data@, w as int, y0 as int, y1 as int, x0 as int, x1 as int, 1);
        lemma_block_bounds(frame.data@, w as int, y0 as int, y1 as int, x0 as int, x1 as int, 2);
    }
    if n > 0 {
        ((rs / n) as u8, (gs / n) as u8, (bs / n) as u8)
    } else {
        (0, 0, 0)
    }
}

// ---------------------------------------------------------------------------
// Layout of a payload
// ---------------------------------------------------------------------------
/// How many times byte `b` occurs in `s`.
pub open spec fn occurrences(s: Seq<u8>, b: u8) -> nat
    decreases s.len(),
{
    if s.len() == 0 {
        0
    } else {
        occurrences(s.drop_last(), b) + if s.last() == b {
            1nat
        } else {
            0nat
        }
    }
}

/// A character of the brightness ramp.
pub open spec fn is_ramp_byte(b: u8) -> bool {
    exists|i: int| 0 <= i < 10 && #[trigger] ramp()[i] == b
}

proof fn lemma_occurrences_concat(s: Seq<u8>, t: Seq<u8>, b: u8)
    ensures
        occurrences(s + t, b) == occurrences(s, b) + occurrences(t, b),
    decreases t.len(),
{
    if t.len() == 0 {
        assert(s + t =~= s);
    } else {
        lemma_occurrences_concat(s, t.drop_last(), b);
        assert((s + t).drop_last() =~= s + t.drop_last());
    }
}

proof fn lemma_occurrences_none(s: Seq<u8>, b: u8)
    requires
        forall|i: int| 0 <= i < s.len() ==> s[i] != b,
    ensures
        occurrences(s, b) == 0,
    decreases s.len(),
{
    if s.len() > 0 {
        lemma_occurrences_none(s.drop_last(), b);
    }
}

proof fn lemma_digits_no_newline(n: nat)
    ensures
        occurrences(decimal_digits(n), 10) == 0,
{
    crate::text::lemma_decimal_digits_are_digits(n);
    lemma_occurrences_none(decimal_digits(n), 10);
}

proof fn lemma_ramp_bytes()
    ensures
        forall|i: int| 0 <= i < 10 ==> ramp()[i] != 10 && is_ramp_byte(#[trigger] ramp()[i]),
{
    assert forall|i: int| 0 <= i < 10 implies ramp()[i] != 10 && is_ramp_byte(
        #[trigger] ramp()[i],
    ) by {
        assert(ramp()[i] == ramp()[i]);
    }
}

proof fn lemma_cell_no_newline(profile: RenderProfile, r: u8, g: u8, b: u8)
    ensures
        occurrences(cell_bytes(profile, r, g, b), 10) == 0,
{
    let fb = full_block();
    lemma_occurrences_none(fb, 10);
    let m = seq![109u8];
    lemma_occurrences_none(m, 10);
    match profile {
        RenderProfile::MonochromeAscii => {
            lemma_ramp_bytes();
            let j = (luma(r, g, b) * 9 / 255) as int;
            assert(0 <= j < 10);
            lemma_occurrences_none(seq![ramp()[j]], 10);
        },
        RenderProfile::Ansi256 => {
            let p = seq![27u8, 91, 51, 56, 59, 53, 59];
            let d = decimal_digits(ansi256_index(r, g, b));
            lemma_occurrences_none(p, 10);
            lemma_digits_no_newline(ansi256_index(r, g, b));
            lemma_occurrences_concat(p, d, 10);
            lemma_occurrences_concat(p + d, m, 10);
            lemma_occurrences_concat(p + d + m, fb, 10);
        },
        RenderProfile::Ansi16 => {
            let p = seq![27u8, 91];
            let d = decimal_digits(ansi16_code(r, g, b));
            lemma_occurrences_none(p, 10);
            lemma_digits_no_newline(ansi16_code(r, g, b));
            lemma_occurrences_concat(p, d, 10);
            lemma_occurrences_concat(p + d, m, 10);
            lemma_occurrences_concat(p + d + m, fb, 10);
        },
        _ => {
            let p = seq![27u8, 91, 51, 56, 59, 50, 59];
            let sc = seq![59u8];
            let dr = decimal_digits(r as nat);
            let dg = decimal_digits(g as nat);
            let db = decimal_digits(b as nat);
            lemma_occurrences_none(p, 10);
            lemma_occurrences_none(sc, 10);
            lemma_digits_no_newline(r as nat);
            lemma_digits_no_newline(g as nat);
            lemma_digits_no_newline(b as nat);
            lemma_occurrences_concat(p, dr, 10);
            lemma_occurrences_concat(p + dr, sc, 10);
            lemma_occurrences_concat(p + dr + sc, dg, 10);
            lemma_occurrences_concat(p + dr + sc + dg, sc, 10);
            lemma_occurrences_concat(p + dr + sc + dg + sc, db, 10);
            lemma_occurrences_concat(p + dr + sc + dg + sc + db, m, 10);
            lemma_occurrences_concat(p + dr + sc + dg + sc + db + m, fb, 10);
        },
    }
}

proof fn lemma_row_no_newline(frame: RawFrame, profile: RenderProfile, cy: int, n: int)
    ensures
        occurrences(row_payload(frame, profile, cy, n), 10) == 0,
    decreases n,
{
    if n > 0 {
        lemma_row_no_newline(frame, profile, cy, n - 1);
        let r = cell_channel(frame, n - 1, cy, 0);
        let g = cell_channel(frame, n - 1, cy, 1);
        let b = cell_channel(frame, n - 1, cy, 2);
        lemma_cell_no_newline(profile, r, g, b);
        lemma_occurrences_concat(row_payload(frame, profile, cy, n - 1), cell_bytes(profile, r, g, b), 10);
    }
}

proof fn lemma_rows_newlines(frame: RawFrame, profile: RenderProfile, n: int)
    requires
        n >= 0,
    ensures
        occurrences(rows_payload(frame, profile, n), 10) == n,
    decreases n,
{
    if n > 0 {
        lemma_rows_newlines(frame, profile, n - 1);
        let prev = rows_payload(frame, profile, n - 1);
        let row = row_payload(frame, profile, n - 1, width_cells());
        lemma_row_no_newline(frame, profile, n - 1, width_cells());
        lemma_occurrences_concat(prev, row, 10);
        lemma_occurrences_concat(prev + row, seq![10u8], 10);
        assert(seq![10u8].drop_last() =~= Seq::<u8>::empty());
        assert(occurrences(seq![10u8], 10) == 1) by {
            assert(occurrences(Seq::<u8>::empty(), 10) == 0);
        }
        assert(rows_payload(frame, profile, n) == prev + row + seq![10u8]);
    }
}

proof fn lemma_row_monochrome(frame: RawFrame, cy: int, n: int)
    requires
        n >= 0,
    ensures
        row_payload(frame, RenderProfile::MonochromeAscii, cy, n).len() == n,
        forall|i: int|
            0 <= i < n ==> is_ramp_byte(
                #[trigger] row_payload(frame, RenderProfile::MonochromeAscii, cy, n)[i],
            ),
    decreases n,
{
    if n > 0 {
        lemma_row_monochrome(frame, cy, n - 1);
        lemma_ramp_bytes();
        let r = cell_channel(frame, n - 1, cy, 0);
        let g = cell_channel(frame, n - 1, cy, 1);
        let b = cell_channel(frame, n - 1, cy, 2);
        let j = (luma(r, g, b) * 9 / 255) as int;
        assert(0 <= j < 10);
        let prev = row_payload(frame, RenderProfile::MonochromeAscii, cy, n - 1);
        let cur = row_payload(frame, RenderProfile::MonochromeAscii, cy, n);
        assert forall|i: int| 0 <= i < n implies is_ramp_byte(#[trigger] cur[i]) by {
            if i < n - 1 {
                assert(cur[i] == prev[i]);
            } else {
                assert(cur[i] == ramp()[j]);
            }
        }
    }
}

proof fn lemma_rows_monochrome(frame: RawFrame, n: int)
    requires
        n >= 0,
    ensures
        rows_payload(frame, RenderProfile::MonochromeAscii, n).len() == 81 * n,
        forall|i: int|
            0 <= i < 81 * n ==> #[trigger] rows_payload(frame, RenderProfile::MonochromeAscii, n)[i]
                == 10 || is_ramp_byte(rows_payload(frame, RenderProfile::MonochromeAscii, n)[i]),
        forall|r: int|
            0 <= r < n ==> rows_payload(frame, RenderProfile::MonochromeAscii, n)[#[trigger] (81 * r
                + 80)] == 10,
    decreases n,
{
    if n > 0 {
        lemma_rows_monochrome(frame, n - 1);
        lemma_row_monochrome(frame, n - 1, width_cells());
        let prev = rows_payload(frame, RenderProfile::MonochromeAscii, n - 1);
        let row = row_payload(frame, RenderProfile::MonochromeAscii, n - 1, width_cells());
        let cur = rows_payload(frame, RenderProfile::MonochromeAscii, n);
        assert(cur == prev + row + seq![10u8]);
        assert forall|i: int| 0 <= i < 81 * n implies #[trigger] cur[i] == 10 || is_ramp_byte(
            cur[i],
        ) by {
            if i < 81 * (n - 1) {
                assert(cur[i] == prev[i]);
            } else if i < 81 * (n - 1) + 80 {
                assert(cur[i] == row[i - 81 * (n - 1)]);
            } else {
                assert(cur[i] == 10);
            }
        }
        assert forall|r: int| 0 <= r < n implies cur[#[trigger] (81 * r + 80)] == 10 by {
            if r < n - 1 {
                assert(cur[81 * r + 80] == prev[81 * r + 80]);
            }
        }
    }
}

/// The layout of every rendering: 24 rows, each ended by a line feed, and
/// the reset of all attributes at the end, with no other line feed; in
/// monochrome, 80 ramp characters per row, 1948 bytes in all.
pub proof fn law_payload_layout(frame: RawFrame, profile: RenderProfile)
    ensures
        ({
            let p = frame_payload(frame, profile);
            &&& p.len() >= 4
            &&& p.subrange(p.len() - 4, p.len() as int) == seq![27u8, 91, 48, 109]
            &&& occurrences(p, 10) == 24
        }),
        profile == RenderProfile::MonochromeAscii ==> ({
            let p = frame_payload(frame, profile);
            &&& p.len() == 1948
            &&& forall|i: int| 0 <= i < 1944 ==> #[trigger] p[i] == 10 || is_ramp_byte(p[i])
            &&& forall|r: int| 0 <= r < 24 ==> p[#[trigger] (81 * r + 80)] == 10
        }),
{
    let rows = rows_payload(frame, profile, height_cells());
    let reset = seq![27u8, 91, 48, 109];
    let p = frame_payload(frame, profile);
    assert(p == rows + reset);
    assert(p.subrange(p.len() - 4, p.len() as int) =~= reset);
    lemma_rows_newlines(frame, profile, height_cells());
    lemma_occurrences_none(reset, 10);
    lemma_occurrences_concat(rows, reset, 10);
    if profile == RenderProfile::MonochromeAscii {
        lemma_rows_monochrome(frame, height_cells());
        assert forall|i: int| 0 <= i < 1944 implies #[trigger] p[i] == 10 || is_ramp_byte(p[i]) by {
            assert(p[i] == rows[i]);
        }
        assert forall|r: int| 0 <= r < 24 implies p[#[trigger] (81 * r + 80)] == 10 by {
            assert(p[81 * r + 80] == rows[81 * r + 80]);
        }
    }
}

// ---------------------------------------------------------------------------
// Scaling
// ---------------------------------------------------------------------------
/// Channel `ch` of pixel (`x`, `y`) of a frame's data.
pub open spec fn pixel(frame: RawFrame, x: int, y: int, ch: int) -> u8 {
    frame.data@[(y * frame.width + x) * 4 + ch]
}

/// `up` is `raw` with every pixel repeated `k` times across and `k` times
/// down, both frames holding the data of all their pixels.
pub open spec fn scaled_by(raw: RawFrame, up: RawFrame, k: int) -> bool {
    &&& k >= 1
    &&& up.width == k * raw.width
    &&& up.height == k * raw.height
    &&& raw.data@.len() == raw.width * raw.height * 4
    &&& up.data@.len() == up.width * up.height * 4
    &&& forall|x: int, y: int, ch: int|
        0 <= x < up.width && 0 <= y < up.height && 0 <= ch < 4 ==> #[trigger] pixel(up, x, y, ch)
            == pixel(raw, x / k, y / k, ch)
}

proof fn lemma_div_exact(x: int, d: int, q: int, r: int)
    requires
        d > 0,
        0 <= r < d,
        x == q * d + r,
    ensures
        x / d == q,
{
    vstd::arithmetic::div_mod::lemma_fundamental_div_mod_converse_div(x, d, q, r);
}

proof fn lemma_div_below(y: int, k: int, n: int)
    requires
        0 <= y < k * n,
        k >= 1,
    ensures
        0 <= y / k < n,
{
    vstd::arithmetic::div_mod::lemma_fundamental_div_mod(y, k);
    vstd::arithmetic::div_mod::lemma_mod_pos_bound(y, k);
    let q = y / k;
    let r = y % k;
    assert(0 <= q < n) by (nonlinear_arith)
        requires
            y == k * q + r,
            0 <= r < k,
            0 <= y < k * n,
            k >= 1,
    ;
}

proof fn lemma_counted_full(len: int, w: int, h: int, x: int, y: int)
    requires
        len == w * h * 4,
        0 <= x < w,
        0 <= y < h,
    ensures
        pixel_counted(len, w, x, y),
{
    assert((y * w + x) * 4 + 3 < w * h * 4) by (nonlinear_arith)
        requires
            0 <= x < w,
            0 <= y < h,
    ;
}

proof fn lemma_row_sum_split(data: Seq<u8>, w: int, y: int, a: int, b: int, c: int, ch: int)
    requires
        a <= b <= c,
    ensures
        row_sum(data, w, y, a, c, ch) == row_sum(data, w, y, a, b, ch) + row_sum(data, w, y, b, c, ch),
    decreases c - b,
{
    if c > b {
        lemma_row_sum_split(data, w, y, a, b, c - 1, ch);
    }
}

proof fn lemma_block_sum_split(
    data: Seq<u8>,
    w: int,
    a: int,
    b: int,
    c: int,
    x0: int,
    x1: int,
    ch: int,
)
    requires
        a <= b <= c,
    ensures
        block_sum(data, w, a, c, x0, x1, ch) == block_sum(data, w, a, b, x0, x1, ch) + block_sum(
            data,
            w,
            b,
            c,
            x0,
            x1,
            ch,
        ),
    decreases c - b,
{
    if c > b {
        lemma_block_sum_split(data, w, a, b, c - 1, x0, x1, ch);
    }
}

proof fn lemma_row_count_full(len: int, w: int, h: int, y: int, x0: int, x1: int)
    requires
        len == w * h * 4,
        0 <= y < h,
        0 <= x0 <= x1 <= w,
    ensures
        row_count(len, w, y, x0, x1) == x1 - x0,
    decreases x1 - x0,
{
    if x1 > x0 {
        lemma_row_count_full(len, w, h, y, x0, x1 - 1);
        lemma_counted_full(len, w, h, x1 - 1, y);
    }
}

proof fn lemma_block_count_full(len: int, w: int, h: int, y0: int, y1: int, x0: int, x1: int)
    requires
        len == w * h * 4,
        0 <= y0 <= y1 <= h,
        0 <= x0 <= x1 <= w,
    ensures
        block_count(len, w, y0, y1, x0, x1) == (y1 - y0) * (x1 - x0),
    decreases y1 - y0,
{
    if y1 > y0 {
        lemma_block_count_full(len, w, h, y0, y1 - 1, x0, x1);
        lemma_row_count_full(len, w, h, y1 - 1, x0, x1);
        assert((y1 - 1 - y0) * (x1 - x0) + (x1 - x0) == (y1 - y0) * (x1 - x0)) by (nonlinear_arith);
    } else {
        assert((y1 - y0) * (x1 - x0) == 0) by (nonlinear_arith)
            requires
                y1 == y0,
        ;
    }
}

/// `j` columns of one repeated pixel, `j <= k`, sum to `j` times it.
proof fn lemma_row_run(raw: RawFrame, up: RawFrame, k: int, y: int, c: int, j: int, ch: int)
    requires
        scaled_by(raw, up, k),
        0 <= y < up.height,
        0 <= c < raw.width,
        0 <= j <= k,
        0 <= ch < 4,
    ensures
        row_sum(up.data@, up.width as int, y, k * c, k * c + j, ch) == j * pixel(raw, c, y / k, ch),
    decreases j,
{
    if j > 0 {
        lemma_row_run(raw, up, k, y, c, j - 1, ch);
        let x = k * c + j - 1;
        assert(k * c + k <= k * raw.width) by (nonlinear_arith)
            requires
                c < raw.width,
                k >= 1,
        ;
        assert(0 <= k * c) by (nonlinear_arith)
            requires
                c >= 0,
                k >= 1,
        ;
        lemma_counted_full(up.data@.len() as int, up.width as int, up.height as int, x, y);
        assert(x == c * k + (j - 1)) by (nonlinear_arith)
            requires
                x == k * c + j - 1,
        ;
        lemma_div_exact(x, k, c, j - 1);
        assert(pixel(up, x, y, ch) == pixel(raw, c, y / k, ch));
        let v = pixel(raw, c, y / k, ch) as int;
        assert((j - 1) * v + v == j * v) by (nonlinear_arith);
    } else {
        let v = pixel(raw, c, y / k, ch) as int;
        assert(j * v == 0) by (nonlinear_arith)
            requires
                j == 0,
        ;
    }
}

/// A row of `up` over scaled columns sums to `k` times the row of `raw`.
proof fn lemma_row_scaled(raw: RawFrame, up: RawFrame, k: int, y: int, x0: int, x1: int, ch: int)
    requires
        scaled_by(raw, up, k),
        0 <= y < up.height,
        0 <= x0 <= x1 <= raw.width,
        0 <= ch < 4,
    ensures
        row_sum(up.data@, up.width as int, y, k * x0, k * x1, ch) == k * row_sum(
            raw.data@,
            raw.width as int,
            y / k,
            x0,
            x1,
            ch,
        ),
    decreases x1 - x0,
{
    if x1 > x0 {
        lemma_row_scaled(raw, up, k, y, x0, x1 - 1, ch);
        assert(k * x0 <= k * (x1 - 1) && k * (x1 - 1) + k == k * x1) by (nonlinear_arith)
            requires
                x0 <= x1 - 1,
                k >= 1,
        ;
        lemma_row_sum_split(up.data@, up.width as int, y, k * x0, k * (x1 - 1), k * x1, ch);
        lemma_row_run(raw, up, k, y, x1 - 1, k, ch);
        lemma_div_below(y, k, raw.height as int);
        lemma_counted_full(
            raw.data@.len() as int,
            raw.width as int,
            raw.height as int,
            x1 - 1,
            y / k,
        );
        let a = row_sum(raw.data@, raw.width as int, y / k, x0, x1 - 1, ch);
        let v = pixel(raw, x1 - 1, y / k, ch) as int;
        assert(k * a + k * v == k * (a + v)) by (nonlinear_arith);
    }
}

/// `j` rows of one repeated row, `j <= k`, sum to `j * k` times it.
proof fn lemma_block_run(
    raw: RawFrame,
    up: RawFrame,
    k: int,
    y: int,
    j: int,
    x0: int,
    x1: int,
    ch: int,
)
    requires
        scaled_by(raw, up, k),
        0 <= y < raw.height,
        0 <= j <= k,
        0 <= x0 <= x1 <= raw.width,
        0 <= ch < 4,
    ensures
        block_sum(up.data@, up.width as int, k * y, k * y + j, k * x0, k * x1, ch) == j * (k
            * row_sum(raw.data@, raw.width as int, y, x0, x1, ch)),
    decreases j,
{
    if j > 0 {
        lemma_block_run(raw, up, k, y, j - 1, x0, x1, ch);
        let yy = k * y + j - 1;
        assert(k * y + k <= k * raw.height && 0 <= k * y) by (nonlinear_arith)
            requires
                0 <= y < raw.height,
                k >= 1,
        ;
        assert(yy == y * k + (j - 1)) by (nonlinear_arith)
            requires
                yy == k * y + j - 1,
        ;
        lemma_div_exact(yy, k, y, j - 1);
        lemma_row_scaled(raw, up, k, yy, x0, x1, ch);
        let m = k * row_sum(raw.data@, raw.width as int, y, x0, x1, ch);
        assert((j - 1) * m + m == j * m) by (nonlinear_arith);
    } else {
        let m = k * row_sum(raw.data@, raw.width as int, y, x0, x1, ch);
        assert(j * m == 0) by (nonlinear_arith)
            requires
                j == 0,
        ;
    }
}

/// A block of `up` over scaled rows and columns sums to `k * k` times the
/// block of `raw`.
proof fn lemma_block_scaled(
    raw: RawFrame,
    up: RawFrame,
    k: int,
    y0: int,
    y1: int,
    x0: int,
    x1: int,
    ch: int,
)
    requires
        scaled_by(raw, up, k),
        0 <= y0 <= y1 <= raw.height,
        0 <= x0 <= x1 <= raw.width,
        0 <= ch < 4,
    ensures
        block_sum(up.data@, up.width as int, k * y0, k * y1, k * x0, k * x1, ch) == k * (k
            * block_sum(raw.data@, raw.width as int, y0, y1, x0, x1, ch)),
    decreases y1 - y0,
{
    if y1 > y0 {
        lemma_block_scaled(raw, up, k, y0, y1 - 1, x0, x1, ch);
        assert(k * y0 <= k * (y1 - 1) && k * (y1 - 1) + k == k * y1) by (nonlinear_arith)
            requires
                y0 <= y1 - 1,
                k >= 1,
        ;
        lemma_block_sum_split(
            up.data@,
            up.width as int,
            k * y0,
            k * (y1 - 1),
            k * y1,
            k * x0,
            k * x1,
            ch,
        );
        lemma_block_run(raw, up, k, y1 - 1, k, x0, x1, ch);
        let b = block_sum(raw.data@, raw.width as int, y0, y1 - 1, x0, x1, ch);
        let r = row_sum(raw.data@, raw.width as int, y1 - 1, x0, x1, ch);
        assert(k * (k * b) + k * (k * r) == k * (k * (b + r))) by (nonlinear_arith);
    }
}

/// On a size that the cells divide, the cells of a `k` times larger size
/// start and end `k` times further on.
proof fn lemma_scaled_cells(c: int, size: int, cells: int, k: int)
    requires
        0 <= c < cells,
        size >= 0,
        size % cells == 0,
        k >= 1,
    ensures
        cell_start(c, size, cells) == c * (size / cells),
        cell_end(c, size, cells) == (c + 1) * (size / cells),
        cell_start(c, k * size, cells) == k * cell_start(c, size, cells),
        cell_end(c, k * size, cells) == k * cell_end(c, size, cells),
        0 <= cell_start(c, size, cells) <= cell_end(c, size, cells) <= size,
{
    let m = size / cells;
    vstd::arithmetic::div_mod::lemma_fundamental_div_mod(size, cells);
    assert(size == cells * m);
    assert(c * size == (c * m) * cells + 0 && (c + 1) * size == ((c + 1) * m) * cells + 0
        && c * (k * size) == (k * (c * m)) * cells + 0 && (c + 1) * (k * size) == (k * ((c + 1)
        * m)) * cells + 0) by (nonlinear_arith)
        requires
            size == cells * m,
    ;
    lemma_div_exact(c * size, cells, c * m, 0);
    lemma_div_exact((c + 1) * size, cells, (c + 1) * m, 0);
    lemma_div_exact(c * (k * size), cells, k * (c * m), 0);
    lemma_div_exact((c + 1) * (k * size), cells, k * ((c + 1) * m), 0);
    assert(0 <= c * m <= (c + 1) * m <= size && k * ((c + 1) * m) <= k * size) by (nonlinear_arith)
        requires
            0 <= c < cells,
            size == cells * m,
            size >= 0,
            k >= 1,
    ;
}

proof fn lemma_mean_scaled(s: int, n: int, c: int)
    requires
        n > 0,
        c > 0,
        s >= 0,
    ensures
        (c * s) / (c * n) == s / n,
{
    vstd::arithmetic::div_mod::lemma_fundamental_div_mod(s, n);
    vstd::arithmetic::div_mod::lemma_mod_pos_bound(s, n);
    let q = s / n;
    let r = s % n;
    assert(c * s == q * (c * n) + c * r && 0 <= c * r < c * n) by (nonlinear_arith)
        requires
            s == n * q + r,
            0 <= r < n,
            c > 0,
    ;
    lemma_div_exact(c * s, c * n, q, c * r);
}

proof fn lemma_cell_scaled(raw: RawFrame, up: RawFrame, k: int, cx: int, cy: int, ch: int)
    requires
        scaled_by(raw, up, k),
        raw.width % 80 == 0,
        raw.height % 24 == 0,
        0 <= cx < 80,
        0 <= cy < 24,
        0 <= ch < 4,
    ensures
        cell_channel(up, cx, cy, ch) == cell_channel(raw, cx, cy, ch),
{
    let w = raw.width as int;
    let h = raw.height as int;
    lemma_scaled_cells(cx, w, 80, k);
    lemma_scaled_cells(cy, h, 24, k);
    let x0 = cell_start(cx, w, 80);
    let x1 = cell_end(cx, w, 80);
    let y0 = cell_start(cy, h, 24);
    let y1 = cell_end(cy, h, 24);
    assert(up.width as int == k * w);
    assert(up.height as int == k * h);
    lemma_block_count_full(raw.data@.len() as int, w, h, y0, y1, x0, x1);
    assert(k * y1 <= k * h && k * x1 <= k * w && 0 <= k * y0 && 0 <= k * x0) by (nonlinear_arith)
        requires
            0 <= y0 <= y1 <= h,
            0 <= x0 <= x1 <= w,
            k >= 1,
    ;
    assert(k * y0 <= k * y1 && k * x0 <= k * x1) by (nonlinear_arith)
        requires
            y0 <= y1,
            x0 <= x1,
            k >= 1,
    ;
    lemma_block_count_full(
        up.data@.len() as int,
        up.width as int,
        up.height as int,
        k * y0,
        k * y1,
        k * x0,
        k * x1,
    );
    lemma_block_scaled(raw, up, k, y0, y1, x0, x1, ch);
    lemma_block_bounds(raw.data@, w, y0, y1, x0, x1, ch);
    let n = (y1 - y0) * (x1 - x0);
    let sum = block_sum(raw.data@, w, y0, y1, x0, x1, ch);
    assert((k * y1 - k * y0) * (k * x1 - k * x0) == (k * k) * n && k * (k * sum) == (k * k) * sum
        && k * k > 0 && n >= 0) by (nonlinear_arith)
        requires
            n == (y1 - y0) * (x1 - x0),
            y0 <= y1,
            x0 <= x1,
            k >= 1,
    ;
    if n > 0 {
        lemma_mean_scaled(sum, n, k * k);
        assert((k * k) * n > 0) by (nonlinear_arith)
            requires
                n > 0,
                k * k > 0,
        ;
    } else {
        assert((k * k) * n == 0) by (nonlinear_arith)
            requires
                n == 0,
        ;
    }
}

proof fn lemma_row_payload_scaled(
    raw: RawFrame,
    up: RawFrame,
    k: int,
    profile: RenderProfile,
    cy: int,
    n: int,
)
    requires
        scaled_by(raw, up, k),
        raw.width % 80 == 0,
        raw.height % 24 == 0,
        0 <= cy < 24,
        n <= 80,
    ensures
        row_payload(up, profile, cy, n) == row_payload(raw, profile, cy, n),
    decreases n,
{
    if n > 0 {
        lemma_row_payload_scaled(raw, up, k, profile, cy, n - 1);
        lemma_cell_scaled(raw, up, k, n - 1, cy, 0);
        lemma_cell_scaled(raw, up, k, n - 1, cy, 1);
        lemma_cell_scaled(raw, up, k, n - 1, cy, 2);
    }
}

proof fn lemma_rows_payload_scaled(
    raw: RawFrame,
    up: RawFrame,
    k: int,
    profile: RenderProfile,
    n: int,
)
    requires
        scaled_by(raw, up, k),
        raw.width % 80 == 0,
        raw.height % 24 == 0,
        n <= 24,
    ensures
        rows_payload(up, profile, n) == rows_payload(raw, profile, n),
    decreases n,
{
    if n > 0 {
        lemma_rows_payload_scaled(raw, up, k, profile, n - 1);
        lemma_row_payload_scaled(raw, up, k, profile, n - 1, width_cells());
    }
}

/// Scaling up leaves the rendering unchanged: on a frame whose width and
/// height the cells divide, repeating every pixel `k` times across and
/// down gives the same payload, because each cell's mean is unchanged.
pub proof fn law_scaling_keeps_payload(raw: RawFrame, up: RawFrame, k: int, profile: RenderProfile)
    requires
        scaled_by(raw, up, k),
        raw.width % 80 == 0,
        raw.height % 24 == 0,
    ensures
        frame_payload(up, profile) == frame_payload(raw, profile),
{
    lemma_rows_payload_scaled(raw, up, k, profile, height_cells());
}

// ---------------------------------------------------------------------------
// The encoder
// ---------------------------------------------------------------------------
/// The default encoder; it numbers the frames it renders.
pub struct DefaultAsciiEncoder {
    frame_count: u64,
}

/// `SystemTime::now` as milliseconds since the Unix epoch (zero for a
/// clock before it); it depends on the clock, and nothing is claimed of
/// it.
#[verifier::external_body]
fn unix_millis() -> u64 {
    std::time::SystemTime::now().duration_since(std::time::UNIX_EPOCH).unwrap_or_default().as_millis() as u64
}

impl DefaultAsciiEncoder {
    /// The number of frames rendered so far, which is the number of the
    /// last one.
    pub closed spec fn frames_rendered(&self) -> u64 {
        self.frame_count
    }

    /// An encoder that has rendered no frame yet.
    pub fn new() -> (r: DefaultAsciiEncoder)
        ensures
            r.frames_rendered() == 0,
    {
        DefaultAsciiEncoder { frame_count: 0 }
    }

    /// Renders a frame, stamped with the given time: the next frame number,
    /// 80 by 24 cells, and the rendering of each cell's average colour.
    pub fn encode_at(&mut self, raw_frame: &RawFrame, profile: RenderProfile, timestamp_ms: u64) -> (r:
        EncodedFrame)
        requires
            old(self).frames_rendered() < u64::MAX,
        ensures
            final(self).frames_rendered() == old(self).frames_rendered() + 1,
            r.frame_id == final(self).frames_rendered(),
            r.timestamp_ms == timestamp_ms,
            r.width_cells == 80,
            r.height_cells == 24,
            r.profile == profile,
            r.payload@ == frame_payload(*raw_frame, profile),
    {
        self.frame_count = self.frame_count + 1;
        let mut payload: Vec<u8> = Vec::new();
        let mut cy: u64 = 0;
        while cy < 24
            invariant
                cy <= 24,
                payload@ == rows_payload(*raw_frame, profile, cy as int),
            decreases 24 - cy,
        {
            let ghost before_row = payload@;
            let mut cx: u64 = 0;
            while cx < 80
                invariant
                    cx <= 80,
                    cy < 24,
                    payload@ == before_row + row_payload(*raw_frame, profile, cy as int, cx as int),
                decreases 80 - cx,
            {
                let (r, g, b) = cell_colour(raw_frame, cx, cy);
                push_cell(&mut payload, profile, r, g, b);
                assert(payload@ =~= before_row + row_payload(
                    *raw_frame,
                    profile,
                    cy as int,
                    cx + 1,
                ));
                cx = cx + 1;
            }
            payload.push(10u8);
            assert(payload@ =~= rows_payload(*raw_frame, profile, cy + 1));
            cy = cy + 1;
        }
        push_bytes(&mut payload, &[27u8, 91, 48, 109]);
        EncodedFrame {
            frame_id: self.frame_count,
            timestamp_ms,
            width_cells: 80,
            height_cells: 24,
            profile,
            payload,
        }
    }
}

impl AsciiEncoder for DefaultAsciiEncoder {
    type Error = String;

    /// Renders a frame stamped with the current time. Only an encoder that
    /// has numbered every frame it can refuses.
    fn encode(&mut self, raw_frame: &RawFrame, profile: RenderProfile) -> (r: Result<
        EncodedFrame,
        String,
    >)
        ensures
            match r {
                Ok(frame) => {
                    &&& old(self).frames_rendered() < u64::MAX
                    &&& final(self).frames_rendered() == old(self).frames_rendered() + 1
                    &&& frame.frame_id == final(self).frames_rendered()
                    &&& frame.width_cells == 80
                    &&& frame.height_cells == 24
                    &&& frame.profile == profile
                    &&& frame.payload@ == frame_payload(*raw_frame, profile)
                },
                Err(_) => old(self).frames_rendered() == u64::MAX && final(self).frames_rendered()
                    == old(self).frames_rendered(),
            },
    {
        if self.frame_count == u64::MAX {
            return Err(string_from("frame counter exhausted"));
        }
        let timestamp_ms = unix_millis();
        Ok(self.encode_at(raw_frame, profile, timestamp_ms))
    }
}

} // verus!
