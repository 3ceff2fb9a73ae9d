//! Drawing on the linear framebuffer: which pixels a shape covers.
use vstd::prelude::*;

verus! {

/// One pixel write: the pixel at column `x`, row `y` gets `color`.
#[derive(Debug, Clone, Copy, PartialEq, Eq, Structural)]
pub struct PixelWrite {
    pub x: u32,
    pub y: u32,
    pub color: u32,
}

/// A color as red, green and blue components.
#[derive(Debug, Clone, Copy, PartialEq, Eq, Structural)]
pub struct Color(pub u8, pub u8, pub u8);

impl Color {
    /// The color with the given components.
    pub fn new(red: u8, green: u8, blue: u8) -> (r: Self)
        ensures
            r == Color(red, green, blue),
    {
        Self(red, green, blue)
    }
}

/// Byte offset of pixel (`x`, `y`) in a framebuffer of `pitch` bytes per row
/// and four bytes per pixel.
pub fn pixel_offset(x: u32, y: u32, pitch: u64) -> (r: u64)
    requires
        y * pitch + x * 4 <= u64::MAX,
    ensures
        r == y * pitch + x * 4,
{
    proof {
        assert(0 <= y * pitch) by (nonlinear_arith);
    }
    y as u64 * pitch + x as u64 * 4
}

/// The pixel writes of a filled rectangle, column by column: for each
/// column from `x`, each row from `y`.
pub open spec fn rect_writes(x: u32, y: u32, width: u32, height: u32, color: u32) -> Seq<PixelWrite> {
    Seq::new(
        (width * height) as nat,
        |k: int| PixelWrite { x: (x + k / (height as int)) as u32, y: (y + k % (height as int)) as u32, color },
    )
}

/// Fills the `width` by `height` rectangle whose top-left pixel is (`x`, `y`)
/// with `color`; returns the pixel writes in the order they are made.
pub fn put_rect(x: u32, y: u32, width: u32, height: u32, color: u32) -> (r: Vec<PixelWrite>)
    requires
        width > 0 && height > 0 ==> x + width - 1 <= u32::MAX && y + height - 1 <= u32::MAX,
        width * height <= usize::MAX,
    ensures
        r@ == rect_writes(x, y, width, height, color),
{
    let mut out: Vec<PixelWrite> = Vec::new();
    let mut ix: u32 = 0;
    while ix < width
        invariant
            ix <= width,
            width > 0 && height > 0 ==> x + width - 1 <= u32::MAX && y + height - 1 <= u32::MAX,
            out@ == rect_writes(x, y, ix, height, color),
        decreases width - ix,
    {
        let mut iy: u32 = 0;
        while iy < height
            invariant
                ix < width,
                iy <= height,
                height > 0 ==> x + width - 1 <= u32::MAX && y + height - 1 <= u32::MAX,
                out@ == rect_writes(x, y, ix, height, color) + Seq::new(
                    iy as nat,
                    |j: int| PixelWrite { x: (x + ix) as u32, y: (y + j) as u32, color },
                ),
            decreases height - iy,
        {
            out.push(PixelWrite { x: x + ix, y: y + iy, color });
            iy = iy + 1;
            proof {
                assert(out@ =~= rect_writes(x, y, ix, height, color) + Seq::new(
                    iy as nat,
                    |j: int| PixelWrite { x: (x + ix) as u32, y: (y + j) as u32, color },
                ));
            }
        }
        proof {
            lemma_rect_step(x, y, ix, height, color);
        }
        ix = ix + 1;
    }
    out
}

/// Adding a column to a rectangle appends that column's writes.
proof fn lemma_rect_step(x: u32, y: u32, w: u32, height: u32, color: u32)
    requires
        w < u32::MAX,
    ensures
        rect_writes(x, y, (w + 1) as u32, height, color) =~= rect_writes(x, y, w, height, color) + Seq::new(
            height as nat,
            |j: int| PixelWrite { x: (x + w) as u32, y: (y + j) as u32, color },
        ),
{
    let h = height as int;
    let lhs = rect_writes(x, y, (w + 1) as u32, height, color);
    let rhs = rect_writes(x, y, w, height, color) + Seq::new(
        height as nat,
        |j: int| PixelWrite { x: (x + w) as u32, y: (y + j) as u32, color },
    );
    assert((w + 1) * h == w * h + h) by (nonlinear_arith);
    assert forall|k: int| 0 <= k < lhs.len() implies #[trigger] lhs[k] == rhs[k] by {
        if k >= w * h && h > 0 {
            vstd::arithmetic::div_mod::lemma_fundamental_div_mod(k, h);
            assert(k / h == w && k % h == k - w * h) by (nonlinear_arith)
                requires
                    w * h <= k < w * h + h,
                    k == h * (k / h) + k % h,
                    0 <= k % h < h,
            ;
        }
    }
}

/// The pixel writes of the line from (`x1`, `y1`) towards (`x2`, `y2`): for
/// each column from `x1` up to but not including `x2`, the row `y1` plus the
/// whole-number slope times the distance from `x1`.
pub open spec fn line_writes(x1: u32, y1: u32, x2: u32, y2: u32, color: u32) -> Seq<PixelWrite> {
    let m = (y2 - y1) / (x2 - x1);
    Seq::new((x2 - x1) as nat, |k: int| PixelWrite { x: (x1 + k) as u32, y: (m * k + y1) as u32, color })
}

/// Draws the line from (`x1`, `y1`) towards (`x2`, `y2`) in `color` with a
/// whole-number slope; returns the pixel writes in the order they are made.
pub fn put_line(x1: u32, y1: u32, x2: u32, y2: u32, color: u32) -> (r: Vec<PixelWrite>)
    requires
        x1 < x2,
        y1 <= y2,
    ensures
        r@ == line_writes(x1, y1, x2, y2, color),
{
    let dx = x2 - x1;
    let dy = y2 - y1;
    let m = dy / dx;
    let mut out: Vec<PixelWrite> = Vec::new();
    let mut x = x1;
    while x < x2
        invariant
            x1 <= x <= x2,
            x1 < x2,
            y1 <= y2,
            dx == x2 - x1,
            dy == y2 - y1,
            m == dy / dx,
            out@ == line_writes(x1, y1, x2, y2, color).subrange(0, x - x1),
        decreases x2 - x,
    {
        proof {
            assert(m * (x - x1) <= dy) by (nonlinear_arith)
                requires
                    m == dy / dx,
                    0 <= x - x1 < dx,
                    dx > 0,
                    dy >= 0,
            {
                vstd::arithmetic::div_mod::lemma_fundamental_div_mod(dy as int, dx as int);
            }
        }
        let y = m * (x - x1) + y1;
        out.push(PixelWrite { x, y, color });
        x = x + 1;
        proof {
            assert(out@ =~= line_writes(x1, y1, x2, y2, color).subrange(0, x - x1));
        }
    }
    proof {
        assert(out@ =~= line_writes(x1, y1, x2, y2, color));
    }
    out
}

} // verus!
