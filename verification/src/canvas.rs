//! The framebuffer: a grid of pixels with a text (PPM) serialisation.
//!
//! The grid is stored row by row, indexed by `(column, row)` with row 0 at
//! the top. `to_ppm` renders the plain-text PPM form: the header
//! `P3\n<width> <height>\n255\n`, then one `red green blue` line per pixel
//! in row-major order. The text is specified character by character through
//! [`decimal`], the usual decimal notation.

use vstd::prelude::*;
use vstd::string::{StrSliceExecFns, StringExecFns};

verus! {

/// One image pixel: three 8-bit colour channels.
#[derive(Debug, Clone, Copy, PartialEq, Eq, Structural)]
pub struct Pixel {
    pub red: u8,
    pub green: u8,
    pub blue: u8,
}

/// The decimal digit `d` (at most 9) as a character.
pub open spec fn digit_char(d: nat) -> char {
    if d == 0 {
        '0'
    } else if d == 1 {
        '1'
    } else if d == 2 {
        '2'
    } else if d == 3 {
        '3'
    } else if d == 4 {
        '4'
    } else if d == 5 {
        '5'
    } else if d == 6 {
        '6'
    } else if d == 7 {
        '7'
    } else if d == 8 {
        '8'
    } else {
        '9'
    }
}

/// The decimal text of `n`: most significant digit first, no sign, no
/// leading zeroes, a single `'0'` for zero.
pub open spec fn decimal(n: nat) -> Seq<char>
    decreases n,
{
    if n < 10 {
        seq![digit_char(n)]
    } else {
        decimal(n / 10).push(digit_char(n % 10))
    }
}

/// The decimal digit `d` as a one-character string slice.
fn digit_str(d: usize) -> (s: &'static str)
    requires
        d < 10,
    ensures
        s@ == seq![digit_char(d as nat)],
{
    let digits: &'static str = "0123456789";
    proof {
        reveal_strlit("0123456789");
    }
    let s: &'static str = digits.substring_ascii(d, d + 1);
    proof {
        assert(s@ =~= seq![digit_char(d as nat)]);
    }
    s
}

/// Append the decimal text of `n` to `out`.
fn push_decimal(out: &mut String, n: usize)
    ensures
        final(out)@ == old(out)@ + decimal(n as nat),
    decreases n,
{
    if n < 10 {
        out.append(digit_str(n));
    } else {
        proof {
            assert(n / 10 < n && n % 10 < 10) by (nonlinear_arith)
                requires
                    n >= 10,
            ;
        }
        push_decimal(out, n / 10);
        out.append(digit_str(n % 10));
        proof {
            assert(decimal(n as nat) =~= decimal((n / 10) as nat) + seq![
                digit_char((n % 10) as nat),
            ]);
            assert(old(out)@ + decimal((n / 10) as nat) + seq![digit_char((n % 10) as nat)] =~= old(
                out,
            )@ + decimal(n as nat));
        }
    }
}

/// The text of one pixel: the three channels in decimal, space-separated.
pub open spec fn pixel_text(p: Pixel) -> Seq<char> {
    decimal(p.red as nat) + seq![' '] + decimal(p.green as nat) + seq![' '] + decimal(p.blue as nat)
}

impl Pixel {
    pub fn new(red: u8, green: u8, blue: u8) -> (p: Pixel)
        ensures
            p == (Pixel { red: red, green: green, blue: blue }),
    {
        Pixel { red: red, green: green, blue: blue }
    }

    /// The pixel as text: `red green blue` in decimal.
    pub fn to_string(&self) -> (s: String)
        ensures
            s@ == pixel_text(*self),
    {
        let mut s: String = String::new();
        push_decimal(&mut s, self.red as usize);
        s.append(" ");
        push_decimal(&mut s, self.green as usize);
        s.append(" ");
        push_decimal(&mut s, self.blue as usize);
        proof {
            reveal_strlit(" ");
            assert(" "@ =~= seq![' ']);
            assert(s@ =~= pixel_text(*self));
        }
        s
    }
}

/// The text of one row of pixels: one [`pixel_text`] line per pixel, each
/// terminated by a newline.
pub open spec fn row_text(row: Seq<Pixel>) -> Seq<char>
    decreases row.len(),
{
    if row.len() == 0 {
        Seq::empty()
    } else {
        row_text(row.drop_last()) + pixel_text(row.last()) + seq!['\n']
    }
}

/// The text of the whole grid: its rows' text, top row first.
pub open spec fn rows_text(rows: Seq<Seq<Pixel>>) -> Seq<char>
    decreases rows.len(),
{
    if rows.len() == 0 {
        Seq::empty()
    } else {
        rows_text(rows.drop_last()) + row_text(rows.last())
    }
}

/// The PPM header for a `width x height` image with a maximum channel
/// value of 255.
pub open spec fn ppm_header(width: nat, height: nat) -> Seq<char> {
    seq!['P', '3', '\n'] + decimal(width) + seq![' '] + decimal(height) + seq!['\n'] + decimal(255)
        + seq!['\n']
}

/// A grid of pixels, indexed by `(column, row)`, row 0 at the top.
#[derive(Debug)]
pub struct Canvas {
    pub width: usize,
    pub height: usize,
    pub pixels: Vec<Vec<Pixel>>,
}

impl Canvas {
    /// The grid as a sequence of rows of pixels.
    pub open spec fn rows(self) -> Seq<Seq<Pixel>> {
        Seq::new(self.pixels@.len(), |y: int| self.pixels@[y]@)
    }

    /// The pixel at column `x` of row `y`.
    pub open spec fn pixel_at(self, x: int, y: int) -> Pixel {
        self.rows()[y][x]
    }

    /// The grid really is `width x height`.
    pub open spec fn wf(self) -> bool {
        &&& self.pixels@.len() == self.height
        &&& forall|y: int| 0 <= y < self.height ==> (#[trigger] self.pixels@[y])@.len()
            == self.width
    }

    /// A fresh canvas of the given size, every pixel black.
    pub fn new(width: usize, height: usize) -> (c: Canvas)
        ensures
            c.wf(),
            c.width == width,
            c.height == height,
            forall|x: int, y: int|
                0 <= x < width && 0 <= y < height ==> c.pixel_at(x, y) == (Pixel {
                    red: 0,
                    green: 0,
                    blue: 0,
                }),
    {
        let mut pixels: Vec<Vec<Pixel>> = Vec::new();
        let mut y: usize = 0;
        while y < height
            invariant
                y <= height,
                pixels@.len() == y,
                forall|yy: int| 0 <= yy < y ==> (#[trigger] pixels@[yy])@.len() == width,
                forall|xx: int, yy: int|
                    0 <= xx < width && 0 <= yy < y ==> #[trigger] pixels@[yy]@[xx] == (Pixel {
                        red: 0,
                        green: 0,
                        blue: 0,
                    }),
            decreases height - y,
        {
            let mut row: Vec<Pixel> = Vec::new();
            let mut x: usize = 0;
            while x < width
                invariant
                    x <= width,
                    row@.len() == x,
                    forall|xx: int|
                        0 <= xx < x ==> #[trigger] row@[xx] == (Pixel {
                            red: 0,
                            green: 0,
                            blue: 0,
                        }),
                decreases width - x,
            {
                row.push(Pixel { red: 0, green: 0, blue: 0 });
                x = x + 1;
            }
            pixels.push(row);
            y = y + 1;
        }
        Canvas { width: width, height: height, pixels: pixels }
    }

    /// Read the pixel at column `x` of row `y`.
    pub fn get_pixel(&self, x: usize, y: usize) -> (p: Pixel)
        requires
            self.wf(),
            x < self.width,
            y < self.height,
        ensures
            p == self.pixel_at(x as int, y as int),
    {
        self.pixels[y][x]
    }

    /// Overwrite the pixel at column `x` of row `y`; every other pixel and
    /// the dimensions stay as they were.
    pub fn set_pixel(&mut self, x: usize, y: usize, pixel: Pixel)
        requires
            old(self).wf(),
            x < old(self).width,
            y < old(self).height,
        ensures
            final(self).wf(),
            final(self).width == old(self).width,
            final(self).height == old(self).height,
            final(self).pixel_at(x as int, y as int) == pixel,
            forall|xx: int, yy: int|
                0 <= xx < final(self).width && 0 <= yy < final(self).height && !(xx == x && yy == y)
                    ==> final(self).pixel_at(xx, yy) == old(self).pixel_at(xx, yy),
    {
        self.pixels[y][x] = pixel;
    }

    /// The whole canvas as plain-text PPM: the header, then one
    /// `red green blue` line per pixel in row-major order.
    pub fn to_ppm(&self) -> (s: String)
        requires
            self.wf(),
        ensures
            s@ == ppm_header(self.width as nat, self.height as nat) + rows_text(self.rows()),
    {
        let ghost header: Seq<char> = ppm_header(self.width as nat, self.height as nat);
        let mut s: String = String::new();
        s.append("P3\n");
        push_decimal(&mut s, self.width);
        s.append(" ");
        push_decimal(&mut s, self.height);
        s.append("\n");
        push_decimal(&mut s, 255);
        s.append("\n");
        proof {
            reveal_strlit("P3\n");
            reveal_strlit(" ");
            reveal_strlit("\n");
            assert("P3\n"@ =~= seq!['P', '3', '\n']);
            assert(" "@ =~= seq![' ']);
            assert("\n"@ =~= seq!['\n']);
            assert(s@ =~= header);
        }
        let mut y: usize = 0;
        while y < self.height
            invariant
                self.wf(),
                y <= self.height,
                header == ppm_header(self.width as nat, self.height as nat),
                s@ == header + rows_text(self.rows().take(y as int)),
            decreases self.height - y,
        {
            let mut x: usize = 0;
            while x < self.width
                invariant
                    self.wf(),
                    y < self.height,
                    x <= self.width,
                    header == ppm_header(self.width as nat, self.height as nat),
                    s@ == header + rows_text(self.rows().take(y as int)) + row_text(
                        self.rows()[y as int].take(x as int),
                    ),
                decreases self.width - x,
            {
                let p: Pixel = self.get_pixel(x, y);
                let line: String = p.to_string();
                s.append(line.as_str());
                s.append("\n");
                proof {
                    reveal_strlit("\n");
                    assert("\n"@ =~= seq!['\n']);
                    let row: Seq<Pixel> = self.rows()[y as int];
                    assert(row.take(x + 1).drop_last() =~= row.take(x as int));
                    assert(row.take(x + 1).last() == p);
                    assert(s@ =~= header + rows_text(self.rows().take(y as int)) + row_text(
                        row.take(x + 1),
                    ));
                }
                x = x + 1;
            }
            proof {
                let rows: Seq<Seq<Pixel>> = self.rows();
                assert(rows[y as int].take(self.width as int) =~= rows[y as int]);
                assert(rows.take(y + 1).drop_last() =~= rows.take(y as int));
                assert(rows.take(y + 1).last() == rows[y as int]);
                assert(s@ =~= header + rows_text(rows.take(y + 1)));
            }
            y = y + 1;
        }
        proof {
            assert(self.rows().take(self.height as int) =~= self.rows());
        }
        s
    }
}

} // verus!
