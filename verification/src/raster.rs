//! The rasterizer: walks a decoded pixel grid at a stride derived from the
//! scale factor, quantizes each sampled pixel's intensity, and assembles the
//! output grid of ramp glyphs, one output row per pixel row.

use vstd::prelude::*;
use vstd::arithmetic::div_mod::lemma_fundamental_div_mod_converse;
use crate::pixel::Pixel;
use crate::pixel::spec_intensity;
use crate::ramp::get_str_ascii;
use crate::ramp::glyph_seq;
use crate::ramp::lemma_glyph_len;
use crate::ramp::ramp_index;

verus! {

/// Why a rendering call failed.
#[derive(Clone, Copy, Debug, PartialEq, Eq, Structural)]
pub enum AsciiError {
    /// The image could not be decoded (missing, unreadable, or unsupported).
    DecodeError,
    /// The scale was zero, which would make the sampling stride degenerate.
    InvalidScale,
}

/// A decoded image: dimensions plus row-major pixel rows.
pub struct PixelGrid {
    pub width: u32,
    pub height: u32,
    pub rows: Vec<Vec<Pixel>>,
}

/// The stated dimensions agree with the pixel rows: one row per unit of
/// height, each holding one pixel per unit of width.
pub open spec fn dims_match(width: int, height: int, rows: Seq<Vec<Pixel>>) -> bool {
    &&& rows.len() == height
    &&& forall|i: int| 0 <= i < rows.len() ==> (#[trigger] rows[i])@.len() == width
}

/// How many coordinates in [0, width) are divisible by the scale: the
/// ceiling of width / scale.
pub open spec fn sample_count(width: int, scale: int) -> int {
    if scale >= 1 {
        (width + scale - 1) / scale
    } else {
        0
    }
}

impl PixelGrid {
    /// Well-formedness: the dimensions agree with the stored rows.
    pub open spec fn wf(&self) -> bool {
        dims_match(self.width as int, self.height as int, self.rows@)
    }

    /// The pixel rows as a mathematical sequence of sequences.
    pub open spec fn pixels(&self) -> Seq<Seq<Pixel>> {
        self.rows@.map(|i: int, row: Vec<Pixel>| row@)
    }

    /// Builds a grid after checking that the rows fill the stated
    /// dimensions exactly; rejects mismatched input.
    pub fn new(width: u32, height: u32, rows: Vec<Vec<Pixel>>) -> (res: Option<PixelGrid>)
        ensures
            res is Some <==> dims_match(width as int, height as int, rows@),
            res is Some ==> res->Some_0 == (PixelGrid { width, height, rows }),
            res is Some ==> res->Some_0.wf(),
    {
        if rows.len() != height as usize {
            return None;
        }
        let mut i: usize = 0;
        while i < rows.len()
            invariant
                i <= rows.len(),
                forall|k: int| 0 <= k < i ==> (#[trigger] rows@[k])@.len() == width as int,
            decreases rows.len() - i,
        {
            if rows[i].len() != width as usize {
                return None;
            }
            i += 1;
        }
        Some(PixelGrid { width, height, rows })
    }
}

/// What one output row must hold. A row at a vertical coordinate divisible
/// by twice the scale is sampled: it carries the ramp glyph of every pixel
/// whose horizontal coordinate is divisible by the scale, in increasing
/// order, then one empty terminator entry. Every other row is empty.
pub open spec fn row_ok(pr: Seq<Pixel>, y: int, scale: int, out: Seq<Seq<char>>) -> bool {
    if y % (2 * scale) == 0 {
        &&& out.len() == sample_count(pr.len() as int, scale) + 1
        &&& out[out.len() - 1] == Seq::<char>::empty()
        &&& forall|j: int|
            0 <= j < out.len() - 1 ==> #[trigger] out[j] == glyph_seq(
                ramp_index(spec_intensity(pr[j * scale])),
            )
    } else {
        out.len() == 0
    }
}

/// What the whole output grid must hold: one output row per pixel row,
/// each as `row_ok` demands.
pub open spec fn grid_ok(pixels: Seq<Seq<Pixel>>, scale: int, out: Seq<Seq<Seq<char>>>) -> bool {
    &&& out.len() == pixels.len()
    &&& forall|y: int| 0 <= y < pixels.len() ==> row_ok(#[trigger] pixels[y], y, scale, out[y])
}

/// When the walk reaches a coordinate divisible by the scale, the next
/// sample position is exactly that coordinate.
proof fn lemma_sample_hit(x: int, c: int, s: int)
    by (nonlinear_arith)
    requires
        s >= 1,
        0 <= x,
        0 <= c,
        x % s == 0,
        x <= c * s,
        c * s < x + s,
    ensures
        c * s == x,
{
}

/// When the walk reaches a coordinate not divisible by the scale, the next
/// sample position lies strictly beyond it.
proof fn lemma_sample_miss(x: int, c: int, s: int)
    by (nonlinear_arith)
    requires
        s >= 1,
        0 <= x,
        0 <= c,
        x % s != 0,
        x <= c * s,
        c * s < x + s,
    ensures
        x + 1 <= c * s,
{
}

/// A walk that sampled c positions over a full row of width w took the
/// ceiling of w / s samples.
proof fn lemma_sample_count_exit(w: int, c: int, s: int)
    requires
        s >= 1,
        0 <= w,
        0 <= c,
        w <= c * s,
        c * s < w + s,
    ensures
        c == sample_count(w, s),
{
    lemma_fundamental_div_mod_converse(w + s - 1, s, c, w + s - 1 - c * s);
}

/// Renders a decoded pixel grid as text-mode art. A zero scale is rejected
/// before any pixel is touched; any positive scale yields a grid with one
/// output row per pixel row, whose contents `grid_ok` pins down exactly.
pub fn get_image(img: &PixelGrid, scale: u32) -> (res: Result<Vec<Vec<&'static str>>, AsciiError>)
    requires
        img.wf(),
    ensures
        res is Ok <==> scale >= 1,
        res is Err ==> res->Err_0 == AsciiError::InvalidScale,
        res is Ok ==> res->Ok_0@.len() == img.height as int,
        res is Ok ==> grid_ok(img.pixels(), scale as int, res->Ok_0.deep_view()),
{
    if scale == 0 {
        return Err(AsciiError::InvalidScale);
    }
    let stride: u64 = (scale as u64) * 2;
    let mut canvas: Vec<Vec<&'static str>> = Vec::new();
    let mut y: usize = 0;
    while y < img.rows.len()
        invariant
            img.wf(),
            scale >= 1,
            stride == 2 * (scale as u64),
            y <= img.rows.len(),
            canvas@.len() == y as int,
            forall|i: int|
                0 <= i < y as int ==> row_ok(
                    img.pixels()[i],
                    i,
                    scale as int,
                    #[trigger] canvas@[i].deep_view(),
                ),
        decreases img.rows.len() - y,
    {
        let pixrow: &Vec<Pixel> = &img.rows[y];
        proof {
            assert(img.pixels()[y as int] == pixrow@);
        }
        let mut row: Vec<&'static str> = Vec::new();
        if (y as u64) % stride == 0 {
            proof {
                let c: int = row@.len() as int;
                let s: int = scale as int;
                assert(c * s == 0) by (nonlinear_arith)
                    requires
                        c == 0,
                ;
            }
            let mut x: usize = 0;
            while x < pixrow.len()
                invariant
                    scale >= 1,
                    x <= pixrow.len(),
                    x as int <= row@.len() * (scale as int),
                    row@.len() * (scale as int) < x as int + scale as int,
                    forall|j: int|
                        0 <= j < row@.len() as int ==> #[trigger] row@[j]@ == glyph_seq(
                            ramp_index(spec_intensity(pixrow@[j * (scale as int)])),
                        ),
                decreases pixrow.len() - x,
            {
                if (x as u64) % (scale as u64) == 0 {
                    proof {
                        lemma_sample_hit(x as int, row@.len() as int, scale as int);
                    }
                    let ghost c0: int = row@.len() as int;
                    let ghost r0: Seq<&'static str> = row@;
                    let pix = pixrow[x];
                    let mut intent: u8 = pix.r / 3 + pix.g / 3 + pix.b / 3;
                    if pix.a == 0 {
                        intent = 0;
                    }
                    row.push(get_str_ascii(intent));
                    proof {
                        let s: int = scale as int;
                        assert(c0 * s == x as int);
                        assert((c0 + 1) * s == c0 * s + s) by (nonlinear_arith);
                        assert(pix == pixrow@[c0 * s]);
                        assert(intent as int == spec_intensity(pixrow@[c0 * s]));
                        assert forall|j: int| 0 <= j < row@.len() as int implies #[trigger] row@[j]@
                            == glyph_seq(
                            ramp_index(spec_intensity(pixrow@[j * (scale as int)])),
                        ) by {
                            if j == c0 {
                                assert(j * (scale as int) == c0 * s);
                                assert(row@[j]@ == glyph_seq(
                                    ramp_index(spec_intensity(pixrow@[c0 * s])),
                                ));
                            } else {
                                assert(r0[j]@ == glyph_seq(
                                    ramp_index(spec_intensity(pixrow@[j * (scale as int)])),
                                ));
                                assert(row@[j] == r0[j]);
                            }
                        }
                    }
                } else {
                    proof {
                        lemma_sample_miss(x as int, row@.len() as int, scale as int);
                    }
                }
                x += 1;
            }
            proof {
                lemma_sample_count_exit(pixrow@.len() as int, row@.len() as int, scale as int);
            }
            row.push("");
            proof {
                reveal_strlit("");
                assert(""@ =~= Seq::<char>::empty());
                assert(row.deep_view().len() == sample_count(pixrow@.len() as int, scale as int) + 1);
                assert(row_ok(pixrow@, y as int, scale as int, row.deep_view()));
            }
        } else {
            proof {
                assert(row_ok(pixrow@, y as int, scale as int, row.deep_view()));
            }
        }
        canvas.push(row);
        y += 1;
    }
    proof {
        assert forall|i: int| 0 <= i < img.pixels().len() implies row_ok(
            img.pixels()[i],
            i,
            scale as int,
            canvas.deep_view()[i],
        ) by {
            assert(canvas.deep_view()[i] == canvas@[i].deep_view());
        }
    }
    Ok(canvas)
}

/// Rendering is a pure function of the pixel grid and the scale: any two
/// grids that satisfy the output description for the same input are equal.
pub proof fn lemma_grid_unique(
    pixels: Seq<Seq<Pixel>>,
    scale: int,
    a: Seq<Seq<Seq<char>>>,
    b: Seq<Seq<Seq<char>>>,
)
    requires
        grid_ok(pixels, scale, a),
        grid_ok(pixels, scale, b),
    ensures
        a == b,
{
    assert forall|y: int| 0 <= y < a.len() implies a[y] == b[y] by {
        assert(row_ok(pixels[y], y, scale, a[y]));
        assert(row_ok(pixels[y], y, scale, b[y]));
        if y % (2 * scale) == 0 {
            assert forall|j: int| 0 <= j < a[y].len() implies a[y][j] == b[y][j] by {
                if j < a[y].len() - 1 {
                    assert(a[y][j] == glyph_seq(ramp_index(spec_intensity(pixels[y][j * scale]))));
                    assert(b[y][j] == glyph_seq(ramp_index(spec_intensity(pixels[y][j * scale]))));
                }
            }
            assert(a[y] =~= b[y]);
        } else {
            assert(a[y] =~= b[y]);
        }
    }
    assert(a =~= b);
}

/// Each sampled output row ends with exactly one empty entry: the
/// terminator is empty, and every glyph before it is a single character.
pub proof fn lemma_row_terminator(pr: Seq<Pixel>, y: int, scale: int, out: Seq<Seq<char>>)
    requires
        scale >= 1,
        y % (2 * scale) == 0,
        row_ok(pr, y, scale, out),
    ensures
        out.len() == sample_count(pr.len() as int, scale) + 1,
        out[out.len() - 1].len() == 0,
        forall|j: int| 0 <= j < out.len() - 1 ==> #[trigger] out[j].len() == 1,
{
    assert forall|j: int| 0 <= j < out.len() - 1 implies #[trigger] out[j].len() == 1 by {
        lemma_glyph_len(ramp_index(spec_intensity(pr[j * scale])));
    }
}

/// At the finest scale, a sampled row carries one glyph for every pixel.
pub proof fn lemma_scale_one_samples_all(w: int)
    requires
        0 <= w,
    ensures
        sample_count(w, 1) == w,
{
}

} // verus!
