//! The pixel sink: a raster whose row 0 is the bottom row, filled one
//! pixel or one horizontal span at a time.

use vstd::prelude::*;
use crate::bitmap::{
    image_fits, image_get_pixel, image_height, image_pixels, image_set_pixel, image_width,
};

verus! {

/// The colour of one pixel, eight bits for each channel.
#[derive(Clone, Copy, Debug, PartialEq, Eq, Structural)]
pub struct Rgb {
    pub r: u8,
    pub g: u8,
    pub b: u8,
}

/// The colour that a new canvas is filled with.
pub open spec fn black() -> Rgb {
    Rgb { r: 0, g: 0, b: 0 }
}

/// A raster of `height` rows of `width` black pixels each.
pub open spec fn blank(width: nat, height: nat) -> Seq<Seq<Rgb>> {
    Seq::new(height, |y: int| Seq::new(width, |x: int| black()))
}

/// A row after the columns from `left` to `right`, both included, have
/// taken `color`. Columns that the row does not have are passed over.
pub open spec fn painted_row(row: Seq<Rgb>, left: int, right: int, color: Rgb) -> Seq<Rgb> {
    Seq::new(
        row.len(),
        |x: int|
            if left <= x <= right {
                color
            } else {
                row[x]
            },
    )
}

/// The columns of one row that lie between two bounds, both included.
/// With `left` above `right` it holds no column.
#[derive(Clone, Copy, Debug, PartialEq, Eq, Structural)]
pub struct Span {
    pub left: i64,
    pub right: i64,
}

/// A raster after the rows from `first_row` upwards have been painted, each
/// over its own span: row `first_row` over the first span, the row above it
/// over the second, and so on. Rows that the raster does not have are
/// passed over.
pub open spec fn painted_rows(rows: Seq<Seq<Rgb>>, first_row: int, spans: Seq<Span>, color: Rgb) -> Seq<
    Seq<Rgb>,
> {
    Seq::new(
        rows.len(),
        |y: int|
            if first_row <= y < first_row + spans.len() {
                painted_row(
                    rows[y],
                    spans[y - first_row].left as int,
                    spans[y - first_row].right as int,
                    color,
                )
            } else {
                rows[y]
            },
    )
}

/// Row `y` was painted over a span that `span_of` gave for it.
pub open spec fn painted_as_told<F: Fn(u32) -> Span>(
    span_of: F,
    y: int,
    before: Seq<Rgb>,
    after: Seq<Rgb>,
    color: Rgb,
) -> bool {
    exists|span: Span|
        #[trigger] span_of.ensures((y as u32,), span) && after == painted_row(
            before,
            span.left as int,
            span.right as int,
            color,
        )
}

/// A raster of pixels with a fixed size. Seen as a sequence of rows from
/// the bottom row up, each row a sequence of colours from left to right.
pub struct Canvas {
    image: bmp::Image,
}

impl View for Canvas {
    type V = Seq<Seq<Rgb>>;

    closed spec fn view(&self) -> Seq<Seq<Rgb>> {
        let height = image_height(self.image);
        Seq::new(
            height as nat,
            |y: int|
                Seq::new(
                    image_width(self.image) as nat,
                    |x: int|
                        {
                            let (r, g, b) = image_pixels(self.image)[(x, height - 1 - y)];
                            Rgb { r, g, b }
                        },
                ),
        )
    }
}

impl Canvas {
    #[verifier::type_invariant]
    closed spec fn inv(&self) -> bool {
        forall|x: int, y: int|
            0 <= x < image_width(self.image) && 0 <= y < image_height(self.image)
                ==> #[trigger] image_pixels(self.image).dom().contains((x, y))
    }

    /// The number of columns.
    pub closed spec fn width(&self) -> nat {
        image_width(self.image) as nat
    }

    /// The number of rows.
    pub closed spec fn height(&self) -> nat {
        image_height(self.image) as nat
    }

    /// The sizes that a canvas can have.
    pub open spec fn fits(width: u32, height: u32) -> bool {
        image_fits(width, height)
    }

    /// The canvas has `height()` rows of `width()` pixels each.
    pub proof fn lemma_shape(&self)
        ensures
            self@.len() == self.height(),
            forall|y: int| 0 <= y < self.height() ==> (#[trigger] self@[y]).len() == self.width(),
    {
    }

    /// Whether a canvas can have the given size.
    pub fn size_fits(width: u32, height: u32) -> (fits: bool)
        ensures
            fits == Canvas::fits(width, height),
    {
        let columns = width as u128;
        let rows = height as u128;
        assert(4 * (columns + 1) * (rows + 1) <= 0x4_0000_0000_0000_0000_0000 && 3 * columns
            * rows <= 0x3_0000_0000_0000_0000) by (nonlinear_arith)
            requires
                columns <= 0xffff_ffff,
                rows <= 0xffff_ffff,
        ;
        4 * (columns + 1) * (rows + 1) <= u32::MAX as u128 && 3 * columns * rows
            <= isize::MAX as u128
    }

    /// A black canvas of the given size.
    pub fn new(width: u32, height: u32) -> (canvas: Canvas)
        requires
            Canvas::fits(width, height),
        ensures
            canvas.width() == width,
            canvas.height() == height,
            canvas@ == blank(width as nat, height as nat),
    {
        let canvas = Canvas { image: bmp::Image::new(width, height) };
        assert(canvas@ =~~= blank(width as nat, height as nat));
        canvas
    }

    /// The number of columns.
    pub fn get_width(&self) -> (width: u32)
        ensures
            width == self.width(),
    {
        self.image.get_width()
    }

    /// The number of rows.
    pub fn get_height(&self) -> (height: u32)
        ensures
            height == self.height(),
    {
        self.image.get_height()
    }

    /// The colour at column `x` of row `y`, counted from the bottom left;
    /// none outside the canvas.
    pub fn get_pixel(&self, x: u32, y: u32) -> (color: Option<Rgb>)
        ensures
            color == if x < self.width() && y < self.height() {
                Some(self@[y as int][x as int])
            } else {
                None
            },
    {
        proof {
            use_type_invariant(self);
        }
        let width = self.image.get_width();
        let height = self.image.get_height();
        if x < width && y < height {
            Some(image_get_pixel(&self.image, x, height - 1 - y))
        } else {
            None
        }
    }

    /// Gives the pixel at column `x` of row `y`, counted from the bottom
    /// left, the colour `color`. Outside the canvas nothing is painted.
    pub fn put_pixel(&mut self, x: u32, y: u32, color: Rgb)
        ensures
            final(self).width() == old(self).width(),
            final(self).height() == old(self).height(),
            final(self)@ == if x < old(self).width() && y < old(self).height() {
                old(self)@.update(y as int, old(self)@[y as int].update(x as int, color))
            } else {
                old(self)@
            },
    {
        proof {
            use_type_invariant(&*self);
        }
        let width = self.image.get_width();
        let height = self.image.get_height();
        if x < width && y < height {
            image_set_pixel(&mut self.image, x, height - 1 - y, color);
            assert(self@ =~~= old(self)@.update(
                y as int,
                old(self)@[y as int].update(x as int, color),
            ));
        }
    }

    /// Paints row `y` from column `left` to column `right`, both included.
    /// What lies outside the canvas is passed over, and with `left` above
    /// `right` nothing is painted.
    pub fn fill_span(&mut self, y: i64, left: i64, right: i64, color: Rgb)
        ensures
            final(self).width() == old(self).width(),
            final(self).height() == old(self).height(),
            final(self)@ == if 0 <= y < old(self).height() {
                old(self)@.update(
                    y as int,
                    painted_row(old(self)@[y as int], left as int, right as int, color),
                )
            } else {
                old(self)@
            },
    {
        let width = self.get_width();
        let height = self.get_height();
        if y < 0 || y >= height as i64 {
            return ;
        }
        if width == 0 || right < 0 || left >= width as i64 || left > right {
            assert(self@ =~~= self@.update(
                y as int,
                painted_row(self@[y as int], left as int, right as int, color),
            ));
            return ;
        }
        let row = y as u32;
        let first: u32 = if left < 0 {
            0
        } else {
            left as u32
        };
        let last: u32 = if right >= width as i64 {
            width - 1
        } else {
            right as u32
        };
        let mut x: u32 = first;
        assert(self@ =~~= self@.update(
            row as int,
            painted_row(self@[row as int], first as int, first - 1, color),
        ));
        while x <= last
            invariant
                first <= x <= last + 1,
                last < width,
                width == self.width(),
                row < self.height(),
                self.width() == old(self).width(),
                self.height() == old(self).height(),
                self@ == old(self)@.update(
                    row as int,
                    painted_row(old(self)@[row as int], first as int, x - 1, color),
                ),
            decreases last + 1 - x,
        {
            self.put_pixel(x, row, color);
            assert(self@ =~~= old(self)@.update(
                row as int,
                painted_row(old(self)@[row as int], first as int, x as int, color),
            ));
            x += 1;
        }
        assert(self@ =~~= old(self)@.update(
            y as int,
            painted_row(old(self)@[y as int], left as int, right as int, color),
        ));
    }

    /// Paints the rows from `first_row` upwards, each over its own span:
    /// row `first_row` over the first span, the row above it over the
    /// second, and so on. What lies outside the canvas is passed over.
    pub fn fill_spans(&mut self, first_row: i64, spans: &Vec<Span>, color: Rgb)
        ensures
            final(self).width() == old(self).width(),
            final(self).height() == old(self).height(),
            final(self)@ == painted_rows(old(self)@, first_row as int, spans@, color),
    {
        let height = self.get_height();
        let mut k: usize = 0;
        while k < spans.len()
            invariant
                k <= spans@.len(),
                height == self.height(),
                self.width() == old(self).width(),
                self.height() == old(self).height(),
                self@ == painted_rows(old(self)@, first_row as int, spans@.take(k as int), color),
            decreases spans@.len() - k,
        {
            let y: i128 = first_row as i128 + k as i128;
            if y >= height as i128 {
                assert(self@ =~~= painted_rows(old(self)@, first_row as int, spans@, color));
                return ;
            }
            if 0 <= y {
                let span = spans[k];
                self.fill_span(y as i64, span.left, span.right, color);
            }
            assert(self@ =~~= painted_rows(
                old(self)@,
                first_row as int,
                spans@.take(k + 1),
                color,
            ));
            k += 1;
        }
        assert(spans@.take(k as int) =~= spans@);
    }

    /// Paints the rows from `min_y` to `max_y`, both included, each over
    /// the span that `span_of` gives for it. `span_of` is asked for the
    /// rows of the canvas only, from the lowest up, once for each; rows
    /// outside the canvas are passed over.
    pub fn fill_rows<F: Fn(u32) -> Span>(&mut self, min_y: i64, max_y: i64, span_of: F, color: Rgb)
        requires
            forall|y: u32| y < old(self).height() ==> span_of.requires((y,)),
        ensures
            final(self).width() == old(self).width(),
            final(self).height() == old(self).height(),
            forall|y: int|
                0 <= y < old(self).height() && min_y <= y <= max_y ==> #[trigger] painted_as_told(
                    span_of,
                    y,
                    old(self)@[y],
                    final(self)@[y],
                    color,
                ),
            forall|y: int|
                0 <= y < old(self).height() && !(min_y <= y <= max_y)
                    ==> #[trigger] final(self)@[y] == old(self)@[y],
            max_y < 0 || min_y >= old(self).height() || min_y > max_y ==> final(self)@ == old(
                self,
            )@,
    {
        let (low, high) = match self.visible_rows(min_y, max_y) {
            Some(rows) => rows,
            None => {
                return ;
            },
        };
        let mut y: u32 = low;
        while y <= high
            invariant
                low <= y <= high + 1,
                high < self.height(),
                self.width() == old(self).width(),
                self.height() == old(self).height(),
                forall|row: u32| row < old(self).height() ==> span_of.requires((row,)),
                forall|row: int|
                    low <= row < y ==> #[trigger] painted_as_told(
                        span_of,
                        row,
                        old(self)@[row],
                        self@[row],
                        color,
                    ),
                forall|row: int|
                    0 <= row < old(self).height() && !(low <= row < y) ==> #[trigger] self@[row]
                        == old(self)@[row],
            decreases high + 1 - y,
        {
            let span = span_of(y);
            let ghost before = self@;
            proof {
                self.lemma_shape();
            }
            self.fill_span(y as i64, span.left, span.right, color);
            proof {
                assert(before[y as int] == old(self)@[y as int]);
                assert(self@[y as int] == painted_row(
                    before[y as int],
                    span.left as int,
                    span.right as int,
                    color,
                ));
                assert(span_of.ensures(((y as int) as u32,), span));
                assert(painted_as_told(
                    span_of,
                    y as int,
                    old(self)@[y as int],
                    self@[y as int],
                    color,
                ));
                assert forall|row: int| low <= row < y + 1 implies #[trigger] painted_as_told(
                    span_of,
                    row,
                    old(self)@[row],
                    self@[row],
                    color,
                ) by {
                    if row < y {
                        assert(self@[row] == before[row]);
                        assert(painted_as_told(span_of, row, old(self)@[row], before[row], color));
                    }
                }
            }
            y += 1;
        }
    }

    /// The rows of the canvas among the rows from `min_y` to `max_y`, both
    /// included: the lowest and the highest of them, or none where the
    /// canvas has no row in that range.
    pub fn visible_rows(&self, min_y: i64, max_y: i64) -> (rows: Option<(u32, u32)>)
        ensures
            rows is Some <==> min_y <= max_y && 0 <= max_y && min_y < self.height() && 0
                < self.height(),
            rows matches Some((low, high)) ==> {
                &&& low == if min_y < 0 {
                    0
                } else {
                    min_y as int
                }
                &&& high == if max_y >= self.height() {
                    self.height() - 1
                } else {
                    max_y as int
                }
                &&& low <= high < self.height()
            },
    {
        let height = self.get_height();
        if height == 0 || min_y > max_y || max_y < 0 || min_y >= height as i64 {
            return None;
        }
        let low: u32 = if min_y < 0 {
            0
        } else {
            min_y as u32
        };
        let high: u32 = if max_y >= height as i64 {
            height - 1
        } else {
            max_y as u32
        };
        Some((low, high))
    }

    /// Gives up the canvas for the image that holds its pixels. The image
    /// counts rows from the top, so that row `y` of the canvas is its row
    /// `height - 1 - y`.
    pub fn into_image(self) -> (image: bmp::Image)
        ensures
            image_width(image) == self.width(),
            image_height(image) == self.height(),
            forall|x: int, y: int|
                0 <= x < self.width() && 0 <= y < self.height() ==> {
                    let color = self@[y][x];
                    #[trigger] image_pixels(image)[(x, self.height() - 1 - y)] == (
                        color.r,
                        color.g,
                        color.b,
                    )
                },
    {
        self.image
    }
}

} // verus!
