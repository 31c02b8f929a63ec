use softrender::canvas::{Canvas, Rgb, Span};

const BLACK: Rgb = Rgb { r: 0, g: 0, b: 0 };
const RED: Rgb = Rgb { r: 255, g: 0, b: 0 };
const TEAL: Rgb = Rgb { r: 1, g: 128, b: 127 };

fn rows(canvas: &Canvas) -> Vec<Vec<Rgb>> {
    (0..canvas.get_height())
        .map(|y| (0..canvas.get_width()).map(|x| canvas.get_pixel(x, y).unwrap()).collect())
        .collect()
}

fn painted(canvas: &Canvas, color: Rgb) -> Vec<(u32, u32)> {
    let mut found = Vec::new();
    for y in 0..canvas.get_height() {
        for x in 0..canvas.get_width() {
            if canvas.get_pixel(x, y) == Some(color) {
                found.push((x, y));
            }
        }
    }
    found
}

#[test]
fn new_canvas_is_black_and_has_its_size() {
    let canvas = Canvas::new(5, 3);
    assert_eq!(canvas.get_width(), 5);
    assert_eq!(canvas.get_height(), 3);
    assert_eq!(rows(&canvas), vec![vec![BLACK; 5]; 3]);
}

#[test]
fn size_fits_up_to_the_limit_of_the_image() {
    assert!(Canvas::size_fits(0, 0));
    assert!(Canvas::size_fits(1024, 576));
    assert!(Canvas::size_fits(32766, 32766));
    assert!(Canvas::size_fits(0, 1_073_741_822));
    assert!(!Canvas::size_fits(0, 1_073_741_823));
    assert!(Canvas::size_fits(1_073_741_822, 0));
    assert!(!Canvas::size_fits(1_073_741_823, 0));
    assert!(!Canvas::size_fits(32767, 32767));
    assert!(!Canvas::size_fits(65536, 65536));
    assert!(!Canvas::size_fits(u32::MAX, u32::MAX));
}

#[test]
fn canvas_without_rows_or_columns_holds_nothing() {
    let mut canvas = Canvas::new(0, 4);
    assert_eq!((canvas.get_width(), canvas.get_height()), (0, 4));
    assert_eq!(canvas.get_pixel(0, 0), None);
    canvas.put_pixel(0, 0, RED);
    canvas.fill_span(1, -3, 3, RED);
    assert_eq!(canvas.visible_rows(-1, 9), Some((0, 3)));
    let mut canvas = Canvas::new(4, 0);
    assert_eq!((canvas.get_width(), canvas.get_height()), (4, 0));
    assert_eq!(canvas.get_pixel(0, 0), None);
    canvas.put_pixel(0, 0, RED);
    canvas.fill_span(0, 0, 3, RED);
    assert_eq!(canvas.visible_rows(-1, 9), None);
}

#[test]
fn get_pixel_outside_the_canvas_gives_none() {
    let canvas = Canvas::new(5, 3);
    assert_eq!(canvas.get_pixel(4, 2), Some(BLACK));
    assert_eq!(canvas.get_pixel(5, 2), None);
    assert_eq!(canvas.get_pixel(4, 3), None);
    assert_eq!(canvas.get_pixel(u32::MAX, u32::MAX), None);
}

#[test]
fn put_pixel_paints_one_pixel() {
    let mut canvas = Canvas::new(5, 3);
    canvas.put_pixel(1, 2, TEAL);
    assert_eq!(canvas.get_pixel(1, 2), Some(TEAL));
    assert_eq!(painted(&canvas, TEAL), vec![(1, 2)]);
    assert_eq!(painted(&canvas, BLACK).len(), 14);
    assert_eq!((canvas.get_width(), canvas.get_height()), (5, 3));
}

#[test]
fn put_pixel_outside_the_canvas_paints_nothing() {
    let mut canvas = Canvas::new(5, 3);
    canvas.put_pixel(5, 0, RED);
    canvas.put_pixel(0, 3, RED);
    canvas.put_pixel(7, 1, RED);
    canvas.put_pixel(u32::MAX, u32::MAX, RED);
    assert_eq!(rows(&canvas), vec![vec![BLACK; 5]; 3]);
}

#[test]
fn put_pixel_later_colour_stays() {
    let mut canvas = Canvas::new(2, 2);
    canvas.put_pixel(1, 0, RED);
    canvas.put_pixel(1, 0, TEAL);
    assert_eq!(canvas.get_pixel(1, 0), Some(TEAL));
}

#[test]
fn row_zero_is_the_bottom_row_of_the_image() {
    let mut canvas = Canvas::new(4, 3);
    canvas.put_pixel(1, 0, RED);
    canvas.put_pixel(3, 2, TEAL);
    let image = canvas.into_image();
    assert_eq!((image.get_width(), image.get_height()), (4, 3));
    assert_eq!(image.get_pixel(1, 2), bmp::Pixel::new(255, 0, 0));
    assert_eq!(image.get_pixel(3, 0), bmp::Pixel::new(1, 128, 127));
    let mut others = 0;
    for (x, y) in image.coordinates() {
        if (x, y) != (1, 2) && (x, y) != (3, 0) {
            assert_eq!(image.get_pixel(x, y), bmp::Pixel::new(0, 0, 0));
            others += 1;
        }
    }
    assert_eq!(others, 10);
}

#[test]
fn fill_span_paints_both_ends_and_what_lies_between() {
    let mut canvas = Canvas::new(8, 4);
    canvas.fill_span(2, 3, 5, RED);
    assert_eq!(painted(&canvas, RED), vec![(3, 2), (4, 2), (5, 2)]);
    canvas.fill_span(0, 6, 6, TEAL);
    assert_eq!(painted(&canvas, TEAL), vec![(6, 0)]);
}

#[test]
fn fill_span_is_cut_at_the_edges() {
    let mut canvas = Canvas::new(4, 2);
    canvas.fill_span(1, -5, 1, RED);
    assert_eq!(painted(&canvas, RED), vec![(0, 1), (1, 1)]);
    canvas.fill_span(0, 2, 40, RED);
    assert_eq!(painted(&canvas, RED), vec![(2, 0), (3, 0), (0, 1), (1, 1)]);
    canvas.fill_span(1, i64::MIN, i64::MAX, TEAL);
    assert_eq!(painted(&canvas, TEAL), vec![(0, 1), (1, 1), (2, 1), (3, 1)]);
}

#[test]
fn fill_span_with_left_above_right_paints_nothing() {
    let mut canvas = Canvas::new(6, 2);
    canvas.fill_span(1, 4, 3, RED);
    canvas.fill_span(0, 5, 0, RED);
    canvas.fill_span(0, i64::MAX, i64::MIN, RED);
    assert_eq!(painted(&canvas, RED), Vec::new());
}

#[test]
fn fill_span_beside_or_off_the_canvas_paints_nothing() {
    let mut canvas = Canvas::new(6, 2);
    canvas.fill_span(0, -9, -1, RED);
    canvas.fill_span(0, 6, 9, RED);
    canvas.fill_span(-1, 0, 5, RED);
    canvas.fill_span(2, 0, 5, RED);
    canvas.fill_span(i64::MIN, 0, 5, RED);
    canvas.fill_span(i64::MAX, 0, 5, RED);
    assert_eq!(painted(&canvas, RED), Vec::new());
}

#[test]
fn fill_spans_paints_row_upon_row() {
    let mut canvas = Canvas::new(5, 5);
    let spans = vec![
        Span { left: 0, right: 4 },
        Span { left: 1, right: 3 },
        Span { left: 2, right: 2 },
    ];
    canvas.fill_spans(1, &spans, RED);
    assert_eq!(
        painted(&canvas, RED),
        vec![(0, 1), (1, 1), (2, 1), (3, 1), (4, 1), (1, 2), (2, 2), (3, 2), (2, 3)]
    );
}

#[test]
fn fill_spans_skips_rows_below_and_above() {
    let mut canvas = Canvas::new(3, 2);
    let spans = vec![
        Span { left: 0, right: 2 },
        Span { left: 0, right: 0 },
        Span { left: 1, right: 1 },
        Span { left: 2, right: 2 },
        Span { left: 0, right: 2 },
    ];
    canvas.fill_spans(-2, &spans, RED);
    assert_eq!(painted(&canvas, RED), vec![(1, 0), (2, 1)]);
}

#[test]
fn fill_spans_wholly_above_or_below_paints_nothing() {
    let mut canvas = Canvas::new(3, 2);
    let spans = vec![Span { left: 0, right: 2 }, Span { left: 0, right: 2 }];
    canvas.fill_spans(2, &spans, RED);
    canvas.fill_spans(100, &spans, RED);
    canvas.fill_spans(-2, &spans, RED);
    canvas.fill_spans(-100, &spans, RED);
    canvas.fill_spans(i64::MAX, &spans, RED);
    canvas.fill_spans(i64::MIN, &spans, RED);
    assert_eq!(rows(&canvas), vec![vec![BLACK; 3]; 2]);
}

#[test]
fn fill_spans_with_no_span_paints_nothing() {
    let mut canvas = Canvas::new(3, 2);
    canvas.fill_spans(0, &Vec::new(), RED);
    assert_eq!(rows(&canvas), vec![vec![BLACK; 3]; 2]);
}

#[test]
fn fill_rows_asks_for_each_row_of_the_canvas_in_the_range() {
    let mut canvas = Canvas::new(6, 4);
    let asked = std::cell::RefCell::new(Vec::new());
    canvas.fill_rows(
        -2,
        2,
        |y| {
            asked.borrow_mut().push(y);
            Span { left: y as i64, right: 2 * y as i64 + 1 }
        },
        RED,
    );
    assert_eq!(*asked.borrow(), vec![0, 1, 2]);
    assert_eq!(
        painted(&canvas, RED),
        vec![(0, 0), (1, 0), (1, 1), (2, 1), (3, 1), (2, 2), (3, 2), (4, 2), (5, 2)]
    );
}

#[test]
fn fill_rows_includes_both_bounds_and_stops_at_the_top() {
    let mut canvas = Canvas::new(2, 5);
    canvas.fill_rows(3, 90, |_| Span { left: 0, right: 0 }, RED);
    assert_eq!(painted(&canvas, RED), vec![(0, 3), (0, 4)]);
    canvas.fill_rows(1, 1, |_| Span { left: 1, right: 1 }, TEAL);
    assert_eq!(painted(&canvas, TEAL), vec![(1, 1)]);
}

#[test]
fn fill_rows_outside_the_canvas_asks_nothing_and_paints_nothing() {
    let mut canvas = Canvas::new(3, 3);
    let never = |_: u32| -> Span { panic!("no row of the canvas is in the range") };
    canvas.fill_rows(3, 8, never, RED);
    canvas.fill_rows(-8, -1, never, RED);
    canvas.fill_rows(2, 1, never, RED);
    canvas.fill_rows(i64::MAX, i64::MIN, never, RED);
    canvas.fill_rows(i64::MIN, -1, never, RED);
    canvas.fill_rows(3, i64::MAX, never, RED);
    assert_eq!(rows(&canvas), vec![vec![BLACK; 3]; 3]);
}

#[test]
fn fill_rows_and_fill_spans_paint_the_same() {
    let spans = vec![
        Span { left: -1, right: 1 },
        Span { left: 4, right: 3 },
        Span { left: 2, right: 9 },
    ];
    let mut by_list = Canvas::new(5, 6);
    by_list.fill_spans(2, &spans, TEAL);
    let mut by_row = Canvas::new(5, 6);
    by_row.fill_rows(2, 4, |y| spans[y as usize - 2], TEAL);
    assert_eq!(rows(&by_list), rows(&by_row));
    assert_eq!(painted(&by_row, TEAL), vec![(0, 2), (1, 2), (2, 4), (3, 4), (4, 4)]);
}

#[test]
fn what_is_painted_later_covers_what_was_painted_before() {
    let mut canvas = Canvas::new(6, 1);
    canvas.fill_span(0, 0, 3, RED);
    canvas.fill_span(0, 2, 5, TEAL);
    assert_eq!(rows(&canvas), vec![vec![RED, RED, TEAL, TEAL, TEAL, TEAL]]);
    canvas.fill_span(0, 1, 2, BLACK);
    assert_eq!(rows(&canvas), vec![vec![RED, BLACK, BLACK, TEAL, TEAL, TEAL]]);
}

#[test]
fn visible_rows_are_the_rows_of_the_canvas_in_the_range() {
    let canvas = Canvas::new(3, 10);
    assert_eq!(canvas.visible_rows(2, 5), Some((2, 5)));
    assert_eq!(canvas.visible_rows(-4, 5), Some((0, 5)));
    assert_eq!(canvas.visible_rows(7, 50), Some((7, 9)));
    assert_eq!(canvas.visible_rows(i64::MIN, i64::MAX), Some((0, 9)));
    assert_eq!(canvas.visible_rows(9, 9), Some((9, 9)));
    assert_eq!(canvas.visible_rows(0, 0), Some((0, 0)));
}

#[test]
fn visible_rows_are_none_outside_the_canvas_or_in_an_empty_range() {
    let canvas = Canvas::new(3, 10);
    assert_eq!(canvas.visible_rows(10, 12), None);
    assert_eq!(canvas.visible_rows(-7, -1), None);
    assert_eq!(canvas.visible_rows(5, 4), None);
    assert_eq!(canvas.visible_rows(i64::MAX, i64::MIN), None);
}

/// The bounds of one scanline of a triangle in screen coordinates: the
/// leftmost and the rightmost crossing of the row with an edge that is not
/// level, each rounded to the pixel centres inside.
fn scanline(y: i64, corners: [(f32, f32); 3]) -> Span {
    let row = y as f32;
    let mut low = f32::INFINITY;
    let mut high = f32::NEG_INFINITY;
    for (p, q) in [(0, 1), (0, 2), (1, 2)] {
        let (p, q) = (corners[p], corners[q]);
        if (row - p.1) * (row - q.1) <= 0.0 && p.1 != q.1 {
            let x = q.0 + (p.0 - q.0) * (row - q.1) / (p.1 - q.1);
            low = low.min(x);
            high = high.max(x);
        }
    }
    Span { left: (low + 0.5).floor() as i64, right: (high - 0.5).floor() as i64 }
}

#[test]
fn right_triangle_rows_shrink_towards_the_top() {
    let corners = [(0.0, 0.0), (10.0, 0.0), (0.0, 10.0)];
    let spans: Vec<Span> = (0..=10).map(|y| scanline(y, corners)).collect();
    let mut canvas = Canvas::new(16, 16);
    canvas.fill_spans(0, &spans, RED);
    let mut widths = Vec::new();
    for y in 0..16 {
        let row: Vec<u32> = (0..16).filter(|x| canvas.get_pixel(*x, y) == Some(RED)).collect();
        if let (Some(first), Some(last)) = (row.first(), row.last()) {
            assert_eq!(*first, 0);
            assert_eq!(*last, 9 - y);
            assert_eq!(row.len() as u32, 10 - y);
        }
        widths.push(row.len());
    }
    assert_eq!(widths, vec![10, 9, 8, 7, 6, 5, 4, 3, 2, 1, 0, 0, 0, 0, 0, 0]);
}

#[test]
fn triangle_above_or_below_the_canvas_paints_nothing() {
    let mut canvas = Canvas::new(16, 16);
    for lift in [16.0f32, 400.0, -11.0, -400.0] {
        let corners = [(0.0, lift), (10.0, lift), (0.0, lift + 10.0)];
        let first = lift as i64;
        let spans: Vec<Span> = (first..=first + 10).map(|y| scanline(y, corners)).collect();
        assert_eq!(canvas.visible_rows(first, first + 10), None);
        canvas.fill_spans(first, &spans, RED);
    }
    assert_eq!(painted(&canvas, RED), Vec::new());
}

#[test]
fn same_strokes_give_the_same_image_bytes() {
    let paint = || {
        let mut canvas = Canvas::new(7, 5);
        canvas.fill_spans(
            1,
            &vec![Span { left: 0, right: 6 }, Span { left: 2, right: 4 }, Span { left: 3, right: 3 }],
            TEAL,
        );
        canvas.put_pixel(6, 4, RED);
        let mut bytes = Vec::new();
        canvas.into_image().to_writer(&mut bytes).unwrap();
        bytes
    };
    let first = paint();
    assert_eq!(&first[0..2], b"BM");
    assert_eq!(first, paint());
}
