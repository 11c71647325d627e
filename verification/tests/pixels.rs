use sprite_ed::draw::{draw_line, draw_rectangle, fill_rectangle, draw_horizontal_line};
use sprite_ed::ellipse::{border_ellipse, fill_ellipse, ellipse_fits_check};
use sprite_ed::fill::{flood_fill, floodFillGetColor};
use sprite_ed::sprite::Sprite;
use sprite_ed::transform::{flip_horizontal, flip_vertical, turn_left, turn_right};

fn painted(s: &Sprite, c: u32) -> Vec<(i32, i32)> {
    let mut v = Vec::new();
    for y in 0..s.get_height() {
        for x in 0..s.get_width() {
            if s.get_pixel(x, y) == c {
                v.push((x, y));
            }
        }
    }
    v
}

fn numbered(w: i32, h: i32) -> Sprite {
    let mut s = Sprite::new(w, h);
    for y in 0..h {
        for x in 0..w {
            s.set_color(x, y, (10 * y + x + 1) as u32);
        }
    }
    s
}

fn same(a: &Sprite, b: &Sprite) -> bool {
    if a.get_width() != b.get_width() || a.get_height() != b.get_height() {
        return false;
    }
    for y in 0..a.get_height() {
        for x in 0..a.get_width() {
            if a.get_pixel(x, y) != b.get_pixel(x, y) {
                return false;
            }
        }
    }
    true
}

#[test]
fn new_sprite_is_transparent() {
    let s = Sprite::new(3, 2);
    assert_eq!(s.get_width(), 3);
    assert_eq!(s.get_height(), 2);
    assert_eq!(painted(&s, 0).len(), 6);
}

#[test]
fn put_pixel_packs_channels() {
    let mut s = Sprite::new(4, 4);
    s.put_pixel(2, 1, 0x11, 0x22, 0x33, 0x44);
    assert_eq!(s.get_pixel(2, 1), 0x1122_3344);
    assert_eq!(painted(&s, 0).len(), 15);
    s.fill(7);
    assert_eq!(painted(&s, 7).len(), 16);
}

#[test]
fn copy_area_copies_a_block_that_fits() {
    let src = numbered(4, 3);
    let mut dest = Sprite::new(5, 5);
    src.copy_area(1, 1, 2, 2, &mut dest, 3, 0);
    assert_eq!(dest.get_pixel(3, 0), 12);
    assert_eq!(dest.get_pixel(4, 0), 13);
    assert_eq!(dest.get_pixel(3, 1), 22);
    assert_eq!(dest.get_pixel(4, 1), 23);
    assert_eq!(painted(&dest, 0).len(), 21);
}

#[test]
fn copy_area_that_does_not_fit_changes_nothing() {
    let src = numbered(4, 3);
    let mut dest = Sprite::new(5, 5);
    src.copy_area(1, 1, 2, 2, &mut dest, 4, 0);
    assert_eq!(painted(&dest, 0).len(), 25);
    src.copy_area(3, 0, 2, 1, &mut dest, 0, 0);
    assert_eq!(painted(&dest, 0).len(), 25);
    src.copy_area(-1, 0, 1, 1, &mut dest, 0, 0);
    assert_eq!(painted(&dest, 0).len(), 25);
}

#[test]
fn line_is_traced_by_bresenham() {
    let mut s = Sprite::new(5, 3);
    draw_line(&mut s, 0, 0, 4, 2, 7);
    assert_eq!(painted(&s, 7), vec![(0, 0), (1, 0), (2, 1), (3, 1), (4, 2)]);
}

#[test]
fn steep_line() {
    let mut s = Sprite::new(3, 5);
    draw_line(&mut s, 0, 0, 2, 4, 7);
    assert_eq!(painted(&s, 7), vec![(0, 0), (0, 1), (1, 2), (1, 3), (2, 4)]);
}

#[test]
fn line_from_either_end_is_the_same() {
    let mut a = Sprite::new(9, 7);
    let mut b = Sprite::new(9, 7);
    draw_line(&mut a, 1, 6, 8, 2, 3);
    draw_line(&mut b, 8, 2, 1, 6, 3);
    assert!(same(&a, &b));
    assert_eq!(a.get_pixel(1, 6), 3);
    assert_eq!(a.get_pixel(8, 2), 3);
}

#[test]
fn line_with_an_end_outside_draws_nothing() {
    let mut s = Sprite::new(4, 4);
    draw_line(&mut s, 0, 0, 4, 0, 7);
    assert_eq!(painted(&s, 0).len(), 16);
}

#[test]
fn rectangle_outline_and_fill() {
    let mut s = Sprite::new(5, 5);
    draw_rectangle(&mut s, 3, 3, 1, 1, 9);
    assert_eq!(painted(&s, 9).len(), 8);
    assert_eq!(s.get_pixel(2, 2), 0);
    assert_eq!(s.get_pixel(1, 3), 9);
    let mut f = Sprite::new(5, 5);
    fill_rectangle(&mut f, 1, 1, 3, 3, 9);
    assert_eq!(painted(&f, 9).len(), 9);
    assert_eq!(f.get_pixel(2, 2), 9);
    assert_eq!(f.get_pixel(0, 0), 0);
}

#[test]
fn single_pixel_rectangle_draws_nothing() {
    let mut s = Sprite::new(5, 5);
    draw_rectangle(&mut s, 2, 2, 2, 2, 9);
    fill_rectangle(&mut s, 2, 2, 2, 2, 9);
    assert_eq!(painted(&s, 9).len(), 0);
}

#[test]
fn horizontal_line_inclusive() {
    let mut s = Sprite::new(5, 2);
    draw_horizontal_line(&mut s, 1, 3, 1, 4);
    assert_eq!(painted(&s, 4), vec![(1, 1), (2, 1), (3, 1)]);
}

#[test]
fn flood_fill_stays_inside_its_region() {
    let mut s = Sprite::new(4, 4);
    for y in 0..4 {
        s.set_color(2, y, 9);
    }
    flood_fill(&mut s, 0, 0, 5);
    assert_eq!(painted(&s, 5).len(), 8);
    assert_eq!(painted(&s, 9).len(), 4);
    assert_eq!(painted(&s, 0), vec![(3, 0), (3, 1), (3, 2), (3, 3)]);
}

#[test]
fn flood_fill_goes_around_corners() {
    let mut s = Sprite::new(5, 4);
    for x in 0..4 {
        s.set_color(x, 1, 9);
    }
    for y in 1..4 {
        s.set_color(3, y, 9);
    }
    flood_fill(&mut s, 0, 3, 6);
    assert_eq!(painted(&s, 6), vec![(0, 2), (1, 2), (2, 2), (0, 3), (1, 3), (2, 3)]);
    flood_fill(&mut s, 4, 3, 2);
    assert_eq!(painted(&s, 2).len(), 8);
    assert_eq!(s.get_pixel(0, 0), 2);
}

#[test]
fn flood_fill_twice_is_flood_fill_once() {
    let mut a = numbered(4, 4);
    for y in 0..4 {
        for x in 0..2 {
            a.set_color(x, y, 0);
        }
    }
    flood_fill(&mut a, 1, 1, 8);
    let once = a.copy();
    flood_fill(&mut a, 1, 1, 8);
    assert!(same(&a, &once));
    assert_eq!(painted(&a, 8).len(), 8);
}

#[test]
fn flood_fill_with_the_same_colour_or_outside_changes_nothing() {
    let mut s = numbered(3, 3);
    let before = s.copy();
    flood_fill(&mut s, 1, 1, 12);
    assert!(same(&s, &before));
    flood_fill(&mut s, 3, 1, 5);
    flood_fill(&mut s, -1, 0, 5);
    assert!(same(&s, &before));
}

#[test]
fn flood_fill_get_color_reports_outside() {
    let s = numbered(3, 2);
    assert_eq!(floodFillGetColor(&s, 2, 1), (13, true));
    assert_eq!(floodFillGetColor(&s, 3, 1), (0, false));
    assert_eq!(floodFillGetColor(&s, 0, -1), (0, false));
}

#[test]
fn quarter_turns() {
    let s = numbered(3, 2);
    let l = turn_left(&s);
    assert_eq!((l.get_width(), l.get_height()), (2, 3));
    assert_eq!(l.get_pixel(0, 0), 3);
    assert_eq!(l.get_pixel(1, 0), 13);
    assert_eq!(l.get_pixel(0, 2), 1);
    assert_eq!(l.get_pixel(1, 2), 11);
    let r = turn_right(&s);
    assert_eq!((r.get_width(), r.get_height()), (2, 3));
    assert_eq!(r.get_pixel(0, 0), 11);
    assert_eq!(r.get_pixel(1, 0), 1);
    assert_eq!(r.get_pixel(0, 2), 13);
}

#[test]
fn turning_back_gives_the_sprite_back() {
    let s = numbered(4, 3);
    assert!(same(&turn_right(&turn_left(&s)), &s));
    assert!(same(&turn_left(&turn_right(&s)), &s));
    let four = turn_left(&turn_left(&turn_left(&turn_left(&s))));
    assert!(same(&four, &s));
}

#[test]
fn mirrors() {
    let s = numbered(3, 2);
    let mut h = Sprite::new(3, 2);
    flip_horizontal(&s, &mut h);
    assert_eq!(h.get_pixel(0, 0), 3);
    assert_eq!(h.get_pixel(2, 1), 11);
    let mut hh = Sprite::new(3, 2);
    flip_horizontal(&h, &mut hh);
    assert!(same(&hh, &s));
    let mut v = Sprite::new(3, 2);
    flip_vertical(&s, &mut v);
    assert_eq!(v.get_pixel(0, 0), 11);
    assert_eq!(v.get_pixel(2, 1), 3);
    let mut vv = Sprite::new(3, 2);
    flip_vertical(&v, &mut vv);
    assert!(same(&vv, &s));
}

#[test]
fn ellipse_outline_in_a_square() {
    let mut s = Sprite::new(9, 9);
    border_ellipse(&mut s, 0, 0, 8, 8, 1);
    let expected = vec![
        (3, 0), (4, 0), (5, 0), (1, 1), (2, 1), (6, 1), (7, 1), (1, 2), (7, 2), (0, 3), (8, 3), (0, 4), (8, 4),
        (0, 5), (8, 5), (1, 6), (7, 6), (1, 7), (2, 7), (6, 7), (7, 7), (3, 8), (4, 8), (5, 8),
    ];
    assert_eq!(painted(&s, 1), expected);
}

#[test]
fn ellipse_outline_in_a_flat_box() {
    let mut s = Sprite::new(9, 6);
    border_ellipse(&mut s, 1, 1, 7, 4, 1);
    let expected = vec![
        (2, 1), (3, 1), (4, 1), (5, 1), (6, 1), (1, 2), (7, 2), (1, 3), (7, 3), (2, 4), (3, 4), (4, 4), (5, 4), (6, 4),
    ];
    assert_eq!(painted(&s, 1), expected);
}

#[test]
fn filled_ellipse() {
    let mut s = Sprite::new(9, 6);
    fill_ellipse(&mut s, 1, 1, 7, 4, 2);
    assert_eq!(painted(&s, 2).len(), 24);
    assert_eq!(s.get_pixel(1, 1), 0);
    assert_eq!(s.get_pixel(4, 2), 2);
    let mut q = Sprite::new(9, 9);
    fill_ellipse(&mut q, 0, 0, 8, 8, 2);
    assert_eq!(painted(&q, 2).len(), 3 + 7 + 7 + 9 + 9 + 9 + 7 + 7 + 3);
}

#[test]
fn ellipse_is_symmetric_and_inside_its_box() {
    for &(l, t, r, b) in [(0, 0, 8, 8), (1, 1, 7, 4), (2, 0, 11, 9), (0, 3, 14, 5), (3, 2, 3, 10)].iter() {
        let mut s = Sprite::new(16, 12);
        border_ellipse(&mut s, l, t, r, b, 1);
        let mut f = Sprite::new(16, 12);
        fill_ellipse(&mut f, l, t, r, b, 1);
        for sp in [&s, &f].iter() {
            for (x, y) in painted(sp, 1) {
                assert!(l <= x && x <= r && t <= y && y <= b);
                assert_eq!(sp.get_pixel(l + r - x, y), 1);
                assert_eq!(sp.get_pixel(x, t + b - y), 1);
            }
        }
    }
}

#[test]
fn ellipse_in_a_wide_thin_box() {
    let mut s = Sprite::new(5001, 3);
    border_ellipse(&mut s, 0, 0, 5000, 2, 1);
    assert_eq!(s.get_pixel(0, 1), 1);
    assert_eq!(s.get_pixel(5000, 1), 1);
    assert_eq!(s.get_pixel(2500, 0), 1);
    assert_eq!(s.get_pixel(2500, 2), 1);
    assert_eq!(s.get_pixel(2500, 1), 0);
    let mut f = Sprite::new(5001, 3);
    fill_ellipse(&mut f, 0, 0, 5000, 2, 2);
    for x in 0..5001 {
        assert_eq!(f.get_pixel(x, 1), 2);
    }
}

#[test]
fn ellipse_set_up_must_fit_in_32_bits() {
    assert!(ellipse_fits_check(2500, 1));
    assert!(ellipse_fits_check(640, 640));
    assert!(!ellipse_fits_check(650, 650));
    assert!(!ellipse_fits_check(13378, 0));
    assert!(ellipse_fits_check(0, 16383));
    assert!(!ellipse_fits_check(0, 16384));
}

#[test]
fn line_has_one_pixel_per_major_step_without_gaps() {
    for &(x0, y0, x1, y1) in &[(0, 0, 7, 3), (6, 1, 0, 9), (2, 8, 9, 8), (5, 5, 5, 0), (9, 0, 0, 9)] {
        let mut s = Sprite::new(10, 10);
        draw_line(&mut s, x0, y0, x1, y1, 1);
        let steep = (y1 - y0).abs() > (x1 - x0).abs();
        let n = std::cmp::max((x1 - x0).abs(), (y1 - y0).abs());
        let mut pixels = Vec::new();
        for y in 0..10 {
            for x in 0..10 {
                if s.get_pixel(x, y) == 1 {
                    pixels.push((x, y));
                }
            }
        }
        assert_eq!(pixels.len() as i32, n + 1);
        pixels.sort_by_key(|&(x, y)| if steep { y } else { x });
        for w in pixels.windows(2) {
            let (a, b) = (w[0], w[1]);
            let (ma, mb) = if steep { (a.1, b.1) } else { (a.0, b.0) };
            assert_eq!(mb, ma + 1);
            assert!((b.0 - a.0).abs() <= 1 && (b.1 - a.1).abs() <= 1);
        }
        assert!(pixels.contains(&(x0, y0)) && pixels.contains(&(x1, y1)));
    }
}

#[test]
fn ellipse_whose_box_overhangs_the_sprite() {
    let mut s = Sprite::new(3, 2);
    border_ellipse(&mut s, 0, -1, 2, 1, 1);
    assert_eq!((s.get_pixel(0, 0), s.get_pixel(1, 0), s.get_pixel(2, 0)), (1, 1, 1));
    assert_eq!((s.get_pixel(0, 1), s.get_pixel(1, 1), s.get_pixel(2, 1)), (0, 0, 0));
    let mut f = Sprite::new(3, 2);
    fill_ellipse(&mut f, 0, -1, 2, 1, 2);
    assert_eq!((f.get_pixel(0, 0), f.get_pixel(1, 0), f.get_pixel(2, 0)), (2, 2, 2));
    assert_eq!((f.get_pixel(0, 1), f.get_pixel(1, 1), f.get_pixel(2, 1)), (0, 0, 0));
}

#[test]
fn filled_rows_are_single_centred_spans_and_the_middle_row_is_full() {
    for &(l, t, r, b) in &[(0, 0, 8, 8), (1, 1, 7, 4), (0, 2, 11, 9), (2, 0, 5, 11)] {
        let mut f = Sprite::new(12, 12);
        fill_ellipse(&mut f, l, t, r, b, 1);
        for y in 0..12 {
            let xs: Vec<i32> = (0..12).filter(|&x| f.get_pixel(x, y) == 1).collect();
            if let (Some(&first), Some(&last)) = (xs.first(), xs.last()) {
                assert_eq!(xs.len() as i32, last - first + 1);
                assert_eq!(first - l, r - last);
            }
        }
        let mid = t + (b - t) / 2;
        for x in l..=r {
            assert_eq!(f.get_pixel(x, mid), 1);
        }
        let mut s = Sprite::new(12, 12);
        border_ellipse(&mut s, l, t, r, b, 1);
        assert_eq!((s.get_pixel(l, mid), s.get_pixel(r, mid)), (1, 1));
    }
}
