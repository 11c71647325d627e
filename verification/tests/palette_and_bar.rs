use sprite_ed::palette::PaletteDatas;
use sprite_ed::sprite::Sprite;
use sprite_ed::sprites_bar::SpritesBarDatas;

fn shown_palette() -> PaletteDatas {
    let mut p = PaletteDatas::new();
    p.constructed();
    p.compute_cell_size(344, 28);
    p
}

fn lines(v: &[&str]) -> Vec<String> {
    v.iter().map(|s| s.to_string()).collect()
}

#[test]
fn palette_defaults() {
    let p = PaletteDatas::new();
    assert_eq!((p.nb_columns, p.nb_rows, p.cell_size), (14, 2, 12));
    assert!(p.colors.is_empty());
    assert_eq!(p.get_foreground_color(), 0x0000FFFF);
    assert_eq!(p.get_background_color(), 0);
}

#[test]
fn palette_presets() {
    let mut p = PaletteDatas::new();
    p.constructed();
    assert_eq!((p.nb_columns, p.nb_rows), (32, 2));
    assert_eq!(p.colors.len(), 64);
    assert_eq!(p.get_cell_color(0), 0x00000000);
    assert_eq!(p.get_cell_color(1), 0x000000FF);
    assert_eq!(p.get_cell_color(2), 0xFFFFFFFF);
    assert_eq!(p.get_cell_color(6), 0xFF0000FF);
    assert_eq!(p.get_cell_color(10), 0x00FF00FF);
    assert_eq!(p.get_cell_color(15), 0xFF00FFFF);
    assert_eq!(p.get_cell_color(16), 0xE0E0E0FF);
    assert_eq!(p.get_cell_color(63), 0xE0E0E0FF);
}

#[test]
fn palette_cell_size() {
    let p = shown_palette();
    assert_eq!(p.cell_size, 10);
    let mut q = shown_palette();
    q.compute_cell_size(1000, 20);
    assert_eq!(q.cell_size, 8);
}

#[test]
fn palette_cell_under_the_pointer() {
    let p = shown_palette();
    assert!(p.in_colors_zone(21, 19));
    assert!(!p.in_colors_zone(20, 5));
    assert!(!p.in_colors_zone(30, 20));
    assert_eq!(p.mouse_to_color_index(35, 5), 1);
    assert_eq!(p.mouse_to_color_index(35, 15), 33);
    assert_eq!(p.mouse_to_color(85, 5), 0xFF0000FF);
}

#[test]
fn palette_click_sets_the_foreground() {
    let mut p = shown_palette();
    let ev = p.button_press_event(false, 1, 35, 5);
    assert!(ev.queue_draw);
    assert_eq!(ev.color_changed, Some((0x000000FF, 0)));
    assert_eq!(ev.choose_color, None);
    assert_eq!(p.get_foreground_color(), 0x000000FF);
}

#[test]
fn palette_click_beside_the_cells_swaps_the_colours() {
    let mut p = shown_palette();
    p.set_background_color(0x11, false);
    let ev = p.button_press_event(false, 1, 5, 5);
    assert_eq!(ev.color_changed, Some((0x11, 0x0000FFFF)));
    assert_eq!(p.get_foreground_color(), 0x11);
    assert_eq!(p.get_background_color(), 0x0000FFFF);
}

#[test]
fn palette_right_click_sets_the_background() {
    let mut p = shown_palette();
    let ev = p.button_press_event(false, 3, 85, 5);
    assert_eq!(ev.color_changed, Some((0x0000FFFF, 0xFF0000FF)));
    assert_eq!(p.get_background_color(), 0xFF0000FF);
    let ev = p.button_press_event(false, 3, 5, 5);
    assert!(!ev.queue_draw);
    assert_eq!(ev.color_changed, None);
    assert_eq!(p.get_background_color(), 0xFF0000FF);
}

#[test]
fn palette_double_click_chooses_a_colour() {
    let mut p = shown_palette();
    let ev = p.button_press_event(true, 1, 35, 15);
    assert_eq!(ev.choose_color, Some(33));
    assert_eq!(ev.color_changed, None);
    assert_eq!(p.get_foreground_color(), 0x0000FFFF);
    let ev = p.button_press_event(true, 1, 5, 5);
    assert_eq!(ev.choose_color, None);
}

#[test]
fn palette_presses_that_cannot_be_handled() {
    let p = shown_palette();
    assert!(p.press_fits(false, 1, 35, 5));
    assert!(!p.press_fits(false, 1, 700, 5));
    assert!(p.press_fits(true, 1, 700, 5));
    assert!(p.press_fits(false, 2, 700, 5));
}

#[test]
fn palette_setters_and_signals() {
    let mut p = shown_palette();
    assert_eq!(p.set_foreground_color(5, true), Some((5, 0)));
    assert_eq!(p.set_background_color(6, false), None);
    assert_eq!(p.set_background_color(7, true), Some((5, 7)));
    p.set_cell_color(40, 0x123);
    assert_eq!(p.get_cell_color(40), 0x123);
}

#[test]
fn palette_file_values() {
    let mut p = PaletteDatas::new();
    p.constructed();
    let v = p.save_colors();
    assert_eq!(v.len(), 66);
    assert_eq!(v[0], 0x0000FFFF);
    assert_eq!(v[1], 0);
    assert_eq!(v[2], 0);
    assert_eq!(v[8], 0xFF0000FF);
    assert_eq!(v[65], 0xE0E0E0FF);
}

#[test]
fn palette_file_reads_trimmed_decimal_lines() {
    let mut p = PaletteDatas::new();
    p.constructed();
    let r = p.load_colors(&lines(&[" 255\t", "+16", "1", "  2  "]));
    assert_eq!(r, Ok(()));
    assert_eq!(p.get_foreground_color(), 255);
    assert_eq!(p.get_background_color(), 16);
    assert_eq!(p.get_cell_color(0), 1);
    assert_eq!(p.get_cell_color(1), 2);
    assert_eq!(p.get_cell_color(2), 0xFFFFFFFF);
}

#[test]
fn palette_file_stops_at_a_bad_line() {
    let mut p = PaletteDatas::new();
    p.constructed();
    assert_eq!(p.load_colors(&lines(&["12", "abc", "3"])), Err(1));
    assert_eq!(p.get_foreground_color(), 12);
    assert_eq!(p.get_background_color(), 0);
    assert_eq!(p.get_cell_color(0), 0);
    let mut q = PaletteDatas::new();
    q.constructed();
    assert_eq!(q.load_colors(&lines(&["4294967296"])), Err(0));
    assert_eq!(q.load_colors(&lines(&["4294967295", ""])), Err(1));
    assert_eq!(q.get_foreground_color(), u32::MAX);
    assert_eq!(q.load_colors(&lines(&["-1"])), Err(0));
    assert_eq!(q.load_colors(&lines(&["1 2"])), Err(0));
}

#[test]
fn palette_file_line_without_a_cell() {
    let mut p = PaletteDatas::new();
    p.constructed();
    p.colors = vec![9];
    assert_eq!(p.load_colors(&lines(&["1", "2", "3", "4"])), Err(3));
    assert_eq!(p.colors, vec![3]);
}

#[test]
fn palette_file_ignores_lines_past_the_last_cell() {
    let mut p = PaletteDatas::new();
    p.constructed();
    let mut v: Vec<String> = (0..66).map(|i| (i + 100).to_string()).collect();
    v.push("not a colour".to_string());
    assert_eq!(p.load_colors(&v), Ok(()));
    assert_eq!(p.get_foreground_color(), 100);
    assert_eq!(p.get_cell_color(63), 165);
}

#[test]
fn palette_file_round_trip() {
    let mut p = PaletteDatas::new();
    p.constructed();
    p.set_foreground_color(0xDEAD_BEEF, false);
    p.set_cell_color(17, 42);
    let text: Vec<String> = p.save_colors().iter().map(|c| c.to_string()).collect();
    let mut q = PaletteDatas::new();
    q.constructed();
    assert_eq!(q.load_colors(&text), Ok(()));
    assert_eq!(q.get_foreground_color(), 0xDEAD_BEEF);
    assert_eq!(q.get_background_color(), p.get_background_color());
    assert_eq!(q.colors, p.colors);
}

#[test]
fn sprites_bar_starts_on_the_first_sprite() {
    let b = SpritesBarDatas::new();
    let s = b.get_sprite();
    assert_eq!((s.get_width(), s.get_height()), (32, 32));
    assert_eq!(b.get_file_name(), "");
    assert_eq!(b.save_sprite(), None);
}

#[test]
fn sprites_bar_click_selects_a_row() {
    let mut b = SpritesBarDatas::new();
    b.constructed();
    assert_eq!(b.button_press_event(10, 130), Some(2));
    assert_eq!(b.button_press_event(10, 140), None);
    assert_eq!(b.button_press_event(70, 10), None);
    assert_eq!(b.button_press_event(10, 600), None);
    assert_eq!(b.button_press_event(10, -5), Some(0));
    assert_eq!(b.button_press_event(63, 511), Some(7));
}

#[test]
fn sprites_bar_keeps_a_sprite_and_a_name_per_row() {
    let mut b = SpritesBarDatas::new();
    let mut s = Sprite::new(4, 4);
    s.fill(3);
    assert_eq!(b.load_sprite(s, "one.png"), 0);
    assert_eq!(b.get_file_name(), "one.png");
    assert_eq!(b.save_sprite(), Some("one.png".to_string()));
    b.button_press_event(0, 64);
    assert_eq!(b.get_file_name(), "");
    assert_eq!(b.new_sprite(16, 8), 1);
    assert_eq!((b.get_sprite().get_width(), b.get_sprite().get_height()), (16, 8));
    b.save_as_sprite("two.png");
    assert_eq!(b.save_sprite(), Some("two.png".to_string()));
    b.button_press_event(0, 0);
    assert_eq!(b.get_sprite().get_pixel(3, 3), 3);
    assert_eq!(b.get_file_name(), "one.png");
    let mut t = Sprite::new(2, 2);
    t.fill(9);
    b.set_sprite(t);
    assert_eq!(b.get_sprite().get_pixel(1, 1), 9);
    assert_eq!(b.get_file_name(), "one.png");
}

#[test]
fn two_clicks_beside_the_cells_swap_back() {
    let mut p = shown_palette();
    p.set_background_color(0x42, false);
    p.button_press_event(false, 1, 3, 3);
    p.button_press_event(false, 1, 3, 3);
    assert_eq!(p.get_foreground_color(), 0x0000FFFF);
    assert_eq!(p.get_background_color(), 0x42);
}

#[test]
fn a_click_on_a_drawn_cell_picks_it() {
    let p = shown_palette();
    let c = p.cell_size;
    for row in 0..2 {
        for col in 0..32 {
            for &(dx, dy) in [(0, 0), (c - 1, c - 1), (3, 7)].iter() {
                let (mx, my) = ((col + 2) * c + 4 + dx, row * c + 4 + dy);
                assert_eq!(p.mouse_to_color_index(mx, my), (col + row * 32) as usize);
            }
        }
    }
}

#[test]
fn file_name_stays_until_load_new_or_another_slot() {
    let mut b = SpritesBarDatas::new();
    b.save_as_sprite("a.png");
    b.set_sprite(Sprite::new(4, 4));
    assert_eq!(b.button_press_event(100, 10), None);
    assert_eq!(b.button_press_event(10, 10), None);
    b.constructed();
    assert_eq!(b.get_file_name(), "a.png");
    assert_eq!(b.button_press_event(10, 70), Some(1));
    assert_eq!(b.get_file_name(), "");
    b.load_sprite(Sprite::new(2, 2), "b.png");
    assert_eq!(b.get_file_name(), "b.png");
    b.new_sprite(8, 8);
    assert_eq!(b.get_file_name(), "");
    assert_eq!(b.button_press_event(10, 10), Some(0));
    assert_eq!(b.get_file_name(), "a.png");
}
