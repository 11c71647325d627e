use sprite_ed::edit_area::{EditAreaDatas, EditMode, UndoMode};
use sprite_ed::select_rect::SelectRect;
use sprite_ed::sprite::Sprite;
use sprite_ed::tools::EditEvent;

/// The widget position of the middle of cell `c` for a fresh editing area
/// (cells of 10 pixels, grid 4 pixels in from the origin).
fn at(c: i32) -> i32 {
    4 + 10 * c + 5
}

fn count(s: &Sprite, c: u32) -> usize {
    let mut n = 0;
    for y in 0..s.get_height() {
        for x in 0..s.get_width() {
            if s.get_pixel(x, y) == c {
                n += 1;
            }
        }
    }
    n
}

fn same(a: &Sprite, b: &Sprite) -> bool {
    if a.get_width() != b.get_width() || a.get_height() != b.get_height() {
        return false;
    }
    for y in 0..a.get_height() {
        for x in 0..a.get_width() {
            if a.get_pixel(x, y) != b.get_pixel(x, y) {
                return false;
            }
        }
    }
    true
}

fn quiet(ev: &EditEvent) -> bool {
    !ev.queue_draw && ev.edit_changed == 0 && ev.pick_foreground.is_none() && ev.pick_background.is_none() && !ev.left_clicked
}

#[test]
fn fresh_editing_area() {
    let e = EditAreaDatas::new();
    assert_eq!(e.nb_pixs_columns, 32);
    assert_eq!(e.nb_pixs_rows, 32);
    assert_eq!(e.cell_size, 10);
    assert_eq!(e.foreground_color, 0x00FF00FF);
    assert_eq!(e.background_color, 0);
    assert_eq!((e.last_pixel_x, e.last_pixel_y), (-1, -1));
    assert!(e.mode == EditMode::SELECT);
    assert!(e.undo_mode == UndoMode::NONE);
    assert_eq!(count(e.get_sprite(), 0), 32 * 32);
}

#[test]
fn pointer_to_cell_and_back() {
    let e = EditAreaDatas::new();
    assert_eq!(e.mouse_to_pixel(4, 4), (0, 0));
    assert_eq!(e.mouse_to_pixel(13, 14), (0, 1));
    assert_eq!(e.mouse_to_pixel(at(7), at(2)), (7, 2));
    assert_eq!(e.mouse_to_pixel(0, -20), (0, -2));
    assert_eq!(e.pixel_to_mouse(7, 2), (74, 24));
    for x in 0..6 {
        let (mx, _) = e.pixel_to_mouse(x, 0);
        for d in 0..10 {
            assert_eq!(e.mouse_to_pixel(mx as i32 + d, 4).0, x);
        }
    }
    assert!(e.in_edit_area(0, 31));
    assert!(!e.in_edit_area(32, 0));
    assert!(!e.in_edit_area(-1, 0));
}

#[test]
fn base_cell_size_fits_the_widget() {
    let e = EditAreaDatas::new();
    assert_eq!(e.base_cell_size(644, 484), 15);
    assert_eq!(e.base_cell_size(324, 1000), 10);
}

#[test]
fn pencil_draws_and_undo_restores() {
    let mut e = EditAreaDatas::new();
    e.set_pencil_mode();
    let before = e.get_sprite().copy();
    let ev = e.button_press_event(1, false, false, at(2), at(3));
    assert!(ev.queue_draw);
    assert_eq!(ev.edit_changed, 1);
    assert_eq!(e.get_sprite().get_pixel(2, 3), 0x00FF00FF);
    assert!(e.undo_mode == UndoMode::PENCIL);
    let ev = e.motion_notify_event(true, false, false, false, at(3), at(3));
    assert_eq!(ev.edit_changed, 1);
    assert_eq!(e.get_sprite().get_pixel(3, 3), 0x00FF00FF);
    let ev = e.button_release_event(at(3), at(3));
    assert_eq!(ev.edit_changed, 1);
    assert_eq!((e.last_pixel_x, e.last_pixel_y), (3, 3));
    let drawn = e.get_sprite().copy();
    e.edit_undo();
    assert!(same(e.get_sprite(), &before));
    e.edit_undo();
    assert!(same(e.get_sprite(), &drawn));
}

#[test]
fn pencil_button_three_uses_the_background() {
    let mut e = EditAreaDatas::new();
    e.set_pencil_mode();
    e.set_colors(0x11, 0x22);
    e.button_press_event(3, false, false, at(1), at(1));
    assert_eq!(e.get_sprite().get_pixel(1, 1), 0x22);
    let ev = e.motion_notify_event(false, false, true, false, at(2), at(1));
    assert!(ev.queue_draw);
    assert_eq!(e.get_sprite().get_pixel(2, 1), 0x22);
    let ev = e.motion_notify_event(false, false, false, false, at(4), at(1));
    assert!(quiet(&ev));
    assert_eq!(e.get_sprite().get_pixel(4, 1), 0);
}

#[test]
fn pencil_press_outside_the_grid() {
    let mut e = EditAreaDatas::new();
    e.set_pencil_mode();
    let ev = e.button_press_event(1, false, false, at(40), at(1));
    assert!(!ev.queue_draw);
    assert_eq!(ev.edit_changed, 1);
    assert_eq!(count(e.get_sprite(), 0), 32 * 32);
}

#[test]
fn pencil_control_draws_a_line_from_the_last_cell() {
    let mut e = EditAreaDatas::new();
    e.set_pencil_mode();
    let ev = e.button_press_event(1, true, false, at(4), at(2));
    assert!(quiet(&ev));
    e.button_press_event(1, false, false, at(0), at(0));
    e.button_release_event(at(0), at(0));
    let ev = e.button_press_event(1, true, false, at(4), at(2));
    assert!(ev.queue_draw);
    let s = e.get_sprite();
    for &(x, y) in [(0, 0), (1, 0), (2, 1), (3, 1), (4, 2)].iter() {
        assert_eq!(s.get_pixel(x, y), 0x00FF00FF);
    }
    assert_eq!(count(s, 0x00FF00FF), 5);
    e.edit_undo();
    assert_eq!(count(e.get_sprite(), 0x00FF00FF), 1);
}

#[test]
fn pencil_shift_picks_colours() {
    let mut e = EditAreaDatas::new();
    let mut s = Sprite::new(32, 32);
    s.set_color(5, 6, 0x1234_5678);
    e.set_sprite(s);
    e.set_pencil_mode();
    let ev = e.button_press_event(1, false, true, at(5), at(6));
    assert_eq!(ev.pick_foreground, Some(0x1234_5678));
    assert_eq!(e.foreground_color, 0x1234_5678);
    let ev = e.button_press_event(3, false, true, at(0), at(0));
    assert_eq!(ev.pick_background, Some(0));
    assert_eq!(e.background_color, 0);
}

#[test]
fn fill_and_undo() {
    let mut e = EditAreaDatas::new();
    let mut s = Sprite::new(4, 4);
    for y in 0..4 {
        s.set_color(2, y, 9);
    }
    e.set_sprite(s);
    e.set_fill_mode();
    let before = e.get_sprite().copy();
    let ev = e.button_press_event(1, false, false, at(0), at(0));
    assert!(ev.queue_draw);
    assert_eq!(count(e.get_sprite(), 0x00FF00FF), 8);
    assert!(e.undo_mode == UndoMode::FILL);
    assert!(quiet(&e.button_release_event(at(0), at(0))));
    assert!(quiet(&e.motion_notify_event(true, false, false, false, at(0), at(0))));
    e.edit_undo();
    assert!(same(e.get_sprite(), &before));
    let ev = e.button_press_event(1, false, false, at(9), at(0));
    assert!(quiet(&ev));
}

#[test]
fn rectangle_drag_redraws_from_the_backup() {
    let mut e = EditAreaDatas::new();
    e.set_rectangle_mode();
    let before = e.get_sprite().copy();
    let ev = e.button_press_event(1, false, false, at(1), at(1));
    assert!(ev.queue_draw && ev.left_clicked);
    assert_eq!(ev.edit_changed, 2);
    e.motion_notify_event(true, false, false, false, at(6), at(6));
    assert_eq!(count(e.get_sprite(), 0x00FF00FF), 20);
    let ev = e.motion_notify_event(true, false, false, false, at(4), at(3));
    assert_eq!(ev.edit_changed, 1);
    let s = e.get_sprite();
    assert_eq!(count(s, 0x00FF00FF), 10);
    assert_eq!(s.get_pixel(1, 1), 0x00FF00FF);
    assert_eq!(s.get_pixel(4, 3), 0x00FF00FF);
    assert_eq!(s.get_pixel(2, 2), 0);
    assert_eq!(s.get_pixel(6, 6), 0);
    e.motion_notify_event(true, false, false, true, at(4), at(3));
    assert_eq!(count(e.get_sprite(), 0x00FF00FF), 12);
    let ev = e.button_release_event(at(4), at(3));
    assert!(ev.queue_draw);
    assert_eq!(e.select_rect.mode, 1);
    assert_eq!((e.select_rect.left, e.select_rect.top, e.select_rect.right, e.select_rect.bottom), (1, 1, 4, 3));
    e.edit_undo();
    assert!(same(e.get_sprite(), &before));
}

#[test]
fn rectangle_resized_by_a_corner() {
    let mut e = EditAreaDatas::new();
    e.set_rectangle_mode();
    e.button_press_event(1, false, false, at(1), at(1));
    e.motion_notify_event(true, false, false, false, at(4), at(3));
    e.button_release_event(at(4), at(3));
    let ev = e.button_press_event(1, false, false, 4 + 40 + 2, 4 + 30 + 2);
    assert_eq!(ev.edit_changed, 1);
    assert_eq!(e.select_rect.sel_corner, 2);
    e.motion_notify_event(true, false, false, false, at(6), at(5));
    assert_eq!((e.select_rect.left, e.select_rect.top, e.select_rect.right, e.select_rect.bottom), (1, 1, 6, 5));
    assert_eq!(count(e.get_sprite(), 0x00FF00FF), 18);
    e.button_release_event(at(6), at(5));
    assert_eq!(e.select_rect.sel_corner, -1);
}

#[test]
fn rectangle_moved_as_a_whole() {
    let mut e = EditAreaDatas::new();
    e.set_rectangle_mode();
    e.button_press_event(1, false, false, at(1), at(1));
    e.motion_notify_event(true, false, false, false, at(4), at(3));
    e.button_release_event(at(4), at(3));
    e.button_press_event(1, false, false, at(2), at(2));
    assert_eq!(e.select_rect.sel_corner, -1);
    assert_eq!((e.select_rect.mouse_start_x, e.select_rect.mouse_start_y), (at(2), at(2)));
    e.motion_notify_event(true, false, false, false, at(2) + 24, at(2) + 4);
    assert_eq!((e.select_rect.left, e.select_rect.top, e.select_rect.right, e.select_rect.bottom), (3, 1, 6, 3));
    e.motion_notify_event(true, false, false, false, at(2) - 30, at(2) + 4);
    assert_eq!((e.select_rect.left, e.select_rect.right), (3, 6));
}

#[test]
fn rectangle_press_outside_restarts() {
    let mut e = EditAreaDatas::new();
    e.set_rectangle_mode();
    e.button_press_event(1, false, false, at(1), at(1));
    e.motion_notify_event(true, false, false, false, at(4), at(3));
    e.button_release_event(at(4), at(3));
    let ev = e.button_press_event(1, false, false, at(10), at(10));
    assert_eq!(ev.edit_changed, 2);
    assert_eq!(e.select_rect.mode, 0);
    assert_eq!((e.select_rect.left, e.select_rect.top, e.select_rect.right, e.select_rect.bottom), (10, 10, 10, 10));
}

#[test]
fn empty_rectangle_is_dropped_on_release() {
    let mut e = EditAreaDatas::new();
    e.set_rectangle_mode();
    e.button_press_event(1, false, false, at(1), at(1));
    e.motion_notify_event(true, false, false, false, at(5), at(1));
    e.button_release_event(at(5), at(1));
    assert_eq!(e.select_rect.mode, 0);
    assert_eq!((e.select_rect.left, e.select_rect.right), (0, 0));
}

#[test]
fn ellipse_drag_and_undo() {
    let mut e = EditAreaDatas::new();
    e.set_ellipse_mode();
    let before = e.get_sprite().copy();
    let ev = e.button_press_event(1, false, false, at(0), at(0));
    assert!(ev.queue_draw && !ev.left_clicked);
    e.motion_notify_event(true, false, false, false, at(8), at(8));
    assert_eq!(count(e.get_sprite(), 0x00FF00FF), 24);
    assert_eq!(e.get_sprite().get_pixel(4, 0), 0x00FF00FF);
    e.motion_notify_event(true, false, false, true, at(8), at(8));
    assert_eq!(count(e.get_sprite(), 0x00FF00FF), 61);
    e.button_release_event(at(8), at(8));
    assert!(e.undo_mode == UndoMode::ELLIPSE);
    e.edit_undo();
    assert!(same(e.get_sprite(), &before));
}

#[test]
fn selection_copy_and_paste() {
    let mut e = EditAreaDatas::new();
    let mut s = Sprite::new(32, 32);
    s.set_color(1, 1, 5);
    s.set_color(2, 2, 6);
    e.set_sprite(s);
    e.set_select_mode();
    let ev = e.button_press_event(1, false, false, at(1), at(1));
    assert!(ev.queue_draw);
    assert_eq!(ev.edit_changed, 0);
    let ev = e.motion_notify_event(true, false, false, false, at(2), at(2));
    assert_eq!(ev.edit_changed, 1);
    e.button_release_event(at(2), at(2));
    assert_eq!((e.last_pixel_x, e.last_pixel_y), (2, 2));
    assert_eq!(e.select_rect.mode, 1);
    let clip = e.edit_copy().unwrap();
    assert_eq!((clip.get_width(), clip.get_height()), (2, 2));
    assert_eq!(clip.get_pixel(0, 0), 5);
    assert_eq!(clip.get_pixel(1, 1), 6);
    assert_eq!(clip.get_pixel(1, 0), 0);
    let mut img = Sprite::new(2, 1);
    img.set_color(0, 0, 7);
    img.set_color(1, 0, 8);
    e.edit_paste(&img);
    assert_eq!(e.get_sprite().get_pixel(0, 0), 7);
    assert_eq!(e.get_sprite().get_pixel(1, 0), 8);
    assert_eq!(e.select_rect.mode, 2);
    assert_eq!((e.select_rect.left, e.select_rect.top, e.select_rect.right, e.select_rect.bottom), (0, 0, 1, 0));
}

#[test]
fn pasting_straight_after_copying_keeps_the_image() {
    let mut e = EditAreaDatas::new();
    let mut s = Sprite::new(32, 32);
    s.set_color(3, 4, 5);
    s.set_color(5, 6, 6);
    s.set_color(9, 9, 7);
    e.set_sprite(s);
    let before = e.get_sprite().copy();
    e.select_rect = SelectRect::new(3, 4, 6, 7);
    e.select_rect.mode = 1;
    e.copy_select();
    assert_eq!((e.copy_rect.left, e.copy_rect.top, e.copy_rect.right, e.copy_rect.bottom), (3, 4, 6, 7));
    e.paste_select();
    assert_eq!(e.select_rect.mode, 2);
    assert!(same(e.get_sprite(), &before));
}

#[test]
fn pasted_block_moves_with_the_pointer() {
    let mut e = EditAreaDatas::new();
    e.set_select_mode();
    let mut img = Sprite::new(2, 2);
    img.fill(7);
    e.edit_paste(&img);
    assert_eq!(count(e.get_sprite(), 7), 4);
    let ev = e.button_press_event(1, false, false, at(0), at(0));
    assert!(ev.queue_draw);
    e.motion_notify_event(true, false, false, false, at(0) + 34, at(0) + 24);
    assert_eq!((e.select_rect.left, e.select_rect.top, e.select_rect.right, e.select_rect.bottom), (3, 2, 4, 3));
    let s = e.get_sprite();
    assert_eq!(count(s, 7), 4);
    assert_eq!(s.get_pixel(3, 2), 7);
    assert_eq!(s.get_pixel(4, 3), 7);
    assert_eq!(s.get_pixel(0, 0), 0);
}

#[test]
fn moved_block_is_pushed_back_inside_the_grid() {
    let mut e = EditAreaDatas::new();
    e.set_select_mode();
    let mut img = Sprite::new(2, 2);
    img.fill(7);
    e.edit_paste(&img);
    e.button_press_event(1, false, false, at(0), at(0));
    e.motion_notify_event(true, false, false, false, 323, at(0));
    assert_eq!((e.select_rect.left, e.select_rect.top, e.select_rect.right, e.select_rect.bottom), (30, 0, 31, 1));
    assert_eq!(count(e.get_sprite(), 7), 4);
    assert_eq!(e.get_sprite().get_pixel(31, 1), 7);
    e.motion_notify_event(true, false, false, false, 0, 0);
    assert_eq!((e.select_rect.left, e.select_rect.top, e.select_rect.right, e.select_rect.bottom), (0, 0, 1, 1));
    assert_eq!(e.get_sprite().get_pixel(0, 0), 7);
    assert_eq!(e.get_sprite().get_pixel(31, 1), 0);
}

#[test]
fn dropping_a_pasted_block_empties_the_copy() {
    let mut e = EditAreaDatas::new();
    e.set_select_mode();
    let img = Sprite::new(2, 2);
    e.edit_paste(&img);
    e.button_press_event(1, false, false, at(10), at(10));
    assert_eq!(e.select_rect.mode, 0);
    assert_eq!((e.copy_rect.left, e.copy_rect.top, e.copy_rect.right, e.copy_rect.bottom), (0, 0, 0, 0));
}

#[test]
fn cut_fills_the_selection_with_the_background() {
    let mut e = EditAreaDatas::new();
    let mut s = Sprite::new(32, 32);
    s.fill(3);
    e.set_sprite(s);
    e.set_colors(1, 9);
    e.set_select_mode();
    e.button_press_event(1, false, false, at(1), at(1));
    e.motion_notify_event(true, false, false, false, at(3), at(2));
    e.button_release_event(at(3), at(2));
    assert!(e.edit_cut());
    assert_eq!(count(e.get_sprite(), 9), 6);
    assert!(e.select_rect.is_empty());
    assert!(e.edit_cut());
    assert_eq!(count(e.get_sprite(), 9), 6);
    e.set_pencil_mode();
    assert!(!e.edit_cut());
}

#[test]
fn middle_button_drags_the_grid() {
    let mut e = EditAreaDatas::new();
    let ev = e.button_press_event(2, false, false, 100, 50);
    assert!(quiet(&ev));
    let ev = e.motion_notify_event(false, true, false, false, 130, 40);
    assert!(ev.queue_draw);
    assert_eq!((e.origin_x, e.origin_y), (30, -10));
    e.set_pencil_mode();
    e.button_press_event(1, false, false, 30 + at(2), -10 + at(3));
    assert_eq!(e.get_sprite().get_pixel(2, 3), 0x00FF00FF);
}

#[test]
fn quarter_turn_and_undo() {
    let mut e = EditAreaDatas::new();
    let mut s = Sprite::new(3, 2);
    s.set_color(0, 0, 1);
    s.set_color(2, 1, 2);
    e.set_sprite(s);
    let before = e.get_sprite().copy();
    e.swing_left();
    assert_eq!((e.get_sprite().get_width(), e.get_sprite().get_height()), (2, 3));
    assert_eq!(e.get_sprite().get_pixel(0, 2), 1);
    assert!(e.undo_mode == UndoMode::SWING_LEFT);
    e.edit_undo();
    assert!(same(e.get_sprite(), &before));
    assert!(e.undo_mode == UndoMode::SWING_RIGHT);
    e.swing_right();
    e.edit_undo();
    assert!(same(e.get_sprite(), &before));
}

#[test]
fn mirror_twice_gives_back_the_sprite() {
    let mut e = EditAreaDatas::new();
    let mut s = Sprite::new(32, 32);
    s.set_color(0, 0, 1);
    s.set_color(31, 5, 2);
    e.set_sprite(s);
    let before = e.get_sprite().copy();
    e.flip_horizontaly();
    assert_eq!(e.get_sprite().get_pixel(31, 0), 1);
    assert_eq!(e.get_sprite().get_pixel(0, 5), 2);
    e.flip_horizontaly();
    assert!(same(e.get_sprite(), &before));
    e.flip_verticaly();
    assert_eq!(e.get_sprite().get_pixel(0, 31), 1);
    e.flip_verticaly();
    assert!(same(e.get_sprite(), &before));
}

#[test]
fn mirror_after_a_quarter_turn_reads_the_backup_in_rows_of_the_sprite_width() {
    let mut e = EditAreaDatas::new();
    let mut s = Sprite::new(3, 2);
    s.set_color(0, 0, 1);
    s.set_color(2, 1, 2);
    e.set_sprite(s);
    e.swing_left();
    assert_eq!(e.get_sprite().get_pixel(0, 2), 1);
    assert_eq!(e.get_sprite().get_pixel(1, 0), 2);
    e.flip_horizontaly();
    assert_eq!((e.get_sprite().get_width(), e.get_sprite().get_height()), (2, 3));
    assert_eq!(e.get_sprite().get_pixel(0, 0), 2);
    assert_eq!(e.get_sprite().get_pixel(0, 2), 2);
    assert_eq!(count(e.get_sprite(), 0), 4);
}

#[test]
fn events_that_cannot_be_handled_are_reported() {
    let mut e = EditAreaDatas::new();
    assert!(e.press_fits(1, at(1), at(1)));
    assert!(e.release_fits(at(1), at(1)));
    assert!(e.motion_fits(true, false, false, false, at(1), at(1)));
    e.cell_size = 0;
    assert!(!e.press_fits(1, at(1), at(1)));
    assert!(e.press_fits(2, at(1), at(1)));
    assert!(!e.release_fits(at(1), at(1)));
    e.cell_size = 10;
    e.origin_x = i32::MIN;
    assert!(!e.press_fits(1, 5, 5));
}

#[test]
fn hit_tests_on_the_selection() {
    let mut e = EditAreaDatas::new();
    e.select_rect = SelectRect::new(1, 1, 4, 3);
    assert!(e.in_select_rect(14, 14));
    assert!(e.in_select_rect(54, 44));
    assert!(!e.in_select_rect(55, 20));
    assert!(!e.in_select_rect(13, 20));
    assert_eq!(e.hit_handle(14, 14), 0);
    assert_eq!(e.hit_handle(50, 20), 1);
    assert_eq!(e.hit_handle(46, 36), 2);
    assert_eq!(e.hit_handle(20, 40), 3);
    assert_eq!(e.hit_handle(30, 30), -1);
    e.select_rect = SelectRect::new(4, 3, 1, 1);
    assert!(e.in_select_rect(14, 14));
    assert!(e.in_select_rect(54, 44));
    assert_eq!(e.hit_handle(14, 14), 2);
}

#[test]
fn releasing_a_flat_selection_forgets_the_start_point() {
    let mut e = EditAreaDatas::new();
    e.set_select_mode();
    e.select_rect = SelectRect::new(2, 3, 2, 6);
    e.select_rect.mouse_start_x = 7;
    e.select_rect.mouse_start_y = 9;
    e.button_release_event(at(2), at(6));
    assert_eq!((e.select_rect.left, e.select_rect.top, e.select_rect.right, e.select_rect.bottom), (0, 0, 0, 0));
    assert_eq!(e.select_rect.mode, 0);
    assert_eq!((e.select_rect.mouse_start_x, e.select_rect.mouse_start_y), (0, 0));
    e.select_rect.mouse_start_x = 5;
    e.set_pencil_mode();
    assert_eq!(e.select_rect.mouse_start_x, 0);
}
