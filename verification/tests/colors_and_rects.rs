use sprite_ed::rgb_utils::{rgba, get_rgba, get_rgba_a, get_rgba_b, get_rgba_g, get_rgba_r};
use sprite_ed::rhandle::RHandle;
use sprite_ed::select_rect::SelectRect;

#[test]
fn rgba_packs_red_first() {
    assert_eq!(rgba(0x12, 0x34, 0x56, 0x78), 0x1234_5678);
    assert_eq!(rgba(0xFF, 0, 0, 0xFF), 0xFF00_00FF);
    assert_eq!(rgba(0, 0, 0, 0), 0);
}

#[test]
fn channels_of_a_packed_colour() {
    let c = 0xAABB_CCDDu32;
    assert_eq!(get_rgba_r(c), 0xAA);
    assert_eq!(get_rgba_g(c), 0xBB);
    assert_eq!(get_rgba_b(c), 0xCC);
    assert_eq!(get_rgba_a(c), 0xDD);
    assert_eq!(get_rgba(c), (0xAA, 0xBB, 0xCC, 0xDD));
}

#[test]
fn pack_and_unpack_round_trip() {
    for &c in [0u32, 1, 0x00FF_00FF, 0xE0E0_E0FF, u32::MAX, 0x8000_0001].iter() {
        let (r, g, b, a) = get_rgba(c);
        assert_eq!(rgba(r, g, b, a), c);
    }
    let (r, g, b, a) = get_rgba(rgba(1, 2, 3, 4));
    assert_eq!((r, g, b, a), (1, 2, 3, 4));
}

#[test]
fn rhandle_measures_and_contains() {
    let h = RHandle::new(2, 3, 10, 7);
    assert_eq!(h.width(), 8);
    assert_eq!(h.height(), 4);
    assert!(!h.is_empty());
    assert!(h.pt_in_rect(2, 3));
    assert!(h.pt_in_rect(10, 7));
    assert!(h.pt_in_rect(5, 5));
    assert!(!h.pt_in_rect(11, 5));
    assert!(!h.pt_in_rect(5, 2));
}

#[test]
fn rhandle_empty_and_normalize() {
    let mut h = RHandle::new(10, 7, 2, 3);
    assert!(!h.pt_in_rect(5, 5));
    h.normalize();
    assert!(h.pt_in_rect(5, 5));
    assert_eq!(h.width(), 8);
    assert_eq!(h.height(), 4);
    h.normalize();
    assert_eq!(h.width(), 8);
    h.empty();
    assert!(h.is_empty());
    assert_eq!(h.width(), 0);
    let p = RHandle::new(4, 4, 4, 4);
    assert!(p.is_empty());
    let line = RHandle::new(4, 4, 9, 4);
    assert!(!line.is_empty());
}

#[test]
fn select_rect_corners() {
    let mut r = SelectRect::new(1, 2, 5, 6);
    assert_eq!(r.get_corner(0), (1, 2));
    assert_eq!(r.get_corner(1), (5, 2));
    assert_eq!(r.get_corner(2), (5, 6));
    assert_eq!(r.get_corner(3), (1, 6));
    assert_eq!(r.get_corner(7), (0, 0));
    r.set_corner(3, 0, 9);
    assert_eq!(r.get_corner(3), (0, 9));
    assert_eq!(r.get_corner(1), (5, 2));
    r.set_corner(8, 100, 100);
    assert_eq!((r.left, r.top, r.right, r.bottom), (0, 2, 5, 9));
}

#[test]
fn select_rect_normalize_init_offset() {
    let mut r = SelectRect::new(5, 6, 1, 2);
    assert_eq!(r.mode, 0);
    assert_eq!(r.sel_corner, -1);
    r.normalize();
    assert_eq!((r.left, r.top, r.right, r.bottom), (1, 2, 5, 6));
    assert_eq!(r.width(), 5);
    assert_eq!(r.height(), 5);
    assert!(!r.is_empty());
    r.backup_position();
    r.offset(3, -1);
    assert_eq!((r.left, r.top, r.right, r.bottom), (4, 1, 8, 5));
    r.restore_position();
    assert_eq!((r.left, r.top, r.right, r.bottom), (1, 2, 5, 6));
    r.mode = 1;
    r.init();
    assert_eq!((r.left, r.top, r.right, r.bottom, r.mode), (0, 0, 0, 0, 0));
    assert!(r.is_empty());
    let mut e = SelectRect::new(3, 3, 3, 8);
    assert!(e.is_empty());
    e.empty();
    assert_eq!((e.left, e.top, e.right, e.bottom), (0, 0, 0, 0));
}

#[test]
fn restore_gives_back_the_saved_edges_after_any_changes() {
    let mut r = SelectRect::new(2, 3, 8, 9);
    r.mode = 1;
    r.backup_position();
    r.set_corner(2, 20, 1);
    r.offset(-5, 4);
    r.normalize();
    r.empty();
    r.init();
    r.set_corner(0, 4, 4);
    r.restore_position();
    assert_eq!((r.left, r.top, r.right, r.bottom), (2, 3, 8, 9));
    assert_eq!((r.sav_left, r.sav_top, r.sav_right, r.sav_bottom), (2, 3, 8, 9));
    assert_eq!(r.mode, 0);
}
