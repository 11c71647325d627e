//! What undo gives back.
//!
//! Every stroke of the pencil, rectangle, ellipse and fill tools starts by
//! copying the sprite into its backup, and nothing else touches the backup
//! until the stroke ends; undo then exchanges the sprite and the backup. So
//! undo gives back the sprite as it was before the stroke, and a second undo
//! gives back the stroke. Quarter turns are undone by the opposite turn.

use vstd::prelude::*;
use crate::edit_area::{EditAreaDatas, UndoMode, undo_swaps, undo_effect};
use crate::sprite::Sprite;
use crate::transform::{is_turned_left, is_turned_right, lemma_turn_left_then_right, lemma_turn_right_then_left};
use crate::tools::{EditEvent, cell_of, pencil_pressed, pencil_released, pencil_moved, fill_pressed};
use crate::shape_tools::{rectangle_pressed, rectangle_released, rectangle_moved, ellipse_pressed, ellipse_released, ellipse_moved};

verus! {

/// `s` keeps `img`, of the size of its sprite, in its backup, and undo
/// exchanges the sprite and the backup.
pub open spec fn holds_backup_of(s: EditAreaDatas, img: Sprite) -> bool {
    &&& undo_swaps(s.undo_mode)
    &&& s.sprite.w() == img.w()
    &&& s.sprite.h() == img.h()
    &&& forall|i: int, j: int| #[trigger] img.in_bounds(i, j) ==> s.sprite_bak.px(i, j) == img.px(i, j)
}

/// Undo gives back the image kept in the backup.
pub proof fn lemma_undo_restores_backup(s: EditAreaDatas, t: EditAreaDatas, img: Sprite)
    requires
        holds_backup_of(s, img),
        undo_effect(&s, &t),
    ensures
        t.sprite.same_image(&img),
{
    assert forall|i: int, j: int| t.sprite.in_bounds(i, j) implies #[trigger] t.sprite.px(i, j) == img.px(i, j) by {
        assert(img.in_bounds(i, j));
    }
}

/// A pencil press that draws (with Control, or on a cell of the grid
/// without Shift) keeps the sprite from before the press in the backup.
pub proof fn lemma_pencil_press_backs_up(a: EditAreaDatas, b: EditAreaDatas, ev: EditEvent, button: u32, control: bool,
    shift: bool, tmx: i32, tmy: i32)
    requires
        a.wf(),
        pencil_pressed(a, b, ev, button, control, shift, tmx, tmy),
        control || (!shift && a.in_edit_area_spec(cell_of(&a, tmx as int), cell_of(&a, tmy as int))),
    ensures
        holds_backup_of(b, a.sprite),
{
    assert forall|i: int, j: int| #[trigger] a.sprite.in_bounds(i, j) implies b.sprite_bak.px(i, j) == a.sprite.px(i, j) by {
        assert(b.sprite_bak.in_bounds(i, j));
    }
}

/// A fill press on a cell of the grid keeps the sprite from before the press
/// in the backup.
pub proof fn lemma_fill_press_backs_up(a: EditAreaDatas, b: EditAreaDatas, ev: EditEvent, button: u32, tmx: i32, tmy: i32)
    requires
        a.wf(),
        fill_pressed(a, b, ev, button, tmx, tmy),
        a.in_edit_area_spec(cell_of(&a, tmx as int), cell_of(&a, tmy as int)),
    ensures
        holds_backup_of(b, a.sprite),
{
    assert forall|i: int, j: int| #[trigger] a.sprite.in_bounds(i, j) implies b.sprite_bak.px(i, j) == a.sprite.px(i, j) by {
        assert(b.sprite_bak.in_bounds(i, j));
    }
}

/// A rectangle press that starts a rectangle on a cell of the grid keeps the
/// sprite from before the press in the backup.
pub proof fn lemma_rectangle_press_backs_up(a: EditAreaDatas, b: EditAreaDatas, ev: EditEvent, tmx: i32, tmy: i32)
    requires
        a.wf(),
        rectangle_pressed(a, b, ev, tmx, tmy),
        a.select_rect.mode == 0,
        a.in_edit_area_spec(cell_of(&a, tmx as int), cell_of(&a, tmy as int)),
    ensures
        holds_backup_of(b, a.sprite),
{
    assert forall|i: int, j: int| #[trigger] a.sprite.in_bounds(i, j) implies b.sprite_bak.px(i, j) == a.sprite.px(i, j) by {
        assert(b.sprite_bak.in_bounds(i, j));
    }
}

/// An ellipse press that starts an ellipse on a cell of the grid keeps the
/// sprite from before the press in the backup.
pub proof fn lemma_ellipse_press_backs_up(a: EditAreaDatas, b: EditAreaDatas, ev: EditEvent, tmx: i32, tmy: i32)
    requires
        a.wf(),
        ellipse_pressed(a, b, ev, tmx, tmy),
        a.select_rect.mode == 0,
        a.in_edit_area_spec(cell_of(&a, tmx as int), cell_of(&a, tmy as int)),
    ensures
        holds_backup_of(b, a.sprite),
{
    assert forall|i: int, j: int| #[trigger] a.sprite.in_bounds(i, j) implies b.sprite_bak.px(i, j) == a.sprite.px(i, j) by {
        assert(b.sprite_bak.in_bounds(i, j));
    }
}

/// Drawing with the pencil never touches the backup.
pub proof fn lemma_pencil_motion_keeps_backup(a: EditAreaDatas, b: EditAreaDatas, ev: EditEvent, button1: bool, button3: bool,
    control: bool, tmx: i32, tmy: i32, img: Sprite)
    requires
        holds_backup_of(a, img),
        pencil_moved(a, b, ev, button1, button3, control, tmx, tmy),
    ensures
        holds_backup_of(b, img),
{
}

/// Dragging a rectangle never touches the backup.
pub proof fn lemma_rectangle_motion_keeps_backup(a: EditAreaDatas, b: EditAreaDatas, ev: EditEvent, button1: bool,
    button3: bool, control: bool, tmx: i32, tmy: i32, img: Sprite)
    requires
        holds_backup_of(a, img),
        rectangle_moved(a, b, ev, button1, button3, control, tmx, tmy),
    ensures
        holds_backup_of(b, img),
{
}

/// Dragging an ellipse never touches the backup.
pub proof fn lemma_ellipse_motion_keeps_backup(a: EditAreaDatas, b: EditAreaDatas, ev: EditEvent, button1: bool,
    button3: bool, control: bool, tmx: i32, tmy: i32, img: Sprite)
    requires
        holds_backup_of(a, img),
        ellipse_moved(a, b, ev, button1, button3, control, tmx, tmy),
    ensures
        holds_backup_of(b, img),
{
}

/// Releasing the button of the pencil, rectangle or ellipse tool never
/// touches the backup.
pub proof fn lemma_release_keeps_backup(a: EditAreaDatas, b: EditAreaDatas, ev: EditEvent, tmx: i32, tmy: i32, img: Sprite)
    requires
        holds_backup_of(a, img),
        pencil_released(a, b, ev, tmx, tmy) || rectangle_released(a, b, ev) || ellipse_released(a, b, ev),
    ensures
        holds_backup_of(b, img),
{
}

/// A second undo of a stroke gives the stroke back.
pub proof fn lemma_undo_twice(a: EditAreaDatas, b: EditAreaDatas, c: EditAreaDatas)
    requires
        a.wf(),
        undo_swaps(a.undo_mode),
        undo_effect(&a, &b),
        undo_effect(&b, &c),
    ensures
        c.sprite.same_image(&a.sprite),
{
    assert forall|i: int, j: int| c.sprite.in_bounds(i, j) implies #[trigger] c.sprite.px(i, j) == a.sprite.px(i, j) by {
        assert(b.sprite_bak.in_bounds(i, j));
    }
}

/// Undo after a quarter turn anticlockwise gives back the sprite from
/// before the turn.
pub proof fn lemma_swing_left_undone(a: EditAreaDatas, b: EditAreaDatas, c: EditAreaDatas)
    requires
        is_turned_left(a.sprite, b.sprite),
        b.undo_mode == UndoMode::SWING_LEFT,
        undo_effect(&b, &c),
    ensures
        c.sprite.same_image(&a.sprite),
{
    lemma_turn_left_then_right(a.sprite, b.sprite, c.sprite);
}

/// Undo after a quarter turn clockwise gives back the sprite from before
/// the turn.
pub proof fn lemma_swing_right_undone(a: EditAreaDatas, b: EditAreaDatas, c: EditAreaDatas)
    requires
        is_turned_right(a.sprite, b.sprite),
        b.undo_mode == UndoMode::SWING_RIGHT,
        undo_effect(&b, &c),
    ensures
        c.sprite.same_image(&a.sprite),
{
    lemma_turn_right_then_left(a.sprite, b.sprite, c.sprite);
}

} // verus!
