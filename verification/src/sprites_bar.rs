//! The bar of eight sprites beside the editing area, with the file each was
//! read from or saved to, and the sprite being edited.

use vstd::prelude::*;
use crate::sprite::{Sprite, valid_dims};

verus! {

/// The state of the sprites bar: eight sprites shown in a column of cells of
/// 64 pixels, their file names (empty for a sprite never saved), and the
/// index of the sprite being edited.
pub struct SpritesBarDatas {
    nb_columns: i32,
    nb_rows: i32,
    cell_size: i32,
    tbl_sprites: Vec<Sprite>,
    tbl_file_names: Vec<String>,
    i_cur_sprite: u32,
}

/// `b` edits the same sprite as `a`, under the same file name.
pub open spec fn keeps_current_name(a: &SpritesBarDatas, b: &SpritesBarDatas) -> bool {
    &&& b.current() == a.current()
    &&& b.name_at(a.current()) == a.name_at(a.current())
}

impl SpritesBarDatas {
    /// One column of eight cells of 64 pixels, eight sprites and names, and
    /// a current sprite among them.
    pub closed spec fn wf(&self) -> bool {
        &&& self.nb_columns == 1
        &&& self.nb_rows == 8
        &&& self.cell_size == 64
        &&& self.tbl_sprites@.len() == 8
        &&& self.tbl_file_names@.len() == 8
        &&& self.i_cur_sprite < 8
        &&& forall|k: int| 0 <= k < 8 ==> (#[trigger] self.tbl_sprites@[k]).wf()
    }

    /// The index of the sprite being edited.
    pub closed spec fn current(&self) -> int {
        self.i_cur_sprite as int
    }

    /// Sprite `k`.
    pub closed spec fn sprite_at(&self, k: int) -> Sprite {
        self.tbl_sprites@[k]
    }

    /// The file name of sprite `k`.
    pub closed spec fn name_at(&self, k: int) -> Seq<char> {
        self.tbl_file_names@[k]@
    }

    /// The size of a cell of the bar, in pixels.
    pub closed spec fn cell(&self) -> int {
        self.cell_size as int
    }

    /// The number of sprites in the bar.
    pub closed spec fn rows(&self) -> int {
        self.nb_rows as int
    }

    /// A bar of eight transparent 32 x 32 sprites with no file names, the
    /// first one being edited.
    pub fn new() -> (b: Self)
        ensures
            b.wf(),
            b.current() == 0,
            b.cell() == 64,
            b.rows() == 8,
            forall|k: int| 0 <= k < 8 ==> #[trigger] b.name_at(k) == Seq::<char>::empty(),
            forall|k: int| 0 <= k < 8 ==> (#[trigger] b.sprite_at(k)).w() == 32 && b.sprite_at(k).h() == 32,
            forall|k: int, x: int, y: int| 0 <= k < 8 && b.sprite_at(k).in_bounds(x, y) ==> #[trigger] b.sprite_at(k).px(x, y) == 0,
    {
        let mut tbl_sprites: Vec<Sprite> = Vec::new();
        let mut tbl_file_names: Vec<String> = Vec::new();
        let mut k: usize = 0;
        while k < 8
            invariant
                k <= 8,
                tbl_sprites@.len() == k,
                tbl_file_names@.len() == k,
                forall|j: int| 0 <= j < k ==> (#[trigger] tbl_sprites@[j]).wf() && tbl_sprites@[j].w() == 32 && tbl_sprites@[j].h() == 32
                    && forall|x: int, y: int| tbl_sprites@[j].in_bounds(x, y) ==> #[trigger] tbl_sprites@[j].px(x, y) == 0,
                forall|j: int| 0 <= j < k ==> (#[trigger] tbl_file_names@[j])@ == Seq::<char>::empty(),
            decreases 8 - k,
        {
            tbl_sprites.push(Sprite::new(32, 32));
            tbl_file_names.push(String::new());
            k = k + 1;
        }
        Self { nb_columns: 1, nb_rows: 8, cell_size: 64, tbl_sprites, tbl_file_names, i_cur_sprite: 0 }
    }

    /// Sets the bar up as the widget shows it: one column of eight cells,
    /// every sprite cleared to transparent black.
    pub fn constructed(&mut self)
        requires
            old(self).wf(),
        ensures
            final(self).wf(),
            final(self).current() == old(self).current(),
            forall|k: int| 0 <= k < 8 ==> #[trigger] final(self).name_at(k) == old(self).name_at(k),
            keeps_current_name(&*old(self), &*final(self)),
            forall|k: int| 0 <= k < 8 ==> (#[trigger] final(self).sprite_at(k)).w() == old(self).sprite_at(k).w()
                && final(self).sprite_at(k).h() == old(self).sprite_at(k).h()
                && forall|x: int, y: int| final(self).sprite_at(k).in_bounds(x, y) ==> #[trigger] final(self).sprite_at(k).px(x, y) == 0,
    {
        self.nb_columns = 1;
        self.nb_rows = 8;
        let ghost before = self.tbl_sprites@;
        let mut k: usize = 0;
        while k < 8
            invariant
                self.nb_columns == 1,
                self.nb_rows == 8,
                self.cell_size == 64,
                self.tbl_file_names == old(self).tbl_file_names,
                self.i_cur_sprite == old(self).i_cur_sprite,
                before == old(self).tbl_sprites@,
                k <= 8,
                self.tbl_sprites@.len() == 8,
                forall|j: int| 0 <= j < 8 ==> (#[trigger] self.tbl_sprites@[j]).wf() && self.tbl_sprites@[j].w() == before[j].w()
                    && self.tbl_sprites@[j].h() == before[j].h(),
                forall|j: int| 0 <= j < k ==> forall|x: int, y: int| (#[trigger] self.tbl_sprites@[j]).in_bounds(x, y)
                    ==> #[trigger] self.tbl_sprites@[j].px(x, y) == 0,
                forall|j: int| k <= j < 8 ==> #[trigger] self.tbl_sprites@[j] == before[j],
            decreases 8 - k,
        {
            let mut s = self.tbl_sprites[k].copy();
            s.fill(0x00000000);
            self.tbl_sprites.set(k, s);
            k = k + 1;
        }
    }

    /// The sprite being edited.
    pub fn get_sprite(&self) -> (s: &Sprite)
        requires
            self.wf(),
        ensures
            *s == self.sprite_at(self.current()),
    {
        &self.tbl_sprites[self.i_cur_sprite as usize]
    }

    /// Sprite `k` of the bar, counted from the top.
    pub fn sprite_at_row(&self, k: usize) -> (s: &Sprite)
        requires
            self.wf(),
            k < 8,
        ensures
            *s == self.sprite_at(k as int),
    {
        &self.tbl_sprites[k]
    }

    /// The row of the sprite being edited.
    pub fn current_row(&self) -> (i: u32)
        ensures
            i == self.current(),
    {
        self.i_cur_sprite
    }

    /// Puts `spr1` in the place of the sprite being edited.
    pub fn set_sprite(&mut self, spr1: Sprite)
        requires
            old(self).wf(),
            spr1.wf(),
        ensures
            final(self).wf(),
            final(self).current() == old(self).current(),
            final(self).sprite_at(old(self).current()) == spr1,
            forall|k: int| 0 <= k < 8 && k != old(self).current() ==> #[trigger] final(self).sprite_at(k) == old(self).sprite_at(k),
            forall|k: int| 0 <= k < 8 ==> #[trigger] final(self).name_at(k) == old(self).name_at(k),
            keeps_current_name(&*old(self), &*final(self)),
    {
        let i = self.i_cur_sprite as usize;
        self.tbl_sprites.set(i, spr1);
    }

    /// Puts a new transparent `w` x `h` sprite, with no file name, in the
    /// place of the sprite being edited; gives the index to emit with
    /// "sprite-changed".
    pub fn new_sprite(&mut self, w: i32, h: i32) -> (changed: u32)
        requires
            old(self).wf(),
            valid_dims(w as int, h as int),
        ensures
            final(self).wf(),
            changed == old(self).current(),
            final(self).current() == old(self).current(),
            final(self).sprite_at(old(self).current()).w() == w,
            final(self).sprite_at(old(self).current()).h() == h,
            forall|x: int, y: int| final(self).sprite_at(old(self).current()).in_bounds(x, y)
                ==> #[trigger] final(self).sprite_at(old(self).current()).px(x, y) == 0,
            final(self).name_at(old(self).current()) == Seq::<char>::empty(),
            forall|k: int| 0 <= k < 8 && k != old(self).current() ==> #[trigger] final(self).sprite_at(k) == old(self).sprite_at(k)
                && final(self).name_at(k) == old(self).name_at(k),
    {
        let i = self.i_cur_sprite as usize;
        let mut s = Sprite::new(w, h);
        s.fill(0x00000000);
        self.tbl_sprites.set(i, s);
        self.tbl_file_names.set(i, String::new());
        self.i_cur_sprite
    }

    /// Puts `spr`, read from the file `full_path_name`, in the place of the
    /// sprite being edited; gives the index to emit with "sprite-changed".
    pub fn load_sprite(&mut self, spr: Sprite, full_path_name: &str) -> (changed: u32)
        requires
            old(self).wf(),
            spr.wf(),
        ensures
            final(self).wf(),
            changed == old(self).current(),
            final(self).current() == old(self).current(),
            final(self).sprite_at(old(self).current()) == spr,
            final(self).name_at(old(self).current()) == full_path_name@,
            forall|k: int| 0 <= k < 8 && k != old(self).current() ==> #[trigger] final(self).sprite_at(k) == old(self).sprite_at(k)
                && final(self).name_at(k) == old(self).name_at(k),
    {
        let i = self.i_cur_sprite as usize;
        self.tbl_sprites.set(i, spr);
        self.tbl_file_names.set(i, full_path_name.to_owned());
        self.i_cur_sprite
    }

    /// The file the sprite being edited is saved to, when it has one.
    pub fn save_sprite(&self) -> (target: Option<String>)
        requires
            self.wf(),
        ensures
            match target {
                Some(name) => name@ == self.name_at(self.current()) && name@.len() > 0,
                None => self.name_at(self.current()).len() == 0,
            },
    {
        let i = self.i_cur_sprite as usize;
        if !self.tbl_file_names[i].as_str().is_empty() {
            Some(self.tbl_file_names[i].clone())
        } else {
            None
        }
    }

    /// The file name of the sprite being edited.
    pub fn get_file_name(&self) -> (name: String)
        requires
            self.wf(),
        ensures
            name@ == self.name_at(self.current()),
    {
        let i = self.i_cur_sprite as usize;
        self.tbl_file_names[i].clone()
    }

    /// Gives the sprite being edited the file name `full_path_name`, which it
    /// is then saved to.
    pub fn save_as_sprite(&mut self, full_path_name: &str)
        requires
            old(self).wf(),
        ensures
            final(self).wf(),
            final(self).current() == old(self).current(),
            final(self).name_at(old(self).current()) == full_path_name@,
            forall|k: int| 0 <= k < 8 ==> #[trigger] final(self).sprite_at(k) == old(self).sprite_at(k),
            forall|k: int| 0 <= k < 8 && k != old(self).current() ==> #[trigger] final(self).name_at(k) == old(self).name_at(k),
    {
        let i = self.i_cur_sprite as usize;
        self.tbl_file_names.set(i, full_path_name.to_owned());
    }

    /// A press at `(x, y)` on the bar: in the column of cells, the sprite
    /// in the row under the pointer becomes the one being edited; gives its
    /// index, to emit with "sprite-changed", when it changed.
    pub fn button_press_event(&mut self, x: i32, y: i32) -> (changed: Option<u32>)
        requires
            old(self).wf(),
        ensures
            final(self).wf(),
            ({
                let row: int = if y < 0 { 0 } else { y / 64 };
                if x < 64 && row < 8 && row != old(self).current() {
                    &&& changed == Some(row as u32)
                    &&& final(self).current() == row
                } else {
                    &&& changed is None
                    &&& final(self).current() == old(self).current()
                }
            }),
            forall|k: int| 0 <= k < 8 ==> #[trigger] final(self).sprite_at(k) == old(self).sprite_at(k),
            forall|k: int| 0 <= k < 8 ==> #[trigger] final(self).name_at(k) == old(self).name_at(k),
            changed is None ==> keeps_current_name(&*old(self), &*final(self)),
    {
        if x < self.cell_size {
            let i: u32 = if y < 0 { 0 } else { (y / self.cell_size) as u32 };
            if i < (self.nb_rows as u32) && i != self.i_cur_sprite {
                self.i_cur_sprite = i;
                return Some(i);
            }
        }
        None
    }
}


/// The sprite being edited keeps the file name that `save_as_sprite`,
/// `load_sprite` or `new_sprite` gave it (the name `get_file_name` then
/// returns) through any run of calls that each keep it: `set_sprite`,
/// `constructed`, a press that changes no row, and the calls that only read.
pub proof fn lemma_name_kept(states: Seq<SpritesBarDatas>)
    requires
        states.len() > 0,
        forall|i: int| 0 <= i < states.len() - 1 ==> #[trigger] keeps_current_name(&states[i], &states[i + 1]),
    ensures
        states.last().current() == states[0].current(),
        states.last().name_at(states.last().current()) == states[0].name_at(states[0].current()),
    decreases states.len(),
{
    if states.len() > 1 {
        let prefix = states.drop_last();
        assert forall|i: int| 0 <= i < prefix.len() - 1 implies #[trigger] keeps_current_name(&prefix[i], &prefix[i + 1]) by {
            assert(keeps_current_name(&states[i], &states[i + 1]));
        }
        lemma_name_kept(prefix);
        let j = states.len() - 2;
        assert(keeps_current_name(&states[j], &states[j + 1]));
        assert(prefix.last() == states[j]);
    }
}

} // verus!
