//! The colour palette: a grid of colour cells beside the current foreground
//! and background colours, and its text file of decimal colours.
//!
//! The file holds one number per line: the foreground colour, the background
//! colour, then the cells row by row.

use vstd::prelude::*;
use crate::edit_area::trunc_div;

verus! {

/// Whether `c` is white space as Unicode's White_Space property says.
pub open spec fn is_white_space(c: char) -> bool {
    ||| '\u{9}' <= c <= '\u{d}'
    ||| c == ' '
    ||| c == '\u{85}'
    ||| c == '\u{a0}'
    ||| c == '\u{1680}'
    ||| '\u{2000}' <= c <= '\u{200a}'
    ||| c == '\u{2028}'
    ||| c == '\u{2029}'
    ||| c == '\u{202f}'
    ||| c == '\u{205f}'
    ||| c == '\u{3000}'
}

/// `s` without its leading white space.
pub open spec fn trim_start_spec(s: Seq<char>) -> Seq<char>
    decreases s.len(),
{
    if s.len() > 0 && is_white_space(s[0]) { trim_start_spec(s.drop_first()) } else { s }
}

/// `s` without its trailing white space.
pub open spec fn trim_end_spec(s: Seq<char>) -> Seq<char>
    decreases s.len(),
{
    if s.len() > 0 && is_white_space(s.last()) { trim_end_spec(s.drop_last()) } else { s }
}

/// `s` without its leading and trailing white space.
pub open spec fn trim_spec(s: Seq<char>) -> Seq<char> {
    trim_end_spec(trim_start_spec(s))
}

/// Whether every character of `d` is a decimal digit.
pub open spec fn all_digits(d: Seq<char>) -> bool {
    forall|i: int| 0 <= i < d.len() ==> '0' <= #[trigger] d[i] <= '9'
}

/// The number that the decimal digits `d` write.
pub open spec fn digits_value(d: Seq<char>) -> int
    decreases d.len(),
{
    if d.len() == 0 { 0 } else { digits_value(d.drop_last()) * 10 + (d.last() as int - '0' as int) }
}

/// The `u32` that `s` writes in decimal, after an optional `+`, or `None`
/// when `s` holds anything else or a number above `u32::MAX`.
pub open spec fn parse_u32_spec(s: Seq<char>) -> Option<u32> {
    let d = if s.len() > 0 && s[0] == '+' { s.drop_first() } else { s };
    if d.len() > 0 && all_digits(d) && digits_value(d) <= u32::MAX { Some(digits_value(d) as u32) } else { None }
}

/// `str::trim`: the slice without its leading and trailing white space, as
/// Unicode's White_Space property defines it.
#[verifier::external_body]
fn trim_line(s: &str) -> (t: &str)
    ensures
        t@ == trim_spec(s@),
{
    s.trim()
}

/// `str::parse::<u32>`: the number written in decimal, after an optional
/// `+`; any other character, no digit, or a number above `u32::MAX` is an
/// error, given here as `None`.
#[verifier::external_body]
fn parse_u32(s: &str) -> (r: Option<u32>)
    ensures
        r == parse_u32_spec(s@),
{
    s.parse::<u32>().ok()
}

/// The colour a line of the palette file gives: its trimmed text read as a
/// decimal `u32`.
pub open spec fn line_color(line: Seq<char>) -> Option<u32> {
    parse_u32_spec(trim_spec(line))
}

/// The sixteen preset colours the palette starts with, in its first cells.
pub open spec fn preset_color(i: int) -> u32 {
    if i == 0 { 0x00000000 }
    else if i == 1 { 0x000000FF }
    else if i == 2 { 0xFFFFFFFF }
    else if i == 3 { 0x808080FF }
    else if i == 4 { 0xC0C0C0FF }
    else if i == 5 { 0x800000FF }
    else if i == 6 { 0xFF0000FF }
    else if i == 7 { 0x808000FF }
    else if i == 8 { 0xFFFF00FF }
    else if i == 9 { 0x008000FF }
    else if i == 10 { 0x00FF00FF }
    else if i == 11 { 0x008080FF }
    else if i == 12 { 0x00FFFFFF }
    else if i == 13 { 0x000080FF }
    else if i == 14 { 0x800080FF }
    else { 0xFF00FFFF }
}

/// What a press on the palette asks of the widget.
#[derive(Copy, Clone)]
pub struct PaletteEvent {
    /// Redraw the palette.
    pub queue_draw: bool,
    /// Emit "color-changed" with the foreground and background colours.
    pub color_changed: Option<(u32, u32)>,
    /// Emit "choose-color" with the index of a cell.
    pub choose_color: Option<u32>,
}

/// The state of the palette.
pub struct PaletteDatas {
    pub nb_columns: i32,
    pub nb_rows: i32,
    pub cell_size: i32,
    pub colors: Vec<u32>,
    pub foreground_color: u32,
    pub background_color: u32,
}

/// How many lines of the file `load_colors` reads: up to the foreground,
/// the background and one line per cell, and at least one.
pub open spec fn load_count(p: &PaletteDatas, n_lines: int) -> int {
    let max_index = ((p.nb_columns * p.nb_rows + 2) as usize) as int;
    if n_lines <= max_index || n_lines == 0 { n_lines } else if max_index >= 1 { max_index } else { 1 }
}

/// Line `j` of the file gives a colour, and a place for it.
pub open spec fn line_fits(p: &PaletteDatas, lines: Seq<String>, j: int) -> bool {
    &&& line_color(lines[j]@) is Some
    &&& j >= 2 ==> j - 2 < p.colors.len()
}

/// The palette `p` once the first `n` lines of the file are read into it.
pub open spec fn loaded(p: &PaletteDatas, q: &PaletteDatas, lines: Seq<String>, n: int) -> bool {
    &&& q.nb_columns == p.nb_columns
    &&& q.nb_rows == p.nb_rows
    &&& q.cell_size == p.cell_size
    &&& q.foreground_color == if n >= 1 { line_color(lines[0]@)->0 } else { p.foreground_color }
    &&& q.background_color == if n >= 2 { line_color(lines[1]@)->0 } else { p.background_color }
    &&& q.colors@.len() == p.colors@.len()
    &&& forall|k: int| 0 <= k < p.colors@.len() ==> #[trigger] q.colors@[k] == if k + 2 < n {
        line_color(lines[k + 2]@)->0
    } else {
        p.colors@[k]
    }
}

/// The cell a pointer position falls on, counted row by row, before it is
/// made a `usize`.
pub open spec fn cell_index(p: &PaletteDatas, mx: int, my: int) -> int {
    let c = p.cell_size as int;
    trunc_div(mx - 2 * c - 4, c) + trunc_div(my - 4, c) * p.nb_columns
}

/// The computation of the cell under `(mx, my)` stays within `i32`.
pub open spec fn index_ok(p: &PaletteDatas, mx: i32, my: i32) -> bool {
    let c = p.cell_size as int;
    &&& c > 0
    &&& 2 * c <= i32::MAX
    &&& i32::MIN <= mx - 2 * c - 4
    &&& i32::MIN <= my - 4
    &&& i32::MIN <= trunc_div(my - 4, c) * p.nb_columns <= i32::MAX
    &&& i32::MIN <= cell_index(p, mx as int, my as int) <= i32::MAX
}

/// Whether `(mx, my)` lies over the colour cells.
pub open spec fn in_zone(p: &PaletteDatas, mx: int, my: int) -> bool {
    mx > 2 * p.cell_size && my < 2 * p.cell_size
}

/// A press at `(mx, my)` can be handled: a press on the cells computes the
/// cell within `i32`, and a single press picks a cell that exists.
pub open spec fn palette_press_ok(p: &PaletteDatas, double: bool, button: u32, mx: i32, my: i32) -> bool {
    &&& 2 * p.cell_size <= i32::MAX
    &&& 2 * p.cell_size >= i32::MIN
    &&& in_zone(p, mx as int, my as int) && (button == 1 || (!double && button == 3)) ==> {
        &&& index_ok(p, mx, my)
        &&& !double ==> ((cell_index(p, mx as int, my as int) as usize) as int) < p.colors@.len()
    }
}

/// What a press on the palette does: see `button_press_event`.
pub open spec fn palette_pressed(o: PaletteDatas, f: PaletteDatas, ev: PaletteEvent, double: bool, button: u32, mx: i32,
    my: i32) -> bool {
    let zone = in_zone(&o, mx as int, my as int);
    let id = (cell_index(&o, mx as int, my as int) as usize) as int;
    let none = PaletteEvent { queue_draw: false, color_changed: None, choose_color: None };
    if double {
        &&& f == o
        &&& ev == if button == 1 && zone { PaletteEvent { choose_color: Some(id as u32), ..none } } else { none }
    } else if button == 1 {
        if zone {
            &&& f == (PaletteDatas { foreground_color: o.colors@[id], ..o })
            &&& ev == (PaletteEvent { queue_draw: true, color_changed: Some((o.colors@[id], o.background_color)), ..none })
        } else {
            &&& f == (PaletteDatas { foreground_color: o.background_color, background_color: o.foreground_color, ..o })
            &&& ev == (PaletteEvent { queue_draw: true, color_changed: Some((o.background_color, o.foreground_color)), ..none })
        }
    } else if button == 3 && zone {
        &&& f == (PaletteDatas { background_color: o.colors@[id], ..o })
        &&& ev == (PaletteEvent { queue_draw: true, color_changed: Some((o.foreground_color, o.colors@[id])), ..none })
    } else {
        f == o && ev == none
    }
}

impl PaletteDatas {
    /// A palette of 14 x 2 cells of 12 pixels with no colours yet, blue
    /// foreground and transparent black background.
    pub fn new() -> (p: Self)
        ensures
            p.nb_columns == 14,
            p.nb_rows == 2,
            p.cell_size == 12,
            p.colors@ == Seq::<u32>::empty(),
            p.foreground_color == 0x0000FFFF,
            p.background_color == 0,
    {
        Self {
            nb_columns: 14,
            nb_rows: 2,
            cell_size: 12,
            colors: Vec::new(),
            foreground_color: 0x0000FFFF,
            background_color: 0x00,
        }
    }

    /// Sets the palette up as the widget shows it: 32 x 2 cells, 64 light
    /// grey cells added, the first sixteen set to the preset colours.
    pub fn constructed(&mut self)
        requires
            old(self).colors@.len() + 64 <= usize::MAX,
        ensures
            final(self).nb_columns == 32,
            final(self).nb_rows == 2,
            final(self).cell_size == old(self).cell_size,
            final(self).foreground_color == 0x0000FFFF,
            final(self).background_color == 0,
            final(self).colors@.len() == old(self).colors@.len() + 64,
            forall|i: int| 0 <= i < final(self).colors@.len() ==> #[trigger] final(self).colors@[i] == if i < 16 {
                preset_color(i)
            } else if i < old(self).colors@.len() {
                old(self).colors@[i]
            } else {
                0xE0E0E0FFu32
            },
    {
        self.nb_columns = 32;
        self.nb_rows = 2;
        self.foreground_color = 0x0000FFFF;
        self.background_color = 0x00;
        let n0 = self.colors.len();
        let mut i: i32 = 0;
        while i < self.nb_columns * self.nb_rows
            invariant
                self.nb_columns == 32,
                self.nb_rows == 2,
                self.cell_size == old(self).cell_size,
                self.foreground_color == 0x0000FFFF,
                self.background_color == 0,
                0 <= i <= 64,
                self.colors@.len() == n0 + i,
                n0 == old(self).colors@.len(),
                n0 + 64 <= usize::MAX,
                forall|k: int| 0 <= k < n0 ==> #[trigger] self.colors@[k] == old(self).colors@[k],
                forall|k: int| n0 <= k < n0 + i ==> #[trigger] self.colors@[k] == 0xE0E0E0FFu32,
            decreases 64 - i,
        {
            self.colors.push(0xE0E0E0FF);
            i = i + 1;
        }
        let presets: [u32; 16] = [
            0x00000000, 0x000000FF, 0xFFFFFFFF, 0x808080FF, 0xC0C0C0FF, 0x800000FF, 0xFF0000FF, 0x808000FF,
            0xFFFF00FF, 0x008000FF, 0x00FF00FF, 0x008080FF, 0x00FFFFFF, 0x000080FF, 0x800080FF, 0xFF00FFFF,
        ];
        let ghost before = self.colors@;
        let mut j: usize = 0;
        while j < 16
            invariant
                self.nb_columns == 32,
                self.nb_rows == 2,
                self.cell_size == old(self).cell_size,
                self.foreground_color == 0x0000FFFF,
                self.background_color == 0,
                0 <= j <= 16,
                self.colors@.len() == before.len(),
                before.len() >= 64,
                presets@.len() == 16,
                forall|k: int| 0 <= k < 16 ==> #[trigger] presets@[k] == preset_color(k),
                forall|k: int| 0 <= k < self.colors@.len() ==> #[trigger] self.colors@[k] == if k < j { preset_color(k) } else { before[k] },
            decreases 16 - j,
        {
            self.colors.set(j, presets[j]);
            j = j + 1;
        }
    }

    /// The cell size that fits the widget: the largest that fits both
    /// across, beside the two cells of the current colours, and down.
    pub fn compute_cell_size(&mut self, win_width: i32, win_height: i32)
        requires
            old(self).nb_columns + 2 != 0,
            old(self).nb_rows != 0,
            old(self).nb_columns + 2 <= i32::MAX,
            win_width - 4 >= i32::MIN,
            win_height - 4 >= i32::MIN,
            !(win_width - 4 == i32::MIN && old(self).nb_columns + 2 == -1),
            !(win_height - 4 == i32::MIN && old(self).nb_rows == -1),
        ensures
            final(self).cell_size == ({
                let o1 = trunc_div(win_width - 4, old(self).nb_columns + 2);
                let o2 = trunc_div(win_height - 4, old(self).nb_rows as int);
                if o1 < o2 { o1 } else { o2 }
            }),
            final(self).colors == old(self).colors,
            final(self).nb_columns == old(self).nb_columns,
            final(self).nb_rows == old(self).nb_rows,
            final(self).foreground_color == old(self).foreground_color,
            final(self).background_color == old(self).background_color,
    {
        let o1 = crate::edit_area::div_trunc(win_width - 4, self.nb_columns + 2);
        let o2 = crate::edit_area::div_trunc(win_height - 4, self.nb_rows);
        if o1 < o2 {
            self.cell_size = o1;
        } else {
            self.cell_size = o2;
        }
    }

    /// Whether the pointer at `(mx, my)` lies over the colour cells.
    pub fn in_colors_zone(&self, mx: i32, my: i32) -> (inside: bool)
        requires
            i32::MIN <= 2 * self.cell_size <= i32::MAX,
        ensures
            inside == in_zone(self, mx as int, my as int),
    {
        (mx > (2 * self.cell_size)) && (my < (2 * self.cell_size))
    }

    /// The index of the cell under the pointer at `(mx, my)`, counted row by
    /// row, as a `usize`.
    pub fn mouse_to_color_index(&self, mx: i32, my: i32) -> (id: usize)
        requires
            index_ok(self, mx, my),
        ensures
            id == cell_index(self, mx as int, my as int) as usize,
    {
        let x: i32 = crate::edit_area::div_trunc((mx - (2 * self.cell_size)) - 4, self.cell_size);
        let y: i32 = crate::edit_area::div_trunc(my - 4, self.cell_size);
        (x + y * self.nb_columns) as usize
    }

    /// The colour of the cell under the pointer at `(mx, my)`.
    pub fn mouse_to_color(&self, mx: i32, my: i32) -> (c: u32)
        requires
            index_ok(self, mx, my),
            ((cell_index(self, mx as int, my as int) as usize) as int) < self.colors@.len(),
        ensures
            c == self.colors@[(cell_index(self, mx as int, my as int) as usize) as int],
    {
        let id = self.mouse_to_color_index(mx, my);
        self.colors[id]
    }

    /// Sets the foreground colour; when asked, gives the colours to emit
    /// with "color-changed".
    pub fn set_foreground_color(&mut self, col: u32, f_emit_signal: bool) -> (signal: Option<(u32, u32)>)
        ensures
            *final(self) == (PaletteDatas { foreground_color: col, ..*old(self) }),
            signal == if f_emit_signal { Some((col, old(self).background_color)) } else { None },
    {
        self.foreground_color = col;
        if f_emit_signal {
            Some((self.foreground_color, self.background_color))
        } else {
            None
        }
    }

    /// Sets the background colour; when asked, gives the colours to emit
    /// with "color-changed".
    pub fn set_background_color(&mut self, col: u32, f_emit_signal: bool) -> (signal: Option<(u32, u32)>)
        ensures
            *final(self) == (PaletteDatas { background_color: col, ..*old(self) }),
            signal == if f_emit_signal { Some((old(self).foreground_color, col)) } else { None },
    {
        self.background_color = col;
        if f_emit_signal {
            Some((self.foreground_color, self.background_color))
        } else {
            None
        }
    }

    /// The foreground colour.
    pub fn get_foreground_color(&self) -> (c: u32)
        ensures
            c == self.foreground_color,
    {
        self.foreground_color
    }

    /// The background colour.
    pub fn get_background_color(&self) -> (c: u32)
        ensures
            c == self.background_color,
    {
        self.background_color
    }

    /// Sets the colour of cell `id`.
    pub fn set_cell_color(&mut self, id: usize, col: u32)
        requires
            id < old(self).colors@.len(),
        ensures
            final(self).colors@ == old(self).colors@.update(id as int, col),
            final(self).nb_columns == old(self).nb_columns,
            final(self).nb_rows == old(self).nb_rows,
            final(self).cell_size == old(self).cell_size,
            final(self).foreground_color == old(self).foreground_color,
            final(self).background_color == old(self).background_color,
    {
        self.colors.set(id, col);
    }

    /// The colour of cell `id`.
    pub fn get_cell_color(&self, id: usize) -> (c: u32)
        requires
            id < self.colors@.len(),
        ensures
            c == self.colors@[id as int],
    {
        self.colors[id]
    }

    /// The numbers the palette file holds, one per line: the foreground
    /// colour, the background colour, then every cell.
    pub fn save_colors(&self) -> (values: Vec<u32>)
        ensures
            values@ == seq![self.foreground_color, self.background_color] + self.colors@,
    {
        let mut values: Vec<u32> = Vec::new();
        values.push(self.foreground_color);
        values.push(self.background_color);
        let mut i: usize = 0;
        while i < self.colors.len()
            invariant
                i <= self.colors@.len(),
                values@ == seq![self.foreground_color, self.background_color] + self.colors@.subrange(0, i as int),
            decreases self.colors@.len() - i,
        {
            values.push(self.colors[i]);
            i = i + 1;
            assert(self.colors@.subrange(0, i as int) == self.colors@.subrange(0, i - 1).push(self.colors@[i - 1]));
        }
        assert(self.colors@.subrange(0, self.colors@.len() as int) == self.colors@);
        values
    }

    fn index_fits(&self, mx: i32, my: i32) -> (ok: bool)
        ensures
            ok == index_ok(self, mx, my),
    {
        let c = self.cell_size as i64;
        if !(c > 0 && 2 * c <= i32::MAX as i64) {
            return false;
        }
        let a = mx as i64 - 2 * c - 4;
        let b = my as i64 - 4;
        if a < i32::MIN as i64 || b < i32::MIN as i64 {
            return false;
        }
        let x = crate::edit_area::div_trunc(a as i32, c as i32) as i64;
        let y = crate::edit_area::div_trunc(b as i32, c as i32) as i64;
        assert(-0x4000_0000_0000_0000 <= y * (self.nb_columns as i64) <= 0x4000_0000_0000_0000) by (nonlinear_arith)
            requires
                i32::MIN <= y <= i32::MAX,
                i32::MIN <= self.nb_columns <= i32::MAX,
        ;
        let ycols = y * self.nb_columns as i64;
        if ycols < i32::MIN as i64 || ycols > i32::MAX as i64 {
            return false;
        }
        let idx = x + ycols;
        i32::MIN as i64 <= idx && idx <= i32::MAX as i64
    }

    /// Whether a press at `(mx, my)` can be handled: see `palette_press_ok`.
    pub fn press_fits(&self, double: bool, button: u32, mx: i32, my: i32) -> (ok: bool)
        ensures
            ok == palette_press_ok(self, double, button, mx, my),
    {
        let c = self.cell_size as i64;
        if !(2 * c <= i32::MAX as i64 && 2 * c >= i32::MIN as i64) {
            return false;
        }
        let zone = self.in_colors_zone(mx, my);
        if !(zone && (button == 1 || (!double && button == 3))) {
            return true;
        }
        if !self.index_fits(mx, my) {
            return false;
        }
        double || self.mouse_to_color_index(mx, my) < self.colors.len()
    }

    /// Reads the palette file, given as its lines: the first line is the
    /// foreground colour, the second the background colour, the next ones
    /// the cells, up to the last cell. Each line is trimmed and read as a
    /// decimal `u32`. A line that does not read, or that has no cell, stops
    /// the reading with its index, the lines before it being read in.
    pub fn load_colors(&mut self, lines: &Vec<String>) -> (r: Result<(), usize>)
        requires
            i32::MIN <= old(self).nb_columns * old(self).nb_rows <= i32::MAX,
            i32::MIN <= old(self).nb_columns * old(self).nb_rows + 2 <= i32::MAX,
        ensures
            ({
                let n = load_count(&*old(self), lines@.len() as int);
                match r {
                    Ok(()) => {
                        &&& forall|j: int| 0 <= j < n ==> #[trigger] line_fits(&*old(self), lines@, j)
                        &&& loaded(&*old(self), &*final(self), lines@, n)
                    },
                    Err(e) => {
                        &&& e < n
                        &&& forall|j: int| 0 <= j < e ==> #[trigger] line_fits(&*old(self), lines@, j)
                        &&& !line_fits(&*old(self), lines@, e as int)
                        &&& loaded(&*old(self), &*final(self), lines@, e as int)
                    },
                }
            }),
    {
        let max_index = #[verifier::truncate] ((self.nb_columns * self.nb_rows + 2) as usize);
        let ghost p0 = *self;
        let mut i: usize = 0;
        while i < lines.len() && (i == 0 || i < max_index)
            invariant
                p0 == *old(self),
                max_index as int == (#[verifier::truncate] ((p0.nb_columns * p0.nb_rows + 2) as usize)) as int,
                i <= lines@.len(),
                i <= load_count(&p0, lines@.len() as int),
                i <= 1 || i <= max_index,
                forall|j: int| 0 <= j < i ==> #[trigger] line_fits(&p0, lines@, j),
                loaded(&p0, &*self, lines@, i as int),
            decreases lines@.len() - i,
        {
            let t = trim_line(lines[i].as_str());
            let c = match parse_u32(t) {
                Some(c) => c,
                None => {
                    return Err(i);
                },
            };
            if i == 0 {
                self.foreground_color = c;
            } else if i == 1 {
                self.background_color = c;
            } else {
                if i - 2 >= self.colors.len() {
                    return Err(i);
                }
                self.colors.set(i - 2, c);
            }
            i = i + 1;
        }
        Ok(())
    }

    /// A press of `button` at `(mx, my)` on the palette, a double click when
    /// `double`. A double click of button 1 on a cell asks to choose that
    /// cell's colour. A click of button 1 on a cell makes its colour the
    /// foreground colour, and elsewhere swaps the two colours; a click of
    /// button 3 on a cell makes its colour the background colour.
    pub fn button_press_event(&mut self, double: bool, button: u32, mx: i32, my: i32) -> (ev: PaletteEvent)
        requires
            palette_press_ok(&*old(self), double, button, mx, my),
        ensures
            palette_pressed(*old(self), *final(self), ev, double, button, mx, my),
    {
        let mut ev = PaletteEvent { queue_draw: false, color_changed: None, choose_color: None };
        if double {
            if button == 1 {
                if self.in_colors_zone(mx, my) {
                    let idcol: u32 = self.mouse_to_color_index(mx, my) as u32;
                    ev.choose_color = Some(idcol);
                }
            }
        } else if button == 1 {
            if self.in_colors_zone(mx, my) {
                let col = self.mouse_to_color(mx, my);
                self.foreground_color = col;
            } else {
                let col = self.foreground_color;
                self.foreground_color = self.background_color;
                self.background_color = col;
            }
            ev.queue_draw = true;
            ev.color_changed = Some((self.foreground_color, self.background_color));
        } else if button == 3 {
            if self.in_colors_zone(mx, my) {
                let col = self.mouse_to_color(mx, my);
                self.background_color = col;
                ev.queue_draw = true;
                ev.color_changed = Some((self.foreground_color, self.background_color));
            }
        }
        ev
    }
}

/// The decimal digit `d`, from 0 to 9.
pub open spec fn digit_char(d: int) -> char {
    if d == 0 { '0' }
    else if d == 1 { '1' }
    else if d == 2 { '2' }
    else if d == 3 { '3' }
    else if d == 4 { '4' }
    else if d == 5 { '5' }
    else if d == 6 { '6' }
    else if d == 7 { '7' }
    else if d == 8 { '8' }
    else { '9' }
}

/// `v` written in decimal, with no leading zero.
pub open spec fn decimal_chars(v: nat) -> Seq<char>
    decreases v,
{
    if v < 10 { seq![digit_char(v as int)] } else { decimal_chars(v / 10).push(digit_char((v % 10) as int)) }
}

proof fn lemma_digit_char(k: int)
    requires
        0 <= k <= 9,
    ensures
        digit_char(k) as int == k + '0' as int,
        '0' <= digit_char(k) <= '9',
{
}

proof fn lemma_decimal_digits(v: nat)
    ensures
        decimal_chars(v).len() > 0,
        all_digits(decimal_chars(v)),
        digits_value(decimal_chars(v)) == v,
        decimal_chars(v)[0] != '+',
        !is_white_space(decimal_chars(v)[0]),
        !is_white_space(decimal_chars(v).last()),
    decreases v,
{
    let d = decimal_chars(v);
    lemma_digit_char((v % 10) as int);
    if v < 10 {
        assert(d.drop_last() =~= Seq::<char>::empty());
        assert(digits_value(d.drop_last()) == 0);
        assert(d.last() == digit_char(v as int));
        assert(digits_value(d) == digits_value(d.drop_last()) * 10 + (d.last() as int - '0' as int));
    } else {
        lemma_decimal_digits(v / 10);
        let e = decimal_chars(v / 10);
        assert(d.drop_last() =~= e);
        assert(d.last() == digit_char((v % 10) as int));
        assert(digits_value(d) == digits_value(d.drop_last()) * 10 + (d.last() as int - '0' as int));
        assert(digits_value(d) == (v / 10) * 10 + v % 10);
        assert forall|i: int| 0 <= i < d.len() implies '0' <= #[trigger] d[i] <= '9' by {
            if i < e.len() {
                assert(d[i] == e[i]);
            }
        }
    }
}

/// A line holding a colour written in decimal reads back as that colour.
pub proof fn lemma_decimal_line_reads_back(v: u32)
    ensures
        line_color(decimal_chars(v as nat)) == Some(v),
{
    let d = decimal_chars(v as nat);
    lemma_decimal_digits(v as nat);
    assert(trim_start_spec(d) == d);
    assert(trim_end_spec(d) == d);
}

/// The numbers `save_colors` gives, each written in decimal on a line of its
/// own, read back into a palette with as many cells give back the same
/// colours, every line reading.
pub proof fn lemma_saved_palette_reads_back(p: PaletteDatas, q: PaletteDatas, r: PaletteDatas, lines: Seq<String>)
    requires
        lines.len() == p.colors@.len() + 2,
        forall|j: int| 0 <= j < lines.len() ==> #[trigger] lines[j]@ == decimal_chars(
            (seq![p.foreground_color, p.background_color] + p.colors@)[j] as nat),
        q.colors@.len() == p.colors@.len(),
        q.nb_columns * q.nb_rows + 2 == lines.len(),
        q.nb_columns * q.nb_rows + 2 <= i32::MAX,
        loaded(&q, &r, lines, load_count(&q, lines.len() as int)),
    ensures
        load_count(&q, lines.len() as int) == lines.len(),
        forall|j: int| 0 <= j < lines.len() ==> #[trigger] line_fits(&q, lines, j),
        r.foreground_color == p.foreground_color,
        r.background_color == p.background_color,
        r.colors@ == p.colors@,
{
    let vals = seq![p.foreground_color, p.background_color] + p.colors@;
    assert forall|j: int| 0 <= j < lines.len() implies line_color(#[trigger] lines[j]@) == Some(vals[j]) by {
        lemma_decimal_line_reads_back(vals[j]);
    }
    assert forall|j: int| 0 <= j < lines.len() implies #[trigger] line_fits(&q, lines, j) by {
        assert(line_color(lines[j]@) == Some(vals[j]));
    }
    assert(line_color(lines[0]@) == Some(vals[0]));
    assert(line_color(lines[1]@) == Some(vals[1]));
    assert forall|k: int| 0 <= k < p.colors@.len() implies #[trigger] r.colors@[k] == p.colors@[k] by {
        assert(line_color(lines[k + 2]@) == Some(vals[k + 2]));
    }
    assert(r.colors@ =~= p.colors@);
}

/// Two clicks of button 1 beside the colour cells give back the two colours.
pub proof fn lemma_two_swaps(a: PaletteDatas, b: PaletteDatas, c: PaletteDatas, e1: PaletteEvent, e2: PaletteEvent, mx: i32,
    my: i32)
    requires
        !in_zone(&a, mx as int, my as int),
        palette_pressed(a, b, e1, false, 1, mx, my),
        palette_pressed(b, c, e2, false, 1, mx, my),
    ensures
        c == a,
{
}

/// A click anywhere on the square drawn for the cell in column `col` and row
/// `row` picks that cell: the cell is drawn at `((col + 2) * c + 4, row * c + 4)`.
pub proof fn lemma_click_picks_cell(p: PaletteDatas, col: int, row: int, dx: int, dy: int)
    requires
        p.cell_size > 0,
        0 <= col,
        0 <= row,
        0 <= dx < p.cell_size,
        0 <= dy < p.cell_size,
    ensures
        cell_index(&p, (col + 2) * p.cell_size + 4 + dx, row * p.cell_size + 4 + dy) == col + row * p.nb_columns,
{
    let c = p.cell_size as int;
    assert((col * c + dx) / c == col) by (nonlinear_arith)
        requires
            c > 0,
            0 <= col,
            0 <= dx < c,
    ;
    assert((row * c + dy) / c == row) by (nonlinear_arith)
        requires
            c > 0,
            0 <= row,
            0 <= dy < c,
    ;
    assert((col + 2) * c + 4 + dx - 2 * c - 4 == col * c + dx) by (nonlinear_arith);
}

} // verus!
