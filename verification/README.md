# sprite_ed

A pixel sprite editor for GTK+ 3. The editing core is a library whose
behaviour is stated in `requires` / `ensures` contracts and proved with Verus;
the GTK+ program around it lives in `app/`.

## Layout

- `src/` — the verified library
  - `rgb_utils`: colours packed as `0xRRGGBBAA`
  - `sprite`: the pixel buffer, with `copy_area` as GdkPixbuf does it
  - `draw`: Bresenham lines, rectangle outlines and fills
  - `ellipse`: Van Aken's ellipse outline and fill, traced step by step
  - `fill`: scan-line flood fill, proved to recolour exactly the 4-connected
    region of the start colour
  - `transform`: mirrors and quarter turns
  - `rhandle`, `select_rect`: the rectangles the tools drag
  - `edit_area`: the editor's state, undo, clipboard block and tool commands
  - `tools`, `shape_tools`, `select_tool`: what each tool does with a press,
    a motion and a release
  - `events`: pointer events handed to the tool in use
  - `undo`: what undo gives back, stated and proved
  - `palette`: the colour cells and the palette file
  - `sprites_bar`: the eight sprites and their file names
- `tests/` — tests of the library on concrete values
- `app/` — widgets, drawing with cairo, dialogs, files and the clipboard

Pointer positions reach the library as whole numbers; the zoom factor, which
is a float, stays in `app/`.
