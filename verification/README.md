# wincanvas

A window switcher that shows live thumbnails of every open window on a
pannable, zoomable canvas. This crate is its verified core, written in
Verus; the Win32 program around it lives in `app/`.

## Layout

- `src/search.rs` – the search query and case-insensitive title matching.
- `src/ordering.rs` – which windows are shown and in what order: filtering,
  the arrangement saved by dragging, moving a dragged cell.
- `src/selection.rs` – keyboard commands, moving the selection, arrow-key
  navigation between rows.
- `src/events.rs` – decisions on mouse, hotkey and timer events.
- `src/geometry.rs` – integer screen rectangles: titles, thumbnails, hit
  testing, drop positions, window placement, scrolling a cell into view.
- `src/windows_info.rs` – which windows are listed, process names, cell
  titles, window sizes, thumbnail properties, the current virtual desktop.
- `src/input.rs`, `src/timing.rs` – message parameter decoding and
  animation tick arithmetic.
- `app/` – the Win32 message loop, Direct2D drawing, DWM thumbnails, and the
  floating-point pan/zoom/layout code.
