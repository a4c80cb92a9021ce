# plan

An infinite canvas of images, videos and text, built with egui.

- `src/` is the verified library (Verus): the undo history of the canvas
  objects, the selection and the drag state machine, the editing tools'
  decisions, the keyboard shortcuts, bookmarks of views, notifications, the
  inspector panel, which files are shown and at what level of detail (with
  the texture cache and animation timing), decoding image files, GIF frames
  and thumbnails from their bytes, how moved files are found again
  by size and content hash, and packing rectangles side by side.
- `app/` is the egui/eframe program around it: drawing, pointer and keyboard
  input, file and image I/O, threads, and the floating-point geometry of
  objects and views.
- `tests/` exercise the library on concrete values.

Objects are keyed by the 128-bit value of their UUID.
