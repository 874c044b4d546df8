# tail_f_plot

A live CSV/TSV plotter: it watches a data file, reads the rows appended to
it and draws the selected columns.

`src/` is the verified library (Verus):

- `text` — character-level trimming, decimal printing, string building.
- `csv` — assembling appended lines into rows, cutting a row into cells
  (delimiter, merged delimiters, fixed-width byte columns, quotes).
- `plot_state` — row-aligned series store, render window, legend values,
  visibility flags, line segments.
- `toolbar` — toolbar state machine and view-bounds bookkeeping.
- `hover` — row selection and values for the hover tooltip.
- `format` — tidying printed numbers and laying out the X readout.
- `config` — option names, colours, series names, title, help and error texts.

`app/` is the window program around it (egui/eframe, file watching,
command line, Windows window placement, floating-point work).
