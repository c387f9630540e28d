# treescape

A treemap disk-usage explorer for the terminal, as a Verus-verified
library (`src/`) and a thin terminal program around it (`app/`).

## Layout

- `src/treemap.rs`, `src/tiling.rs`, `src/bignat.rs`: the squarified
  treemap in exact arithmetic (the free part of the area is kept as exact
  rationals; only the cells are rounded), and the proof that its cells
  tile the area (no overlaps, inside the area, areas summing to the
  area's).
- `src/tree.rs`: the scanned tree: directory sizes are their children's
  total, children are kept largest first with ties by name.
- `src/path.rs`, `src/text.rs`: Unix path components and character helpers.
- `src/scan.rs`: the incremental tree that the scan builds while the
  walker runs, the counters and state shared with the interface, and the
  walker's and builder's decisions; `src/scan/arrival.rs` shows that the
  published tree does not depend on the order the entries arrived in, as
  long as each entry names its own path, only directory entries hold
  entries, and no two entries filed under one directory share a name;
  `src/scan/rounds.rs` follows the builder's rounds over a whole scan and
  shows that publishing along the way gives the same final tree as one
  round over all the entries.
- `src/app.rs`: navigation: zooming, selection, key handling and spatial
  movement between tiles.
- `src/ui/`: what tiles, list rows and the footer show.
- `app/`: the terminal program: argument parsing, the walker and builder
  threads, theme detection and drawing with ratatui. Colors, scale
  weights and percentage bars are floating point and live there.
