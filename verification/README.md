# sebastian

The parsers, text utilities, stylesheet and markup builders of the sebastian
diagram renderer (mermaid syntax to SVG), written in Verus with their
behaviour stated as contracts and proved.

- `src/` — the verified library: diagram parsers (sequence, requirement,
  sankey, system chart, timeline, treemap, xychart), diagram type detection
  and init directives, the SVG element tree and its serializer, arrowhead
  marker definitions, theme-driven stylesheets, label text handling, line
  wrapping decisions, sankey node ranks, font selection, the seeded
  generator of the hand-drawn look, and the discrete decisions of the
  renderers (which actors a message's width spaces, which block a divider
  or end belongs to, how activations stack, the order boxes close, the
  arrowhead markers and legend of a system chart, the drawing order and
  colours of timeline nodes).
- `tests/` — tests of the library on concrete inputs.
- `app/` — the host side: reading fonts from disk, rasterizing with resvg,
  reading init directives as JSON, measuring text with ttf-parser, and the
  floating-point geometry, chart domains and number formatting.
