# markup_swift

The logic of a small markdown editor with a live preview, written in Verus
with its contracts checked.

- `src/text.rs` — white space as Unicode defines it, word and line counts,
  truncation of labels.
- `src/preview.rs` — the events of the markdown parser (pulldown-cmark),
  the state kept while walking them, the blocks the preview renders, and the
  layout helpers for lines, headings and fonts.
- `src/highlight.rs` — the preview cache: the hash of the markdown last
  shown and the syntax-highlighted lines (syntect) of its code blocks.
- `src/app.rs` — tabs, the active tab, writing and focus modes, the tab
  switcher and the keyboard shortcuts.
- `src/edit.rs` — wrapping a selection in marks and prefixing the cursor's
  line, for typed characters and for the context menu; the editor's
  cursor is taken as byte positions that fall on character boundaries.
- `src/laws.rs` — properties that hold across the operations.
- `app/` — the egui window around the library: drawing, dialogs, files.
