# pptx

Reading and writing the XML parts of PowerPoint (.pptx) presentations, with the
behaviour of every operation stated as a contract and proved with Verus.

A presentation is modelled as an OPC package (`opc`): parts with their content types,
bytes and relationships, and the package relationships. Each operation of
`presentation::Presentation` is specified as a function from the package before to the
package after (or to what it reads), over that model; for example `add_slide` is
specified by `slide_added`, `set_print_settings` by `print_settings_set`.

Layout of `src/`:

- `opc`: part names and their resolution, relationships, parts, the package, and the
  zip archive a package is saved to and opened from (`archive`, `serialize`, `load`,
  `roundtrip`).
- `presentation`: the operations on slides, layouts, notes, print settings, macros,
  embedded fonts, digital signatures, images, themes, SmartArt and core properties, and
  `laws`, the properties that relate them.
- `slide`, `id_list`, `edit`, `scan`: the text-level editing of presentation, slide and
  master XML that those operations rest on.
- `xml`: the points where the library asks the quick-xml reader about XML text.
- `repair`: validation of a package and the repairs of broken references.
- `shapes`: the shapes of a slide (`model`: shapes, pictures, graphic frames, connectors
  and groups with the XML each is written as; `parse`: reading a slide's shape tree;
  `text_frame` and `text_xml`: text frames, paragraphs, runs and their formatting, read
  from and written to `<p:txBody>`; `color`, `fill` and `fill_xml`: colours, fills,
  gradients and outlines read from `<p:spPr>` and written back), click actions, placeholders, freeform geometry and
  new-shape XML.
- `signature`, `print_settings`, `section`, `enums`, `units`, `text`, `media`,
  `theme`, `smartart`, `core_properties`: element writers, readers and value types.

Angles are held in 60000ths of a degree, crop fractions, adjustment values, gradient
positions, luminance modifiers and brightness in 100000ths, font sizes in hundredths of a
point and font scales in 1000ths of a percent: the units in which the XML carries them.

`verus` checks the library; the tests under `tests/` run it on concrete presentations.
`app/` opens and saves presentation files on disk.
