# ssb_parser

Parser of text in the SSB ("SubStation Beta") subtitle format, verified with Verus.

- `src/` is the verified library: reading scripts line by line into `Ssb`
  (`parsers::ssb`), flattening macros and inserting them into event data
  (`utils::functions::macros`, `parsers::ssb_render`), iterating over the tags and
  geometries of event data (`utils::functions::event_iter`), parsing tags and geometries
  into event objects whose numbers are kept as their texts (`parsers::tags`,
  `parsers::geometries`, `objects`), value conversions (`utils::functions::convert`),
  sections and other enumerations (`utils::state`, `types`), errors (`error`), maps kept as
  entry lists (`maps`), and inverting the samples of video frame rows (`frame`). Each public
  function states its result in its contract; the public `law_*` proof functions state
  properties that span functions.
- `app/` holds what stands around the library: reading scripts from byte streams,
  loading textures from files, and turning the library's event objects into rendering
  objects by reading their number texts as floats.
- `tests/` runs the library on concrete inputs.
