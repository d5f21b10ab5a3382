# ruffle_core

The core logic of a Flash player, written in Verus: Verus checks every
function in `src/`, and proves the `requires`/`ensures` contracts they state.

Layout:

- `src/tag_decoder.rs`: SWF tag codes and the walk over a tag stream.
- `src/display_object/`: movie clip timelines (frame labels, gotos,
  preloading), the display list and execution list, video frames.
- `src/shape_utils.rs`, `src/shape_utils/converter.rs`: shape records,
  bounds, and the conversion of outlines into fill and stroke paths.
- `src/bitmap.rs`: JPEG/PNG/lossless bitmap handling and data URLs; the
  codecs themselves (`inflate`, `png`, `jpeg-decoder`, `base64`, `url`) are
  called through small trusted wrappers whose contracts are stated there.
- Outside collections are used behind small trusted wrappers too: an
  `fnv::FnvHashMap` holds the preload walk's morph shapes by depth, and a
  `smallvec::SmallVec` the depths a rewinding goto removes.
- `src/audio.rs`: sound stream formats and the stream preloader.
- `src/avm1.rs`, `src/avm2/`: AVM1 value helpers; AVM2 names, traits,
  class metadata and typed vector storage.
- `src/css/`, `src/html/`: the CSS cascade and selector matching used by
  the HTML text renderer.
- `app/`: the parts that stay outside verification: floating-point value
  semantics, random numbers, audio resampling and the renderer glue.
- `tests/`: executable tests against the library.
