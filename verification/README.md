# wakfu_png

Readers for the binary formats of the Wakfu client (animations, textures, map
environments, light maps, layer groups and binary data tables), with the decisions that
turn them into images, verified with Verus, and a command-line program that renders the
dynamic elements of a map to PNG files.

## Layout

- `src/`: the verified library. Each reader states, as a spec function over the bytes,
  what a format holds, where the data is cut short (an error) and where reading is not
  defined (left out by the reader's precondition); the executable reader is proved to
  return exactly that. Proof functions state the properties that hold across readers and
  calls (what a reader keeps in range, what an obfuscated value reads back as, which
  layers a floor sees, how frame times follow durations, ...).
  - `archive`: the entries of the game's zip archives, had through the `zip` crate;
    the loaders of groups, environments, light and binary data tables read their
    archives through it.
  - `buffer`, `bytes`, `parse`: byte readers over `bytebuffer::ByteBuffer` and over
    slices, and the combinators the format specs are written with.
  - `anm*`, `sprite_def`, `sprite_definition`, `interactive_anim`,
    `anm_frame_processor`, `anm_instance`: animation files, their sprite definitions,
    frames, shapes and actions, and the steps that walk a frame.
  - `tga`, `tgam`, `imageops`, `pixels`, `png`, `sprite`: textures, the cutting and
    mirroring of their pixels, the decoding of PNG atlases (through the `image` crate),
    animation names and the integer side of compositing.
  - `groups`, `layer_manager`, `environment`, `frames`, `light`: map data.
  - `random_byte_buffer_reader`, `binary_document`, `binary_data`,
    `binar_serial_part`, `interactive_element_data`: the obfuscated data tables.
- `tests/`: tests on concrete bytes.
- `app/`: the program: file access, floating-point transforms, image
  warping and blending, and PNG output.
