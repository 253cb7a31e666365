# visor

The verified core of Visor, a live-coding engine in which sketches written in
TypeScript draw shapes and fullscreen shaders and read MIDI controllers.

- `src/` is the library, written in Verus: every function carries a
  contract that Verus proves.
  - `midi/`: mapping files, the variables they declare (controls, relative
    encoders, notes), how incoming messages change them, and the plugin's
    bookkeeping of input devices.
  - `draw.rs`: the per-sketch drawing state (draws, shapes, their order,
    fullscreen shader passes) and the tracking of sketch sizes.
  - `shader.rs`: WGSL fullscreen shaders: parsing and validation (naga),
    uniform layout, uniform buffers and the registry of a sketch's shaders.
  - `module_loader.rs`: how sketch modules are loaded: by media type, with
    TypeScript and JSX transpiled (deno_ast).
  - `sketch.rs`: the decisions of the worker that runs a sketch (compile,
    setup, update, render).
  - `engine_update.rs`: the steps of an engine update, in order, and the
    sketch stores that go out to the sketches and come back.
  - `engine.rs`, `state_plugin.rs`, `log_plugin.rs`, `time.rs`: the engine's
    view of its sketches and the smaller plugins.
  - `name_map.rs`, `id_map.rs`: the maps the rest is built on (the latter
    over std's `HashMap`).
- `tests/` runs the library on concrete values.
- `app/` is the code around it that Verus does not check: files, channels,
  clocks and floating-point values.
