# gles_command

A recorder of graphics commands for an OpenGL ES backend of WebGPU. Passes,
pipelines, bind groups, draws, copies and queries are recorded as a list of
commands that a queue later executes. The recorder tracks the state that the
commands set, leaves out what is set already, and issues late what depends on a
draw.

- `src/` is the recorder, verified with Verus. `encoder` holds the recorder,
  `state` what it tracks and `command` what it records. `draw`, `bind`,
  `pipeline`, `pass` and `transfer` hold the operations: each says in its
  contract which commands it records and what becomes of the tracked state.
  `laws`, `sync` and `groups` state what holds of all of them: recording only
  appends, the tracked state is what the commands leave behind, and a pass
  closes the group that it opens.
- `lists`, `gl` and `webgpu` are the boundary to `arrayvec`, `glow` and
  `wgpu_types`.
- `tests/` runs the recorder on concrete values.
- `app/` is the interface for a WebGPU implementation, with floating-point
  numbers and iterators in its signatures.
