# gstudy

The verified core of GStudy, a rendering playground: the logic that decides
what the GPU and the window are asked to do, proved with Verus.

- `src/preprocessor/`: the shader preprocessor. Files of text with
  directives (`///#include`, `///#if`/`elseif`/`else`/`endif`,
  `///#decl`, `///#assign`) and references `#{name}` are parsed
  (`lexer`, `expr`, `command`), loaded breadth first with their includes
  (`loader`, cycles refused with `petgraph`), and expanded (`interp`,
  `expand`), each against a specification of its result.
- `src/compiler.rs`, `src/tshader/`: shader technique descriptions, pass
  ordering, variant keys and the memory layout of uniform structs.
- `src/pipeline.rs`: the layout of a render pipeline planned from shader
  reflection: vertex formats, vertex buffers packed per component, bind
  group entries merged across stages and grouped per set.
- `src/gpu_buffer.rs`, `src/ui.rs`, `src/canvas.rs`: sizing and placement of
  GPU buffers, packing of user interface meshes, and the states of a canvas.
- `src/ui_input.rs`: window keys, modifiers, characters and mouse buttons
  translated into user interface input.
- `src/task_executor.rs`: tasks that run renderer modules, their ids, the
  operations they are sent and the state each keeps between operations.
- `src/scene.rs`, `src/render.rs`, `src/executor.rs` and the small modules:
  scene bookkeeping, materials and module switching.
- `app/`: a command line front end that reads files for the preprocessor
  and the technique compiler.
- `tests/`: scenarios run against the compiled library.
