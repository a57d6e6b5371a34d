# glkit

The bookkeeping of a thin OpenGL toolkit, verified with Verus.

`src/` decides, `app/` acts. Every GL call, thread, window and file read is
made in `app/`; what to call, with which arguments, what state to keep and
which message to report is decided by verified functions in `src/`. Where
the work alternates (compiling the stages of a program), `src/` gives the
next step (`ShaderRegistry::lookup_step`, `ShaderManager::next_step`) and
`app/` carries it out and asks again:

- `tex_state`, `uniform_state`: texture units and buffer binding points,
  with reuse, garbage collection and deletion.
- `funcs`, `policy`: capabilities with a stack of saved values, cached
  state calls, and the bound/locked object of each kind.
- `texture`, `format`: mip-level extents and sizes, internal formats.
- `buffer`, `vao`, `mesh`, `Screen`, `Skybox`: byte ranges, attribute
  slots, index lists.
- `parsing`, `includes`, `shader_obj`: shader files split into sources,
  the shader header built from include files, compiler logs renumbered.
- `compiler`, `manager`: the shader registry of the compiler thread
  (sources, compiled objects, watched programs, rebuilds, results waiting
  to be taken) and the older per-stage shader manager.
- `uniform`, `debug`, `event`: uniform identifiers and caches, debug
  message filtering and labels, input modifiers.
- `sampler`: whether a pooled sampler is handed out again, recorded, or
  a parameter collision.

Laws that relate several calls stand as `law_*` proof functions beside the
functions they speak of.
