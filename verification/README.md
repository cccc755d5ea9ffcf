# wasm-link

A WebAssembly plugin runtime built around Wasmtime, for applications made of
many small plugins. Plugins implement *bindings* (their plug) and depend on
other bindings (their sockets); a call into a binding is broadcast to every
plugin behind it when the function is freestanding, and routed to the plugin
that owns the receiver when it is a resource method.

## Layout

- `src/` is the verified core, written in Verus. It decides everything that
  does not need a running store: the cardinality wrappers that hold plugins,
  interface and function metadata, export remapping, the resolution of a
  call to an interface and function, the checks on values that cross between
  plugins, which resource handles a transfer wraps and what the moved value
  is, the table of wrapped handles and how a wrapped handle resolves back to
  its owner, the routing of a method call to that owner, the reading of a
  call's results and the plugin-facing encoding of dispatch errors. It also
  decides the admission of a call against the limits on outstanding work
  (refusing it with `dispatch-queue-full`), the bytes a call's arguments
  retain, and whose call a busy plugin serves next (callers in rotation,
  so independent callers wait in the order in which they came).
- `app/` is the runtime around it: Wasmtime stores, instances and linkers,
  the bookkeeping that applies the admission and rotation decisions to
  running calls,
  the conversion between table keys and the host resource handles that
  plugins hold, the host functions that plugins call, and the synchronous
  and concurrent front ends.
- `tests/` exercises the core on concrete values.

Component values are held in the core as `Value`, a plain mirror of
Wasmtime's `Val`: floats by their bit patterns, and `future`, `stream` and
`error-context` handles by their kind only, since they cannot cross between
plugins.
