# ducklink-host

The host of DuckDB running as a WebAssembly component, with extensions that are components
too.

* `src/` is the library: what the host decides and computes, with every function's
  behaviour stated and proved. Work on components, files and connections is left to the
  caller. The library holds it as state machines: a function takes a state and what came
  back, and gives the next state and what is to be done.
* `app/` is the program around it: the engine, the sandboxes, the files, the environment,
  and the loops that carry out what the library asks for. The traits in `app/seams.rs`
  stand for the generated component bindings.
* `tests/` runs the library on concrete values.

Public proof functions whose names start with `law_` state what holds across calls.
