# scene_editor

The logic of a scene editor, written in Rust and verified with Verus: the scene
tree and its edits, undo and redo, materials and their registration, clips and the
mixer, imports of models, and the questions that can be asked about a project.

* `src/` is the library. Every edit is a command. `controller` takes commands and
  keeps the undo and redo logs, `workspace` says what each command does, and the
  modules named after what they edit hold the details. Functions whose names begin
  with `law_` state what holds across commands, such as that undoing an edit leads
  back to where it started.
* `tests/` runs the library on concrete projects.
* `app/` is the window around it: arithmetic on real numbers, clocks, fresh ids,
  JSON, and what is asked of the renderer.

Real numbers are kept as their bit patterns. The library compares and orders them
and moves them about; computing with them is left to `app/`. Fresh ids, times and
what the renderer knows are handed to the library as plain values.
