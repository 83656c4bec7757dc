# matrix_adk_agent

An assistant for Matrix rooms in front of an OpenAI-compatible language model.
Assistants introduce themselves to each other, hand tasks on with
`[Task: id]` markers and `@[Name]` tags, and tell the requester when a task is
done.

- `src/` is the library, verified with Verus: text and markers (`text`,
  `markers`), tasks and answers (`task`), the introductions that are known and
  stored (`introductions`), the side that faces the model (`adk`), the side that
  faces the Matrix server (`matrix`), the assistant in its rooms
  (`matrix_agent`), and what is taken from other crates on trust (`outside`).
- `app/` is the program around it: environment, files, network and the event
  loop. Its client keeps its state in SQLite: building it needs the `sqlite`
  feature of `matrix-sdk`, which the library does not use and `Cargo.toml` leaves
  off.
- `tests/` runs the library on concrete values.
