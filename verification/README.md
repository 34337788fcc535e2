# Hollowreach

The game logic of Hollowreach, a peaceful first-person village game whose
NPCs are driven by a local language model, written in Verus and proved
against its contracts.

- `src/` — the verified library: interaction conditions and effects,
  inventories, NPC memory, the NPC decision loop and turn queue, the
  interaction panel and text input state machines, area snapshots, the text
  protocols spoken with the language model and the speech worker, and the
  texts of the log and the debug overlay. Public proof functions state the
  laws that hold across calls.
- `tests/` — tests on concrete values.
- `app/` — the Bevy application around the library: ECS systems, keyboard,
  files, processes, the language model and speech worker threads.
