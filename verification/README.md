# godot_neovim

Vim editing for Godot's script editor, backed by an embedded Neovim.

- `src/` is the verified library (Verus): key resolution for normal,
  insert, replace, search and command-line modes; the motions and edits
  carried out on the editor's lines; marks, registers, macros and the jump
  list; Ex command parsing and the `:s`, `:g`, `:sort`, `:m`, `:t`
  operations; the decoding of Neovim's msgpack notifications and replies;
  and the framing and reply handling of the language-server client.
- `app/` is the Godot extension around it: the `EditorPlugin`, the Neovim
  process and its RPC connection, and the TCP client of Godot's GDScript
  language server. It converts Godot, msgpack and JSON values into the
  library's types and carries out what the library decides.
- `tests/` exercises the library on concrete values.
