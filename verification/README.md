# eryndor

The editing core of the Eryndor level editor and its game servers, written in
Verus: the functions under `src/` carry contracts that the verifier proves,
with two exceptions.

- A handful of small wrappers around calls into std and the `toml` crate
  (`to_lowercase`, `is_alphanumeric`, `push_char`, `parse_toml_tables`,
  `path_file_stem`, `path_file_name`) are marked `#[verifier::external_body]`:
  their contracts, and the names `lowercase`, `alphanumeric` and
  `toml_tables` for what they return, are believed, not proved.
  Each one's doc comment says what it claims of the call it makes.
- `EditorCommand` is a trait for users of the history to implement; what
  `editor_history` proves holds of commands whose methods keep the trait's
  contracts.

- `layer_manager`, `tile_painter`, `tile_tool`: tile layers, the painting
  tools (single tile, rectangle, line, stamp, bucket fill), and what one frame
  of mouse and keyboard input does with the brush and the eyedropper.
- `tilemap_canvas`, `scene_files`, `scene_tabs`, `scene_editor`: scenes open
  in tabs, capturing and restoring the canvas when scenes are saved, loaded or
  switched, and the tilesets and paths a saved scene records.
- `editor_history`: undo/redo over commands of any type.
- `project_generator`, `project_manager`, `build_manager`, `client_launcher`:
  new projects, the project selection and wizard, build status, and how the
  game client is launched.
- `world_tables`, `game_rules`: the rows a world upload writes, and the
  integer rules of the game servers and clients.
- `editor_state`, `panels`, `labels`, `icons`, `component_registry`: tools,
  toolbar, panels and their texts.

`app/` is a small command-line front end that does the file and clock work:
creating a project, reading a package name, turning a world export into
table rows, and placing the collision platforms of an IntGrid layer. The
platformer's physics step lives there too, as it is floating point.
