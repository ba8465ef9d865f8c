//! Verified core of the Eryndor level editor and its game servers: tile
//! layers and painting tools, undo/redo history, scenes in tabs and their
//! tilemaps, project generation and builds, the world tables that the game
//! server stores, and the integer rules of the games.

pub mod icons;
pub mod labels;
pub mod editor_state;
pub mod layer_manager;
pub mod tile_painter;
pub mod tile_tool;
pub mod editor_history;
pub mod scene_tabs;
pub mod scene_editor;
pub mod scene_files;
pub mod tilemap_canvas;
pub mod panels;
pub mod component_registry;
pub mod project_generator;
pub mod project_manager;
pub mod build_manager;
pub mod client_launcher;
pub mod world_tables;
pub mod game_rules;
