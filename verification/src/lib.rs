//! Screen logic of the QubePixel voxel game.
#![allow(unused_imports)]

pub mod arrivals;
pub mod block_definition;
pub mod block_editor;
pub mod block_model_renderer;
pub mod entity_editor;
pub mod entity_editor_screen;
pub mod entity_setup;
pub mod game_3d_pipeline;
pub mod game_screen;
pub mod gpu_bytes;
pub mod inventory;
pub mod inventory_model_renderer;
pub mod inventory_ui;
pub mod json;
pub mod light_emitter_renderer;
pub mod lights;
pub mod main_menu;
pub mod palette;
pub mod paths;
pub mod pixels;
pub mod player_renderer;
pub mod previews;
pub mod profiler_overlay;
pub mod screen;
pub mod settings;
pub mod shapes;
pub mod sheep_renderer;
pub mod single;
pub mod spawning;
pub mod stocking;
pub mod table;
pub mod text;
pub mod uploads;
pub mod world_result;
