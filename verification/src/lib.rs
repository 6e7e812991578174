//! The state and the rules of a 3D scene editor: the scene tree, its assets,
//! materials and animation clips, the undoable commands that change them, and
//! the reads that report them. Every item is verified; drawing, clocks and
//! files are the caller's.
pub mod activity;
pub mod activity_feed;
pub mod animation_sync;
pub mod answer_laws;
pub mod asset_edit;
pub mod asset_template;
pub mod assets;
pub mod bounds;
pub mod buffer_cache;
pub mod bundle;
pub mod clips;
pub mod cluster_cache;
pub mod collider_wire;
pub mod command;
pub mod compiling;
pub mod controller;
pub mod copy_laws;
pub mod custom_material;
pub mod dynamic;
pub mod errors;
pub mod file_laws;
pub mod find;
pub mod history;
pub mod ids;
pub mod import_clips;
pub mod import_laws;
pub mod import_library;
pub mod import_scene;
pub mod library_edit;
pub mod list;
pub mod live_query;
pub mod lower_laws;
pub mod mark_laws;
pub mod material;
pub mod material_laws;
pub mod mesh_edit;
pub mod mesh_laws;
pub mod mesh_query;
pub mod mixer;
pub mod model_import;
pub mod motion_laws;
pub mod name_laws;
pub mod node;
pub mod node_edit;
pub mod node_laws;
pub mod palette;
pub mod paging;
pub mod phrase_laws;
pub mod project_laws;
pub mod query;
pub mod query_errors;
pub mod reachable;
pub mod read_laws;
pub mod readback;
pub mod reading_doc;
pub mod reseed;
pub mod rig;
pub mod scene_edit;
pub mod scene_query;
pub mod selections;
pub mod session;
pub mod shader_laws;
pub mod skin;
pub mod snapshot;
pub mod step_laws;
pub mod table;
pub mod telling_laws;
pub mod text;
pub mod text_laws;
pub mod timeline;
pub mod tree;
pub mod tree_edit;
pub mod tree_laws;
pub mod undo_laws;
pub mod values;
pub mod wire_laws;
pub mod work_laws;
pub mod workspace;
pub mod world;
