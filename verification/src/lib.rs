//! Verified model of a 2D platformer: rooms made of tile maps,
//! collision between boxes, the tile connection rules and the editor's
//! bookkeeping.
pub mod geom;
pub mod grid;
pub mod collider;
pub mod tileset;
pub mod rules;
pub mod tilemap;
pub mod tile_plan;
pub mod light;
pub mod assets;
pub mod id;
pub mod text_scroller;
pub mod text_input;
pub mod placeable;
pub mod room;
pub mod removal;
pub mod player;
pub mod movement;
pub mod logic;
pub mod editor;
pub mod room_edit;
pub mod level;
pub mod level_edit;
pub mod layout;
pub mod loading;
pub mod laws;
pub mod dialogue;
pub mod intro;
pub mod game;
pub mod util;
