//! Circuit logic of a voxel sandbox game: voxel kinds, the voxel world map,
//! gate simulation and signal propagation along wires, and the decisions the
//! game makes on player input, menus and interface layout.

pub mod bits;
pub mod voxel;
pub mod world;
pub mod logic;
pub mod wires;
pub mod settle;
pub mod cables;
pub mod game;
pub mod input;
pub mod menu;
pub mod mesh;
pub mod text;
pub mod saves;
pub mod session;
pub mod ui_layout;
