//! Static checks of Simutrans `.dat` object definitions, mirroring what
//! makeobj rejects, warns about or silently mangles.
pub mod text;
pub mod diagnostics;
pub mod dat;
pub mod images;
pub mod common;
pub mod names;
pub mod house;
pub mod registry;
pub mod way;
pub mod bridge;
pub mod tunnel;
pub mod way_obj;
pub mod crossing;
pub mod citycar;
pub mod pedestrian;
pub mod good;
pub mod tree;
pub mod ground;
pub mod groundobj;
pub mod roadsign;
pub mod menu;
pub mod cursor;
pub mod symbol;
pub mod smoke;
pub mod field;
pub mod misc;
pub mod sound;
pub mod building;
pub mod vehicle;
pub mod factory;
pub mod keys;
