pub mod component;
pub mod entity;
pub mod event;
pub mod fov;
pub mod input_handlers;
pub mod map;
pub mod map_utils;
pub mod pcgen;
pub mod point;
pub mod point_set;
pub mod render_functions;
pub mod system;
