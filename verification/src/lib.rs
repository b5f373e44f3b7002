pub mod animation;
pub mod car;
pub mod collisions;
pub mod component;
pub mod console_debug;
pub mod consts;
pub mod coordinates;
pub mod entity;
pub mod error;
pub mod event;
pub mod game;
pub mod loader;
pub mod map;
pub mod order;
pub mod particles;
pub mod player;
pub mod report;
pub mod resource;
pub mod rng_bag;
pub mod schedule;
pub mod state;
pub mod win_screen;
pub mod world;
