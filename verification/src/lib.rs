//! A procedural tile world that streams around a moving focus point.
//!
//! The world is generated chunk by chunk from coherent noise supplied by the
//! caller, classified into biomes and surface states, decorated with trees
//! and cacti, and kept within a fixed memory budget by recycling chunks and
//! objects through bounded pools.
pub mod consts;
pub mod sample;
pub mod point;
pub mod text;
pub mod mod_content;
pub mod noise;
pub mod tile;
pub mod biome;
pub mod block;
pub mod save;
pub mod generator;
pub mod chunk;
pub mod world;
pub mod sorting;
pub mod mod_loader;
pub mod system;
pub mod generate_seed;
pub mod determinism;
pub mod hud;
pub mod menu;
