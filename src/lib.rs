//! Name-keyed tables of loaded game assets (textures, images, sounds, music
//! tracks and models), filled from directory scans and read by exact name.

pub mod assets;
pub mod scan;
pub mod table;
