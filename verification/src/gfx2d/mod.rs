pub mod flat;
pub mod textures;
