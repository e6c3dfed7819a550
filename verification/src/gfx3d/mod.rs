pub mod caster_laws;
pub mod cull;
pub mod cull_laws;
pub mod draw_laws;
pub mod mesh;
pub mod pack;
pub mod pass;
pub mod pass_laws;
pub mod pipeline_laws;
pub mod pipelines;
pub mod plan;
pub mod plan_laws;
pub mod resources;
pub mod shadow_laws;
pub mod shadows;
pub mod scene;
pub mod scene_laws;
pub mod sky_vis;
