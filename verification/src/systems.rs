pub mod culling_system;
pub mod demo_system;
pub mod input_system;
pub mod physics_system;
pub mod render_system;
pub mod world_gen_system;
