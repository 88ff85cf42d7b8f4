pub mod fixed;
pub mod vec3;
pub mod ray;
pub mod sampling;
pub mod material;
pub mod hittable;
pub mod hittable_list;
pub mod trig;
pub mod camera;
pub mod config;
pub mod raytracer;
pub mod colour;
pub mod viewer;
