pub mod aabb;
pub mod boxx;
pub mod bvh;
pub mod constant_medium;
pub mod flip_face;
pub mod hit_record;
pub mod moving_sphere;
pub mod nearest;
pub mod object_list;
pub mod rect;
pub mod rotate_y;
pub mod sorting;
pub mod sphere;
pub mod translate;
pub mod xy_rect;
pub mod xz_rect;
pub mod yz_rect;

pub use aabb::Aabb;
pub use boxx::Boxx;
pub use bvh::Bvh;
pub use constant_medium::ConstantMedium;
pub use flip_face::FlipFace;
pub use hit_record::HitRecord;
pub use moving_sphere::MovingSphere;
pub use object_list::ObjectList;
pub use rotate_y::RotateY;
pub use sphere::Sphere;
pub use translate::Translate;
pub use xy_rect::XYRect;
pub use xz_rect::XZRect;
pub use yz_rect::YZRect;
