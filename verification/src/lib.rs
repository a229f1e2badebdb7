pub mod literal;
pub mod paginate;
pub mod pipeline;
pub mod plugin;
pub mod render;
pub mod repos;
pub mod result_set;
pub mod text;
pub mod validate;
pub mod value;

pub use plugin::{Gitql, GitqlPlugin};
pub use render::render_objects;
