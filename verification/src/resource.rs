pub mod concourse;
pub mod resource;
