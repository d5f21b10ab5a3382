//! ActionScript 3 class metadata.

pub mod class;
pub mod class_object;
pub mod names;
pub mod traits;
pub mod value;
pub mod vector;
