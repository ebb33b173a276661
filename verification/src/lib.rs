//! The verified core of a small PDF viewer and of the task that fetches its PDF engine.

pub mod color;
pub mod digest;
pub mod drawing;
pub mod fetch;
pub mod launch;
pub mod layout;
pub mod manifest;
pub mod pixels;
pub mod scalar;
pub mod staging;
pub mod target;
pub mod text;
pub mod vibrancy;
pub mod view;
pub mod viewer;
