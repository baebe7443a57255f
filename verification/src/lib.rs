//! Verified core of a painting-pack builder: integer crop geometry for a
//! closed set of aspect-ratio classes, metadata sanitization, export
//! planning, and a bundle manifest with a round-trippable text form.

pub mod cropper;
pub mod exporter;
pub mod image_data;
pub mod image_size;
pub mod manifest;
pub mod pack_list;
pub mod picture;
pub mod text;
