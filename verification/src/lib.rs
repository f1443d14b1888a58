//! Pixel-buffer, PNG and data-URL logic behind the canvas, image and
//! image-data objects that the Gagaku native module gives to scripts.

pub mod base64;
pub mod canvas;
pub mod canvas_laws;
pub mod context2d;
pub mod data_url;
pub mod image;
pub mod image_data;
pub mod png;
pub mod text;
pub mod typed_array;
