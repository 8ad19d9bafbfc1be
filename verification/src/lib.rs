//! Reading STL models (binary and ASCII) and the integer side of rendering
//! them as small RGBA thumbnails.

pub mod model;
pub mod binary;
pub mod text;
pub mod ascii;
pub mod stl;
pub mod report;
pub mod cli;
pub mod image;
pub mod encode;
