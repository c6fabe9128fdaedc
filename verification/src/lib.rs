pub mod analyzed_victor_banner;
pub mod color;
pub mod error;
pub mod full_podium_image;
pub mod iter_ext;
pub mod raster;
pub mod score_placard;
pub mod seq_facts;
pub mod victor_banner;
