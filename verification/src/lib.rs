pub mod classify;
pub mod laws;
pub mod load;
pub mod model;
pub mod order;
pub mod pipeline;
pub mod pixel;
pub mod raster;
pub mod text;
