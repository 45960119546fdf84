//! Text-mode art: renders a decoded raster image as a grid of ASCII
//! glyphs whose visual density tracks each sampled pixel's intensity.

pub mod pixel;
pub mod ramp;
pub mod raster;

pub use pixel::Pixel;
pub use pixel::pixel_intensity;
pub use ramp::get_str_ascii;
pub use raster::AsciiError;
pub use raster::PixelGrid;
pub use raster::get_image;
