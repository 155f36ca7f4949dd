pub mod buffer;
pub mod color;
pub mod filters;
pub mod generate;

pub use buffer::PixelBuffer;
pub use filters::brighten;
pub use filters::crop;
pub use filters::grayscale;
pub use filters::invert;
pub use filters::invert_twice;
pub use filters::rotate;
pub use filters::rotate_four_quarters;
pub use generate::fractal;
pub use generate::generate_color;
pub use generate::gradient;
pub use generate::gradient_random;
pub use color::CropPayload;
pub use color::RGBColor;
pub use color::RotateDegrees;
