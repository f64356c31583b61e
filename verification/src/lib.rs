pub mod codec;
pub mod hexcolor;
pub mod mods;
pub mod mosaic;
pub mod palette;
pub mod numparse;
pub mod pixmap;
mod randsrc;

pub use mods::ModResult;
pub use mods::argerror_test;
pub use mods::colorize;
pub use mods::copy;
pub use mods::error_test;
pub use mods::hue_rotate;
pub use mods::rgb_replace;
pub use mosaic::mosaic;
pub use palette::pallettize;
pub use palette::pallettize_with;
pub use pixmap::Image;
pub use pixmap::Pixel;
