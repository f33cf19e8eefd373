//! A host-side simulator core for embedded displays: an in-memory framebuffer
//! with point-addressable drawing, a themed and scaled rasterizer that turns
//! the framebuffer into an RGB or grayscale byte raster, bit-exact packed
//! serialization of the framebuffer at its native bit depth, and PNG/base64
//! export of the rendered raster.

pub mod checker;
pub mod codec;
pub mod color;
pub mod display;
pub mod geometry;
pub mod output_image;
pub mod output_settings;
pub mod theme;

pub use checker::{CheckOutcome, UpdateAction};
pub use codec::CodecError;
pub use color::{Color, ColorFormat, Rgb};
pub use display::SimulatorDisplay;
pub use geometry::{Point, Rectangle, Size};
pub use output_image::{OutputFormat, OutputImage};
pub use output_settings::{OutputSettings, OutputSettingsBuilder};
pub use theme::BinaryColorTheme;
