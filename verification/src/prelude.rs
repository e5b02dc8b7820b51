//! The items that most callers need.

pub use crate::assemble::{optimize, optimize_centered};
pub use crate::bounds::{calculate_bounding_box, calculate_center_bottom_offset, Bounds};
pub use crate::codec::{Ktx2Job, TextureType};
pub use crate::document::Document;
pub use crate::output::Output;
pub use crate::texture::ConversionError;
pub use crate::words::Vec3;
