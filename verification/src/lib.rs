//! Batch conversion of images into size-bounded, quality-controlled JPEG
//! outputs: the per-file decision pipeline (decode, conditional resize,
//! compress, rewrite-or-preserve, failure aggregation), with the decisions
//! verified.

pub mod batch;
pub mod errors;
pub mod paths;
pub mod policy;
pub mod raster;

pub use batch::{exit_code, failed_sources, summary_line, FileOutcome};
pub use errors::ConvertError;
pub use paths::{destination_path, has_jpg_extension, path_join, rfind_byte};
pub use policy::{fit_dimensions, should_rewrite, should_rewrite_file};
pub use raster::{load_raster, prepare_image, scanline, shrink_to_fit, Config, Raster};
