//! Reads a raw pixel buffer taken from another process's memory and
//! normalizes it into an 8-bit-per-channel image.
pub mod address;
pub mod config;
pub mod file_helper;
pub mod imageprocessing;
pub mod pixel_format;
pub mod read_plan;
pub mod sample;

pub use address::parse_address;
pub use config::{check_process_filter, Config};
pub use file_helper::{dump_file_name, dump_search_step, FileDialogError, FileDialogMode};
pub use imageprocessing::{gray_alpha_to_rgba, ImageData, ImageProcessingError};
pub use pixel_format::{ChannelOrder, ColorLayout, DataType};
pub use read_plan::{buffer_length, plan_read, ReadRequest};
