//! Conversion between a config-style document tree (TOML) and a generic
//! tree (JSON), on one value model shared by both formats.

mod error;
pub mod laws;
mod transcode;
mod tree;

pub use error::ConvertError;
pub use transcode::{all_finite, is_finite, to_config, to_generic};
pub use tree::{config_to_generic, generic_to_config, is_finite_bits, view_result, Tree, Value};
