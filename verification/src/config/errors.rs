//! Errors for loading configuration files.
use vstd::prelude::*;

use crate::config::composition::CompositionError;

verus! {

/// Errors for file I/O operations (separate from pure parsing errors)
#[derive(Debug)]
pub enum ConfigError {
    IoError(std::io::Error),
    CompositionError(CompositionError),
}

} // verus!
