//! Names under which the application keeps its files.

use vstd::prelude::*;

verus! {

/// The application's name, which names its configuration directory.
pub const APP_NAME: &'static str = "pji";

/// The name of the configuration file.
pub const APP_CONFIG_NAME: &'static str = "config";

/// The name of the metadata file.
pub const APP_DATA_NAME: &'static str = "metadata";

/// The schema tag of the metadata file.
pub const APP_METADATA_VERSION_V1: &'static str = "v1";

/// The directory under the user's home that holds repositories by default.
pub const DEFAULT_WORKSPACE_NAME: &'static str = "pji";

} // verus!
