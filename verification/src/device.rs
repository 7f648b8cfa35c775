//! What is found on a device before a request is decided.
use crate::packages::PackageUids;
use vstd::prelude::*;

verus! {

/// A directory that may hold a module.
pub struct ModuleDir {
    /// There is such a directory.
    pub is_dir: bool,
    /// It holds a `remove` marker.
    pub removed: bool,
    /// It holds a `disable` marker.
    pub disabled: bool,
    /// Its `module.prop`, where that could be read.
    pub properties: Option<String>,
}

/// The directories in which the engines install themselves.
pub struct Modules {
    pub tricky: ModuleDir,
    pub tricky_hidden: ModuleDir,
    pub teesim: ModuleDir,
    pub teesim_update: ModuleDir,
}

/// A text file.
pub enum TextFile {
    /// There is no such file; `words` tell what comes of reading it.
    Missing { words: String },
    /// The file cannot be read; `words` tell why.
    Unreadable { words: String },
    Text(String),
}

/// A file of any content.
pub enum DataFile {
    Missing,
    Unreadable,
    Data(Vec<u8>),
}

/// A device.
pub struct Device {
    pub modules: Modules,
    /// The list of targets that TrickyStore reads.
    pub target_mirror: TextFile,
    /// The legacy patch levels that TrickyStore reads.
    pub security_patch: TextFile,
    /// The TEESimulator config.
    pub config: DataFile,
    /// The installed packages.
    pub packages: PackageUids,
    /// The profile that the addon's settings name, empty for none, or why the settings
    /// could not be loaded.
    pub configured: Result<String, String>,
}

} // verus!
