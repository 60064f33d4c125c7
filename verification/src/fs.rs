//! Where the application keeps its data: the data directory of each
//! platform and the paths of recordings below it.

use vstd::prelude::*;
use vstd::string::*;
use crate::source::Platform;

verus! {

/// One entry of the recordings directory.
#[derive(Debug)]
pub struct FileInfo {
    pub name: String,
    pub path: String,
    pub size: u64,
    pub is_dir: bool,
    pub modified: String,
}

/// Names the places of the application's files.
#[derive(Debug, Clone, Copy, PartialEq, Eq, Structural)]
pub struct FileSystemManager;

/// The text that separates the parts of a path on `platform`.
pub open spec fn separator(platform: Platform) -> Seq<char> {
    match platform {
        Platform::Windows => "\\"@,
        _ => "/"@,
    }
}

/// The data directory of the application, given the base directory of the
/// user: the application-data directory on Windows, the home directory
/// elsewhere.
pub open spec fn app_data_dir(platform: Platform, base: Seq<char>) -> Seq<char> {
    match platform {
        Platform::Windows => base + "\\dgMeets"@,
        Platform::MacOs => base + "/Library/Application Support/dgMeets"@,
        Platform::Linux => base + "/.dgmeets"@,
    }
}

/// The directory of recordings below the data directory.
pub open spec fn recordings_dir(platform: Platform, data_dir: Seq<char>) -> Seq<char> {
    data_dir + separator(platform) + "recordings"@
}

/// The path of the recording `filename`.
pub open spec fn recording_path(platform: Platform, data_dir: Seq<char>, filename: Seq<char>)
    -> Seq<char> {
    recordings_dir(platform, data_dir) + separator(platform) + filename
}

impl FileSystemManager {
    /// A manager; it holds no state.
    pub fn new() -> (r: Self)
        ensures
            r == FileSystemManager,
    {
        FileSystemManager
    }

    /// Names the data directory of the application below `base`.
    pub fn get_app_data_dir(&self, platform: Platform, base: &str) -> (r: String)
        ensures
            r@ == app_data_dir(platform, base@),
    {
        let mut out = String::from_str(base);
        match platform {
            Platform::Windows => {
                out.append("\\dgMeets");
            },
            Platform::MacOs => {
                out.append("/Library/Application Support/dgMeets");
            },
            Platform::Linux => {
                out.append("/.dgmeets");
            },
        }
        out
    }

    /// Names the directory of recordings below `data_dir`.
    pub fn recordings_dir(&self, platform: Platform, data_dir: &str) -> (r: String)
        ensures
            r@ == recordings_dir(platform, data_dir@),
    {
        let mut out = String::from_str(data_dir);
        match platform {
            Platform::Windows => {
                out.append("\\");
            },
            _ => {
                out.append("/");
            },
        }
        out.append("recordings");
        out
    }

    /// Names the path under which the recording `filename` is saved.
    pub fn recording_path(&self, platform: Platform, data_dir: &str, filename: &str) -> (r: String)
        ensures
            r@ == recording_path(platform, data_dir@, filename@),
    {
        let mut out = self.recordings_dir(platform, data_dir);
        match platform {
            Platform::Windows => {
                out.append("\\");
            },
            _ => {
                out.append("/");
            },
        }
        out.append(filename);
        out
    }
}

} // verus!
