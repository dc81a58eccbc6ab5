//! The file-openability check: given what a filesystem probe observed about
//! a path, decide whether the path names an openable, non-directory file,
//! and phrase the diagnostic for the caller. The probe itself (opening the
//! file and querying its metadata) is the caller's side of the boundary.

use vstd::prelude::*;

verus! {

/// What a filesystem probe observed about a path: the open failed with the
/// reported reason, the metadata query failed with the reported reason, or
/// both succeeded and the path is or is not a directory.
pub enum FileProbe {
    OpenFailed(String),
    MetadataFailed(String),
    Opened { is_dir: bool },
}

/// The diagnostic for a path that could not be opened.
pub open spec fn open_failed_message(path: Seq<char>, reason: Seq<char>) -> Seq<char> {
    "Error: Cannot open \""@ + path + "\": "@ + reason
}

/// The diagnostic for a path whose metadata could not be queried.
pub open spec fn metadata_failed_message(path: Seq<char>, reason: Seq<char>) -> Seq<char> {
    "Error: Cannot query metadata on \""@ + path + "\": "@ + reason
}

/// The diagnostic for a path that names a directory.
pub open spec fn is_directory_message(path: Seq<char>) -> Seq<char> {
    "Error: \""@ + path + "\" is a directory."@
}

/// Checks whether `path`, probed as `probe` reports, is a file that can be
/// opened. Succeeds exactly when the path was opened and is not a
/// directory; every failure carries the diagnostic for its cause.
pub fn verify_file_openable(path: &str, probe: &FileProbe) -> (r: Result<(), String>)
    ensures
        match probe {
            FileProbe::OpenFailed(reason) => (r matches Err(m)
                && m@ == open_failed_message(path@, reason@)),
            FileProbe::MetadataFailed(reason) => (r matches Err(m)
                && m@ == metadata_failed_message(path@, reason@)),
            FileProbe::Opened { is_dir } => {
                if *is_dir {
                    r matches Err(m) && m@ == is_directory_message(path@)
                } else {
                    r is Ok
                }
            },
        },
{
    match probe {
        FileProbe::OpenFailed(reason) => {
            let mut m = String::from_str("Error: Cannot open \"");
            m.append(path);
            m.append("\": ");
            m.append(reason.as_str());
            Err(m)
        },
        FileProbe::MetadataFailed(reason) => {
            let mut m = String::from_str("Error: Cannot query metadata on \"");
            m.append(path);
            m.append("\": ");
            m.append(reason.as_str());
            Err(m)
        },
        FileProbe::Opened { is_dir } => {
            if *is_dir {
                let mut m = String::from_str("Error: \"");
                m.append(path);
                m.append("\" is a directory.");
                Err(m)
            } else {
                Ok(())
            }
        },
    }
}

} // verus!
