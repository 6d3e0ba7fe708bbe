use vstd::prelude::*;
use vstd::string::StringExecFns;

verus! {

/// The single terminal error value of every operation: each internal failure
/// aborts the current operation and is returned as one of these, with no
/// retry or rollback anywhere in the core.
#[derive(Debug)]
pub enum InstallError {
    /// Transport failure or a non-success HTTP status, with a description.
    NetworkError(String),
    /// No release satisfied the prerelease-inclusion flag.
    NoReleaseFound,
    /// No asset name matched the current platform's patterns.
    NoMatchingAsset,
    /// The archive file name ends in neither `.tar.gz`, `.tgz` nor `.zip`.
    UnsupportedArchiveFormat,
    /// A filesystem read, write or create failed, with a description.
    IOError(String),
    /// An OS service API call failed, with the underlying OS error's text.
    ServiceControlError(String),
    /// A release tag did not parse as a semantic version.
    VersionParseError,
    /// `update` or `uninstall` was invoked with no recorded installation.
    NotInstalledError,
    /// The host OS / CPU pair is not one of the supported combinations.
    UnsupportedPlatform,
}

impl InstallError {
    /// The text `message` returns for each error.
    pub open spec fn message_spec(&self) -> Seq<char> {
        match self {
            InstallError::NetworkError(d) => "network error: "@ + d@,
            InstallError::NoReleaseFound => "no releases found"@,
            InstallError::NoMatchingAsset => "no suitable asset found for this architecture"@,
            InstallError::UnsupportedArchiveFormat => "unsupported archive format"@,
            InstallError::IOError(d) => "i/o error: "@ + d@,
            InstallError::ServiceControlError(d) => "service control error: "@ + d@,
            InstallError::VersionParseError => "release tag is not a semantic version"@,
            InstallError::NotInstalledError => "no installation found"@,
            InstallError::UnsupportedPlatform => "unsupported platform"@,
        }
    }

    /// A short human-readable description, for the calling layer to show.
    pub fn message(&self) -> (r: String)
        ensures
            r@ == self.message_spec(),
    {
        match self {
            InstallError::NetworkError(d) => String::from_str("network error: ").concat(
                d.as_str(),
            ),
            InstallError::NoReleaseFound => String::from_str("no releases found"),
            InstallError::NoMatchingAsset => String::from_str(
                "no suitable asset found for this architecture",
            ),
            InstallError::UnsupportedArchiveFormat => String::from_str(
                "unsupported archive format",
            ),
            InstallError::IOError(d) => String::from_str("i/o error: ").concat(d.as_str()),
            InstallError::ServiceControlError(d) => String::from_str(
                "service control error: ",
            ).concat(d.as_str()),
            InstallError::VersionParseError => String::from_str(
                "release tag is not a semantic version",
            ),
            InstallError::NotInstalledError => String::from_str("no installation found"),
            InstallError::UnsupportedPlatform => String::from_str("unsupported platform"),
        }
    }
}

} // verus!
