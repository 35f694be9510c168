//! The game's version descriptor.

use vstd::prelude::*;
use vstd::string::*;

verus! {

/// Seconds since the Unix epoch of 2013-04-25T15:45:00Z, when the last legacy
/// game version was released.
pub const LEGACY_CUTOFF_SECONDS: i64 = 1366904700;

/// The instant that `chrono` reads from an RFC 3339 date and time: whole
/// seconds since the Unix epoch and the nanoseconds past them; `None` where
/// the text is not such a date and time.
pub uninterp spec fn rfc3339_instant(text: Seq<char>) -> Option<(i64, u32)>;

/// `chrono::DateTime::parse_from_rfc3339`, then `timestamp` and
/// `timestamp_subsec_nanos` of the result: the instant that `text` denotes,
/// which depends on the text alone.
#[verifier::external_body]
pub(crate) fn parse_rfc3339(text: &str) -> (r: Option<(i64, u32)>)
    ensures
        r == rfc3339_instant(text@),
{
    match chrono::DateTime::parse_from_rfc3339(text) {
        Ok(instant) => Some((instant.timestamp(), instant.timestamp_subsec_nanos())),
        Err(_) => None,
    }
}

/// The game's version descriptor.
#[allow(non_snake_case)]
#[derive(Clone)]
pub struct VersionDetails {
    /// The index of the assets to download.
    pub assetIndex: AssetIndex,
    /// Which version of the assets to download.
    pub assets: String,
    /// Where the client and server archives lie.
    pub downloads: Downloads,
    /// Name of the version.
    pub id: String,
    /// The Java runtime that the version needs.
    pub javaVersion: Option<JavaVersionJson>,
    /// The libraries that the version depends on.
    pub libraries: Vec<Library>,
    /// How the game logs.
    pub logging: Option<Logging>,
    /// The class that holds the entry point.
    pub mainClass: String,
    /// Old-style arguments, one string.
    pub minecraftArguments: Option<String>,
    /// New-style arguments.
    pub arguments: Option<Arguments>,
    /// The oldest official launcher that can start the version.
    pub minimumLauncherVersion: Option<usize>,
    /// When the version was released, as an RFC 3339 date and time.
    pub releaseTime: String,
    pub time: String,
    /// Kind of version, such as alpha, beta or release.
    pub version_type: String,
    /// Whether the version is a legacy one, once that has been worked out.
    pub ql_is_legacy_version: Option<bool>,
}

/// New-style arguments of the game.
#[derive(Debug, Clone)]
pub struct Arguments {
    pub game: Vec<serde_json::Value>,
    pub jvm: Vec<serde_json::Value>,
}

#[allow(non_snake_case)]
#[derive(Debug, Clone)]
pub struct AssetIndex {
    pub id: String,
    pub sha1: String,
    pub size: usize,
    pub totalSize: usize,
    pub url: String,
}

#[derive(Debug, Clone)]
pub struct Downloads {
    pub client: Download,
    pub server: Option<Download>,
}

#[derive(Debug, Clone)]
pub struct Download {
    pub sha1: String,
    pub size: usize,
    pub url: String,
}

#[allow(non_snake_case)]
#[derive(Debug, Clone)]
pub struct JavaVersionJson {
    pub component: String,
    pub majorVersion: usize,
}

/// One library of the game. `natives` pairs an operating system with the
/// classifier of its native archive.
#[derive(Clone)]
pub struct Library {
    pub downloads: Option<LibraryDownloads>,
    pub extract: Option<LibraryExtract>,
    pub name: Option<String>,
    pub rules: Option<Vec<LibraryRule>>,
    pub natives: Option<Vec<(String, String)>>,
    pub url: Option<String>,
}

#[derive(Clone)]
pub struct LibraryExtract {
    pub exclude: Vec<String>,
    pub name: Option<String>,
}

/// Where a library's archives lie. `classifiers` pairs a classifier with its
/// archive.
#[derive(Clone)]
pub struct LibraryDownloads {
    pub artifact: Option<LibraryDownloadArtifact>,
    pub classifiers: Option<Vec<(String, LibraryClassifier)>>,
}

#[derive(Debug, Clone)]
pub struct LibraryClassifier {
    pub sha1: String,
    pub size: usize,
    pub url: String,
}

/// A rule that allows or disallows a library, for every operating system or
/// for the one it names.
#[derive(Clone)]
pub struct LibraryRule {
    pub action: String,
    pub os: Option<LibraryRuleOS>,
}

#[derive(Clone)]
pub struct LibraryRuleOS {
    pub name: String,
}

#[derive(Debug, Clone)]
pub struct LibraryDownloadArtifact {
    pub path: String,
    pub sha1: String,
    pub size: usize,
    pub url: String,
}

#[derive(Debug, Clone)]
pub struct Logging {
    pub client: LoggingClient,
}

#[derive(Debug, Clone)]
pub struct LoggingClient {
    pub argument: String,
    pub file: LoggingClientFile,
    pub log_type: String,
}

#[derive(Debug, Clone)]
pub struct LoggingClientFile {
    pub id: String,
    pub sha1: String,
    pub size: usize,
    pub url: String,
}

/// Whether an instant is at or before the legacy cutoff. A release time
/// that could not be read is not legacy.
pub open spec fn is_legacy_instant(instant: Option<(i64, u32)>) -> bool {
    match instant {
        Some((seconds, nanos)) => seconds < LEGACY_CUTOFF_SECONDS || (seconds
            == LEGACY_CUTOFF_SECONDS && nanos == 0),
        None => false,
    }
}

/// Whether an instant is at or before the legacy cutoff.
pub fn legacy_instant(instant: Option<(i64, u32)>) -> (legacy: bool)
    ensures
        legacy == is_legacy_instant(instant),
{
    match instant {
        Some((seconds, nanos)) => seconds < LEGACY_CUTOFF_SECONDS || (seconds
            == LEGACY_CUTOFF_SECONDS && nanos == 0),
        None => false,
    }
}

impl VersionDetails {
    /// Whether the version is a legacy one: what was remembered, or else
    /// whether it was released at or before the legacy cutoff.
    pub open spec fn legacy(&self) -> bool {
        match self.ql_is_legacy_version {
            Some(known) => known,
            None => is_legacy_instant(rfc3339_instant(self.releaseTime@)),
        }
    }

    /// Whether the version was released at or before the legacy cutoff. The
    /// answer is worked out once and remembered.
    pub fn is_legacy_version(&mut self) -> (legacy: bool)
        ensures
            legacy == old(self).legacy(),
            *final(self) == (VersionDetails { ql_is_legacy_version: Some(legacy), ..*old(self) }),
    {
        match self.ql_is_legacy_version {
            Some(known) => known,
            None => {
                let legacy = legacy_instant(parse_rfc3339(self.releaseTime.as_str()));
                self.ql_is_legacy_version = Some(legacy);
                legacy
            },
        }
    }
}

} // verus!
