//! Installing a Forge loader: versions, installer candidates and the
//! classpath that the installed loader starts with.

use vstd::prelude::*;
use vstd::string::*;
use crate::decimal::parse_usize;
use crate::json::forge::{latest_key, lookup, JsonVersions};
use crate::request::RequestError;
use crate::text::{
    chars_of, copy_range, count_char, count_char_in, find_char, find_char_in, parse_unsigned,
    string_of, string_views,
};

verus! {

/// Loader versions from this major on come with an installer; older ones
/// with a universal archive.
pub const INSTALLER_MAJOR: usize = 14;

/// Loader versions from this major on put their own archive on the
/// classpath by themselves.
pub const SELF_CONTAINED_MAJOR: usize = 39;

/// Why a loader could not be installed.
pub enum ForgeInstallError {
    /// No loader version is promoted for the game version.
    NoForgeVersionFound,
    /// The loader version does not begin with a number: the text that was
    /// read as one.
    ParseIntError(String),
    /// A download failed.
    Request(RequestError),
    /// There was no installer candidate to try.
    NoInstallerCandidates,
    /// The installer program did not compile: its output and error output.
    CompileError(String, String),
    /// The installer program failed: its output and error output.
    InstallerError(String, String),
    /// A subprocess printed bytes that are not text.
    FromUtf8Error,
    /// The installer is not an archive.
    Zip,
    /// The named entry of the installer could not be read as text.
    ZipIoError(String),
    /// The installer holds no version descriptor: the game version.
    NoInstallJson(String),
    /// The descriptor is neither of the two known forms: its text.
    Json(String),
    /// A library's download path has no parent.
    LibraryParentError,
    /// A library's download path names no file.
    LibraryFileName,
    /// A library's name is not of the form `group:artifact:version`.
    LibraryName(String),
}

/// The rules of one loader installation.
pub struct ForgeInstaller {
    pub norm_forge_version: String,
    pub short_version: String,
    pub major_version: usize,
    pub is_server: bool,
    pub minecraft_version: String,
}

/// What to do after one installer candidate was tried.
pub enum MirrorStep {
    /// The candidate answered: the installer's bytes.
    Done(Vec<u8>),
    /// The candidate is missing: try the one at this index.
    TryNext(usize),
    /// The download failed for good.
    Fail(ForgeInstallError),
}

/// The game version with a third component: `1.7` becomes `1.7.0`.
pub open spec fn norm_version(minecraft_version: Seq<char>) -> Seq<char> {
    if count_char(minecraft_version, '.') == 1 {
        minecraft_version + ".0"@
    } else {
        minecraft_version
    }
}

/// The loader's short identifier: game version, hyphen, loader version.
pub open spec fn short_version(minecraft_version: Seq<char>, forge_version: Seq<char>) -> Seq<
    char,
> {
    minecraft_version + "-"@ + forge_version
}

/// The loader's long identifier: the short one, hyphen, the padded game
/// version.
pub open spec fn norm_forge_version(
    minecraft_version: Seq<char>,
    forge_version: Seq<char>,
) -> Seq<char> {
    short_version(minecraft_version, forge_version) + "-"@ + norm_version(minecraft_version)
}

/// The loader version up to its first full stop.
pub open spec fn major_text(forge_version: Seq<char>) -> Seq<char> {
    forge_version.take(find_char(forge_version, '.') as int)
}

/// The loader's major version, where the version begins with a number that
/// fits in `usize`.
pub open spec fn major_of(forge_version: Seq<char>) -> Option<usize> {
    match parse_unsigned(major_text(forge_version)) {
        Some(n) => if n <= usize::MAX {
            Some(n as usize)
        } else {
            None
        },
        None => None,
    }
}

/// The kind of archive to ask for first, and the one to ask for second.
pub open spec fn file_types(major_version: usize) -> (Seq<char>, Seq<char>) {
    if major_version < INSTALLER_MAJOR {
        ("universal"@, "installer"@)
    } else {
        ("installer"@, "universal"@)
    }
}

/// The address of one loader archive: repository, identifier and the end
/// of the file name.
pub open spec fn archive_url(repository: Seq<char>, version: Seq<char>, ending: Seq<char>) -> Seq<
    char,
> {
    repository + version + "/forge-"@ + version + ending
}

/// The repository that is asked first.
pub open spec fn files_repository() -> Seq<char> {
    "https://files.minecraftforge.net/maven/net/minecraftforge/forge/"@
}

/// The repository that is asked last.
pub open spec fn maven_repository() -> Seq<char> {
    "https://maven.minecraftforge.net/net/minecraftforge/forge/"@
}

/// The installer candidates, in the order in which they are tried: both
/// identifiers with the first kind of archive, both with the second, then
/// the archives of the oldest loaders.
pub open spec fn installer_candidates(
    short: Seq<char>,
    norm: Seq<char>,
    major_version: usize,
) -> Seq<Seq<char>> {
    let first = "-"@ + file_types(major_version).0 + ".jar"@;
    let second = "-"@ + file_types(major_version).1 + ".jar"@;
    seq![
        archive_url(files_repository(), short, first),
        archive_url(files_repository(), norm, first),
        archive_url(files_repository(), short, second),
        archive_url(files_repository(), norm, second),
        archive_url(files_repository(), short, "-client.zip"@),
        archive_url(files_repository(), norm, "-client.zip"@),
        archive_url(maven_repository(), short, "-universal.zip"@),
        archive_url(maven_repository(), norm, "-universal.zip"@),
    ]
}

/// The name under which the installer is kept.
pub open spec fn installer_file_name(short: Seq<char>, major_version: usize) -> Seq<char> {
    "forge-"@ + short + "-"@ + file_types(major_version).0 + ".jar"@
}

/// The classpath that an installation starts with: the loader's own archive
/// where the loader does not put it there itself.
pub open spec fn initial_classpath_text(
    short: Seq<char>,
    major_version: usize,
    installer_name: Seq<char>,
    separator: char,
) -> Seq<char> {
    if major_version >= INSTALLER_MAJOR {
        if major_version < SELF_CONTAINED_MAJOR {
            "../forge/libraries/net/minecraftforge/forge/"@ + short + "/forge-"@ + short + ".jar"@
                + seq![separator]
        } else {
            Seq::empty()
        }
    } else {
        "../forge/"@ + installer_name + seq![separator]
    }
}

/// Whether a failed candidate is followed by the next one: where it is
/// missing and is not the last.
pub open spec fn tries_next(index: usize, candidates: usize, missing: bool) -> bool {
    missing && index + 1 != candidates
}

/// The loader version to install for a game version: the one promoted as
/// its newest.
pub fn get_forge_version(promotions: &JsonVersions, minecraft_version: &str) -> (r: Result<
    String,
    ForgeInstallError,
>)
    ensures
        match lookup(promotions@, latest_key(minecraft_version@)) {
            Some(v) => r matches Ok(found) && found@ == v,
            None => r matches Err(ForgeInstallError::NoForgeVersionFound),
        },
{
    match promotions.get_forge_version(minecraft_version) {
        Some(version) => Ok(version),
        None => Err(ForgeInstallError::NoForgeVersionFound),
    }
}

/// The first installer candidate to try, where there is one.
pub fn first_candidate(candidates: usize) -> (r: Result<usize, ForgeInstallError>)
    ensures
        candidates > 0 ==> r == Ok::<usize, ForgeInstallError>(0),
        candidates == 0 ==> r matches Err(ForgeInstallError::NoInstallerCandidates),
{
    if candidates > 0 {
        Ok(0)
    } else {
        Err(ForgeInstallError::NoInstallerCandidates)
    }
}

/// What to do after the candidate at `index` of `candidates` answered with
/// `result`.
pub fn after_download(
    index: usize,
    candidates: usize,
    result: Result<Vec<u8>, RequestError>,
) -> (step: MirrorStep)
    requires
        index < candidates,
    ensures
        match result {
            Ok(file) => step == MirrorStep::Done(file),
            Err(e) => if tries_next(index, candidates, e.not_found()) {
                step == MirrorStep::TryNext((index + 1) as usize)
            } else {
                step == MirrorStep::Fail(ForgeInstallError::Request(e))
            },
        },
{
    match result {
        Ok(file) => MirrorStep::Done(file),
        Err(e) => {
            let is_last_url = index + 1 == candidates;
            if e.is_not_found() && !is_last_url {
                MirrorStep::TryNext(index + 1)
            } else {
                MirrorStep::Fail(ForgeInstallError::Request(e))
            }
        },
    }
}

/// One archive address.
pub fn archive_url_of(repository: &str, version: &str, ending: &str) -> (url: String)
    ensures
        url@ == archive_url(repository@, version@, ending@),
{
    String::from_str(repository).concat(version).concat("/forge-").concat(version).concat(ending)
}

impl ForgeInstaller {
    /// The rules for installing `forge_version` on `minecraft_version`.
    /// Fails where the loader version does not begin with a number.
    pub fn new(forge_version: &str, minecraft_version: &str, is_server: bool) -> (r: Result<
        ForgeInstaller,
        ForgeInstallError,
    >)
        ensures
            match major_of(forge_version@) {
                Some(major) => r matches Ok(installer) && {
                    &&& installer.major_version == major
                    &&& installer.is_server == is_server
                    &&& installer.minecraft_version@ == minecraft_version@
                    &&& installer.short_version@ == short_version(
                        minecraft_version@,
                        forge_version@,
                    )
                    &&& installer.norm_forge_version@ == norm_forge_version(
                        minecraft_version@,
                        forge_version@,
                    )
                },
                None => r matches Err(ForgeInstallError::ParseIntError(text)) && text@
                    == major_text(forge_version@),
            },
    {
        let game = chars_of(minecraft_version);
        let number_of_full_stops = count_char_in(game.as_slice(), '.');
        let norm = if number_of_full_stops == 1 {
            String::from_str(minecraft_version).concat(".0")
        } else {
            String::from_str(minecraft_version)
        };
        let short = String::from_str(minecraft_version).concat("-").concat(forge_version);
        let long = short.clone().concat("-").concat(norm.as_str());
        let version = chars_of(forge_version);
        let stop = find_char_in(version.as_slice(), '.');
        let major = copy_range(version.as_slice(), 0, stop);
        proof {
            assert(version@.subrange(0, stop as int) =~= major_text(forge_version@));
        }
        match parse_usize(major.as_slice()) {
            Some(major_version) => Ok(
                ForgeInstaller {
                    norm_forge_version: long,
                    short_version: short,
                    major_version,
                    is_server,
                    minecraft_version: String::from_str(minecraft_version),
                },
            ),
            None => Err(ForgeInstallError::ParseIntError(string_of(major.as_slice()))),
        }
    }

    /// Whether the loader comes with an installer program to run.
    pub fn runs_installer(&self) -> (r: bool)
        ensures
            r == (self.major_version >= INSTALLER_MAJOR),
    {
        self.major_version >= INSTALLER_MAJOR
    }

    /// The addresses at which the installer is looked for, in order.
    pub fn installer_urls(&self) -> (urls: Vec<String>)
        ensures
            string_views(urls@) == installer_candidates(
                self.short_version@,
                self.norm_forge_version@,
                self.major_version,
            ),
    {
        let (kind, flipped) = if self.major_version < INSTALLER_MAJOR {
            ("universal", "installer")
        } else {
            ("installer", "universal")
        };
        let first = String::from_str("-").concat(kind).concat(".jar");
        let second = String::from_str("-").concat(flipped).concat(".jar");
        let files = "https://files.minecraftforge.net/maven/net/minecraftforge/forge/";
        let maven = "https://maven.minecraftforge.net/net/minecraftforge/forge/";
        let short = self.short_version.as_str();
        let norm = self.norm_forge_version.as_str();
        let mut urls: Vec<String> = Vec::new();
        urls.push(archive_url_of(files, short, first.as_str()));
        urls.push(archive_url_of(files, norm, first.as_str()));
        urls.push(archive_url_of(files, short, second.as_str()));
        urls.push(archive_url_of(files, norm, second.as_str()));
        urls.push(archive_url_of(files, short, "-client.zip"));
        urls.push(archive_url_of(files, norm, "-client.zip"));
        urls.push(archive_url_of(maven, short, "-universal.zip"));
        urls.push(archive_url_of(maven, norm, "-universal.zip"));
        proof {
            assert(string_views(urls@) =~= installer_candidates(
                self.short_version@,
                self.norm_forge_version@,
                self.major_version,
            ));
        }
        urls
    }

    /// The name under which the installer is kept.
    pub fn installer_name(&self) -> (name: String)
        ensures
            name@ == installer_file_name(self.short_version@, self.major_version),
    {
        let kind = if self.major_version < INSTALLER_MAJOR {
            "universal"
        } else {
            "installer"
        };
        String::from_str("forge-").concat(self.short_version.as_str()).concat("-").concat(
            kind,
        ).concat(".jar")
    }

    /// The classpath that the installation starts with.
    pub fn initial_classpath(&self, installer_name: &str, separator: char) -> (classpath: String)
        ensures
            classpath@ == initial_classpath_text(
                self.short_version@,
                self.major_version,
                installer_name@,
                separator,
            ),
    {
        if self.major_version >= INSTALLER_MAJOR {
            if self.major_version < SELF_CONTAINED_MAJOR {
                let mut classpath = String::from_str(
                    "../forge/libraries/net/minecraftforge/forge/",
                ).concat(self.short_version.as_str()).concat("/forge-").concat(
                    self.short_version.as_str(),
                ).concat(".jar");
                classpath.push(separator);
                proof {
                    assert(classpath@ =~= initial_classpath_text(
                        self.short_version@,
                        self.major_version,
                        installer_name@,
                        separator,
                    ));
                }
                classpath
            } else {
                String::new()
            }
        } else {
            let mut classpath = String::from_str("../forge/").concat(installer_name);
            classpath.push(separator);
            proof {
                assert(classpath@ =~= initial_classpath_text(
                    self.short_version@,
                    self.major_version,
                    installer_name@,
                    separator,
                ));
            }
            classpath
        }
    }
}

} // verus!
