//! The course of a Forge installation: its stages, the route it takes, the
//! progress it reports and the files it leaves.

use vstd::prelude::*;
use vstd::string::*;
use crate::decimal::decimal_of;
use crate::forge_libraries::Classpaths;
use crate::json::forge::JsonDetails;
use crate::json::version::VersionDetails;
use crate::text::{decimal_digits, same_text, string_of};

verus! {

/// The lock that marks an unfinished installation.
pub const LOCK_FILE: &'static str = "forge.lock";

/// What the lock says to whoever opens it.
pub const LOCK_TEXT: &'static str = "If you see this, forge was not installed correctly.";

/// The game version that is installed by installer though it is a legacy
/// one.
pub const INSTALLER_LEGACY_VERSION: &'static str = "1.5.2";

/// What a loader is installed into.
pub enum InstanceSelection {
    /// A client instance, by name.
    Instance(String),
    /// A server, by name.
    Server(String),
}

/// How a loader gets into the game.
#[derive(PartialEq, Eq, Structural, Clone, Copy, Debug)]
pub enum InstallRoute {
    /// The installer archive is laid over the game archive.
    Jarmod,
    /// The installer's libraries are resolved and put on the classpath.
    Installer,
}

/// How far an installation has come.
#[derive(PartialEq, Eq, Structural, Clone, Copy, Debug)]
pub enum InstallStage {
    Created,
    VersionResolved,
    InstallerDownloaded,
    LegacyJarmodApplied,
    InstallerCompiledAndRun,
    LibrariesResolved,
    PersistedAndUnlocked,
}

/// The work that leads from one stage to the next.
#[derive(PartialEq, Eq, Structural, Clone, Copy, Debug)]
pub enum InstallWork {
    /// Find out which loader version to install.
    ResolveVersion,
    /// Download the installer from the first candidate that has it.
    DownloadInstaller,
    /// Lay the installer over the game archive.
    ApplyJarmod,
    /// Run the installer program, where the loader comes with one.
    RunInstaller,
    /// Fetch the libraries and assemble the classpaths.
    ResolveLibraries,
    /// Write the classpaths and the descriptor, then release the lock.
    PersistAndUnlock,
    /// Release the lock; nothing is written.
    Unlock,
}

/// What an installation reports of its progress.
pub enum ForgeInstallProgress {
    P1Start,
    P2DownloadingJson,
    P3DownloadingInstaller,
    P4RunningInstaller,
    P5DownloadingLibrary { num: usize, out_of: usize },
    P6Done,
}

/// The route for a game version: a legacy version takes the loader as a
/// patch, but for the one that comes with an installer.
pub open spec fn route_of(legacy: bool, id: Seq<char>) -> InstallRoute {
    if legacy && id != INSTALLER_LEGACY_VERSION@ {
        InstallRoute::Jarmod
    } else {
        InstallRoute::Installer
    }
}

/// The stage that follows `stage` once its work succeeded; `None` where the
/// installation is over.
pub open spec fn stage_after(stage: InstallStage, route: InstallRoute) -> Option<InstallStage> {
    match stage {
        InstallStage::Created => Some(InstallStage::VersionResolved),
        InstallStage::VersionResolved => Some(InstallStage::InstallerDownloaded),
        InstallStage::InstallerDownloaded => match route {
            InstallRoute::Jarmod => Some(InstallStage::LegacyJarmodApplied),
            InstallRoute::Installer => Some(InstallStage::InstallerCompiledAndRun),
        },
        InstallStage::InstallerCompiledAndRun => Some(InstallStage::LibrariesResolved),
        InstallStage::LibrariesResolved => Some(InstallStage::PersistedAndUnlocked),
        InstallStage::LegacyJarmodApplied => Some(InstallStage::PersistedAndUnlocked),
        InstallStage::PersistedAndUnlocked => None,
    }
}

/// The work that is due at a stage; `None` where the installation is over.
pub open spec fn work_at(stage: InstallStage, route: InstallRoute) -> Option<InstallWork> {
    match stage {
        InstallStage::Created => Some(InstallWork::ResolveVersion),
        InstallStage::VersionResolved => Some(InstallWork::DownloadInstaller),
        InstallStage::InstallerDownloaded => match route {
            InstallRoute::Jarmod => Some(InstallWork::ApplyJarmod),
            InstallRoute::Installer => Some(InstallWork::RunInstaller),
        },
        InstallStage::InstallerCompiledAndRun => Some(InstallWork::ResolveLibraries),
        InstallStage::LibrariesResolved => Some(InstallWork::PersistAndUnlock),
        InstallStage::LegacyJarmodApplied => Some(InstallWork::Unlock),
        InstallStage::PersistedAndUnlocked => None,
    }
}

/// Whether the install lock is in place at a stage: at every stage but the
/// last, which both routes end in.
pub open spec fn lock_held(stage: InstallStage) -> bool {
    stage != InstallStage::PersistedAndUnlocked
}

/// How many stages lie behind a stage.
pub open spec fn stage_rank(stage: InstallStage) -> nat {
    match stage {
        InstallStage::Created => 0,
        InstallStage::VersionResolved => 1,
        InstallStage::InstallerDownloaded => 2,
        InstallStage::LegacyJarmodApplied => 3,
        InstallStage::InstallerCompiledAndRun => 3,
        InstallStage::LibrariesResolved => 4,
        InstallStage::PersistedAndUnlocked => 5,
    }
}

/// The whole steps that lie behind a report.
pub open spec fn progress_step(progress: ForgeInstallProgress) -> nat {
    match progress {
        ForgeInstallProgress::P1Start => 0,
        ForgeInstallProgress::P2DownloadingJson => 1,
        ForgeInstallProgress::P3DownloadingInstaller => 2,
        ForgeInstallProgress::P4RunningInstaller => 3,
        ForgeInstallProgress::P5DownloadingLibrary { .. } => 3,
        ForgeInstallProgress::P6Done => 4,
    }
}

/// What a report says.
pub open spec fn progress_message(progress: ForgeInstallProgress) -> Seq<char> {
    match progress {
        ForgeInstallProgress::P1Start => "Installing forge..."@,
        ForgeInstallProgress::P2DownloadingJson => "Downloading JSON"@,
        ForgeInstallProgress::P3DownloadingInstaller => "Downloading installer"@,
        ForgeInstallProgress::P4RunningInstaller => "Running Installer (this might take a while)"@,
        ForgeInstallProgress::P5DownloadingLibrary { num, out_of } => "Downloading Library ("@
            + decimal_digits(num as nat) + "/"@ + decimal_digits(out_of as nat) + ")"@,
        ForgeInstallProgress::P6Done => "Done!"@,
    }
}

/// The files that a finished installation leaves, with their contents.
pub open spec fn persisted_files(classpaths: (Seq<char>, Seq<char>), details: Seq<char>) -> Seq<
    (Seq<char>, Seq<char>),
> {
    seq![
        ("classpath.txt"@, classpaths.0),
        ("clean_classpath.txt"@, classpaths.1),
        ("details.json"@, details),
    ]
}

/// Every step forward leaves more stages behind, so an installation ends.
/// It ends, on either route, exactly where the lock is released; the lock
/// is released by the last piece of work and by no other, so it is in
/// place whenever an earlier piece fails.
pub proof fn lemma_lock_released_last(stage: InstallStage, route: InstallRoute)
    ensures
        stage_after(stage, route) matches Some(next) ==> stage_rank(next) > stage_rank(stage),
        lock_held(InstallStage::Created),
        stage_after(stage, route) is None <==> !lock_held(stage),
        work_at(stage, route) is Some <==> stage_after(stage, route) is Some,
        stage_after(stage, route) matches Some(next) ==> (!lock_held(next) <==> (work_at(
            stage,
            route,
        ) == Some(InstallWork::PersistAndUnlock) || work_at(stage, route) == Some(
            InstallWork::Unlock,
        ))),
        work_at(stage, route) == Some(InstallWork::Unlock) <==> stage
            == InstallStage::LegacyJarmodApplied,
{
}

impl InstanceSelection {
    /// Whether a server was selected.
    pub fn is_server(&self) -> (r: bool)
        ensures
            r == (self is Server),
    {
        match self {
            InstanceSelection::Instance(_) => false,
            InstanceSelection::Server(_) => true,
        }
    }

    /// The name of what was selected.
    pub fn get_name(&self) -> (name: &String)
        ensures
            *name == (match self {
                InstanceSelection::Instance(n) => *n,
                InstanceSelection::Server(n) => *n,
            }),
    {
        match self {
            InstanceSelection::Instance(n) => n,
            InstanceSelection::Server(n) => n,
        }
    }
}

impl Default for ForgeInstallProgress {
    fn default() -> (progress: Self)
        ensures
            progress is P1Start,
    {
        ForgeInstallProgress::P1Start
    }
}

impl ForgeInstallProgress {
    /// The whole steps that lie behind this report.
    pub fn get_step(&self) -> (step: usize)
        ensures
            step == progress_step(*self),
    {
        match self {
            ForgeInstallProgress::P1Start => 0,
            ForgeInstallProgress::P2DownloadingJson => 1,
            ForgeInstallProgress::P3DownloadingInstaller => 2,
            ForgeInstallProgress::P4RunningInstaller => 3,
            ForgeInstallProgress::P5DownloadingLibrary { .. } => 3,
            ForgeInstallProgress::P6Done => 4,
        }
    }

    /// The steps of a whole installation.
    pub fn total_steps() -> (steps: usize)
        ensures
            steps == 4,
    {
        4
    }

    /// What this report says.
    pub fn get_message(&self) -> (message: Option<String>)
        ensures
            message matches Some(m) && m@ == progress_message(*self),
    {
        Some(
            match self {
                ForgeInstallProgress::P1Start => String::from_str("Installing forge..."),
                ForgeInstallProgress::P2DownloadingJson => String::from_str("Downloading JSON"),
                ForgeInstallProgress::P3DownloadingInstaller => String::from_str(
                    "Downloading installer",
                ),
                ForgeInstallProgress::P4RunningInstaller => String::from_str(
                    "Running Installer (this might take a while)",
                ),
                ForgeInstallProgress::P5DownloadingLibrary { num, out_of } => {
                    let first = string_of(decimal_of(*num).as_slice());
                    let second = string_of(decimal_of(*out_of).as_slice());
                    String::from_str("Downloading Library (").concat(first.as_str()).concat(
                        "/",
                    ).concat(second.as_str()).concat(")")
                },
                ForgeInstallProgress::P6Done => String::from_str("Done!"),
            },
        )
    }

    /// The report for the library at `index` of `count` libraries.
    pub fn library(index: usize, count: usize) -> (progress: ForgeInstallProgress)
        requires
            index < usize::MAX,
        ensures
            progress == (ForgeInstallProgress::P5DownloadingLibrary {
                num: (index + 1) as usize,
                out_of: count,
            }),
    {
        ForgeInstallProgress::P5DownloadingLibrary { num: index + 1, out_of: count }
    }
}

/// The route that the installation for `version_json` takes. Whether the
/// version is a legacy one is worked out on the way and remembered.
pub fn install_route(version_json: &mut VersionDetails) -> (route: InstallRoute)
    ensures
        route == route_of(old(version_json).legacy(), old(version_json).id@),
        *final(version_json) == (VersionDetails {
            ql_is_legacy_version: Some(old(version_json).legacy()),
            ..*old(version_json)
        }),
{
    let legacy = version_json.is_legacy_version();
    if legacy && !same_text(version_json.id.as_str(), INSTALLER_LEGACY_VERSION) {
        InstallRoute::Jarmod
    } else {
        InstallRoute::Installer
    }
}

/// The stage that follows `stage` once its work succeeded.
pub fn next_stage(stage: InstallStage, route: InstallRoute) -> (next: Option<InstallStage>)
    ensures
        next == stage_after(stage, route),
        next is None <==> !lock_held(stage),
{
    match stage {
        InstallStage::Created => Some(InstallStage::VersionResolved),
        InstallStage::VersionResolved => Some(InstallStage::InstallerDownloaded),
        InstallStage::InstallerDownloaded => match route {
            InstallRoute::Jarmod => Some(InstallStage::LegacyJarmodApplied),
            InstallRoute::Installer => Some(InstallStage::InstallerCompiledAndRun),
        },
        InstallStage::InstallerCompiledAndRun => Some(InstallStage::LibrariesResolved),
        InstallStage::LibrariesResolved => Some(InstallStage::PersistedAndUnlocked),
        InstallStage::LegacyJarmodApplied => Some(InstallStage::PersistedAndUnlocked),
        InstallStage::PersistedAndUnlocked => None,
    }
}

/// The work that is due at `stage`: what has to succeed for the
/// installation to reach the next stage.
pub fn next_work(stage: InstallStage, route: InstallRoute) -> (work: Option<InstallWork>)
    ensures
        work == work_at(stage, route),
        work is Some <==> stage_after(stage, route) is Some,
{
    match stage {
        InstallStage::Created => Some(InstallWork::ResolveVersion),
        InstallStage::VersionResolved => Some(InstallWork::DownloadInstaller),
        InstallStage::InstallerDownloaded => match route {
            InstallRoute::Jarmod => Some(InstallWork::ApplyJarmod),
            InstallRoute::Installer => Some(InstallWork::RunInstaller),
        },
        InstallStage::InstallerCompiledAndRun => Some(InstallWork::ResolveLibraries),
        InstallStage::LibrariesResolved => Some(InstallWork::PersistAndUnlock),
        InstallStage::LegacyJarmodApplied => Some(InstallWork::Unlock),
        InstallStage::PersistedAndUnlocked => None,
    }
}

/// Whether the install lock is in place at `stage`.
pub fn holds_lock(stage: InstallStage) -> (held: bool)
    ensures
        held == lock_held(stage),
{
    match stage {
        InstallStage::PersistedAndUnlocked => false,
        _ => true,
    }
}

/// The files that a finished installation leaves: the two classpaths, and
/// the loader's descriptor as the text that was kept of it, each under its
/// name.
pub fn persisted_outputs(classpaths: Classpaths, descriptor: (JsonDetails, String)) -> (files: Vec<
    (String, String),
>)
    ensures
        Seq::new(files@.len(), |i: int| (files@[i].0@, files@[i].1@)) == persisted_files(
            classpaths@,
            descriptor.1@,
        ),
{
    let (_, details) = descriptor;
    let mut files: Vec<(String, String)> = Vec::new();
    files.push((String::from_str("classpath.txt"), classpaths.classpath));
    files.push((String::from_str("clean_classpath.txt"), classpaths.clean_classpath));
    files.push((String::from_str("details.json"), details));
    proof {
        assert(Seq::new(files@.len(), |i: int| (files@[i].0@, files@[i].1@)) =~= persisted_files(
            classpaths@,
            descriptor.1@,
        ));
    }
    files
}

} // verus!
