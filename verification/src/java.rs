//! Java runtimes: which one a platform gets, whether it has to be
//! installed, and where its binaries lie.

use vstd::prelude::*;
use vstd::string::*;

verus! {

/// The Java runtimes that can be provisioned.
#[derive(PartialEq, Eq, Structural, Clone, Copy, Debug)]
pub enum JavaVersion {
    Java16,
    Java17,
    Java21,
    Java8,
}

/// The operating systems that are told apart.
#[derive(PartialEq, Eq, Structural, Clone, Copy, Debug)]
pub enum Os {
    Linux,
    MacOs,
    Windows,
    Other,
}

/// The processor architectures that are told apart.
#[derive(PartialEq, Eq, Structural, Clone, Copy, Debug)]
pub enum Arch {
    X86_64,
    X86,
    Aarch64,
    Arm,
    Other,
}

/// Where a runtime comes from when the official list does not have it.
#[derive(PartialEq, Eq, Structural, Clone, Copy, Debug)]
pub enum ThirdPartySource {
    /// Amazon Corretto.
    Corretto,
    /// The builds for 32-bit ARM Linux.
    GetJdk,
}

/// Where a runtime is installed from.
pub enum InstallSource {
    /// The official list has it: the address of its file manifest.
    Official(String),
    /// Another distribution has it.
    ThirdParty(ThirdPartySource),
}

/// Why a runtime could not be provisioned.
#[derive(PartialEq, Eq, Structural, Clone, Copy, Debug)]
pub enum JavaInstallError {
    /// The binary is in none of the places where it could lie.
    NoJavaBinFound,
    /// The platform has no runtime but Java 8.
    UnsupportedOnlyJava8,
    /// The platform has no runtime of this version.
    UnsupportedPlatform,
}

/// What is on disk of one runtime.
#[derive(PartialEq, Eq, Structural, Clone, Copy, Debug)]
pub struct InstallDir {
    /// Whether the runtime's directory is there.
    pub exists: bool,
    /// Whether the directory holds the install lock.
    pub lock_present: bool,
}

/// What provisioning does for a runtime.
#[derive(PartialEq, Eq, Structural, Clone, Copy, Debug)]
pub enum JavaAction {
    /// The runtime is installed: nothing is downloaded.
    UseInstalled,
    /// The runtime is installed from scratch.
    Install,
}

/// What happened to a runtime's directory.
#[derive(PartialEq, Eq, Structural, Clone, Copy, Debug)]
pub enum InstallEvent {
    /// The directory was made and the lock written.
    Started,
    /// Every file is in place and the lock was removed.
    Finished,
    /// The installation failed: nothing is cleaned up.
    Failed,
}

/// The runtime that a platform gets in place of the one asked for: on
/// 64-bit ARM Windows nothing below Java 17, on 64-bit ARM macOS Java 17 for
/// Java 16, and the one asked for everywhere else.
pub open spec fn remapped(version: JavaVersion, os: Os, arch: Arch) -> JavaVersion {
    if os == Os::Windows && arch == Arch::Aarch64 {
        match version {
            JavaVersion::Java21 => JavaVersion::Java21,
            _ => JavaVersion::Java17,
        }
    } else if os == Os::MacOs && arch == Arch::Aarch64 {
        match version {
            JavaVersion::Java16 => JavaVersion::Java17,
            _ => version,
        }
    } else {
        version
    }
}

/// Whether the platform has quirks: whether `remapped` changes anything on
/// it.
pub open spec fn has_quirks(os: Os, arch: Arch) -> bool {
    arch == Arch::Aarch64 && (os == Os::Windows || os == Os::MacOs)
}

/// The runtimes that the official list has for a platform.
pub open spec fn officially_listed(version: JavaVersion, os: Os, arch: Arch) -> bool {
    match (os, arch) {
        (Os::Linux, Arch::X86_64) => true,
        (Os::Linux, Arch::X86) => version == JavaVersion::Java8,
        (Os::MacOs, Arch::X86_64) => true,
        (Os::MacOs, Arch::Aarch64) => version == JavaVersion::Java17 || version
            == JavaVersion::Java21,
        (Os::Windows, Arch::X86_64) => true,
        (Os::Windows, Arch::X86) => version != JavaVersion::Java21,
        (Os::Windows, Arch::Aarch64) => version == JavaVersion::Java17 || version
            == JavaVersion::Java21,
        _ => false,
    }
}

/// The distribution that has a runtime which the official list lacks.
pub open spec fn third_party(version: JavaVersion, os: Os, arch: Arch) -> Option<
    ThirdPartySource,
> {
    match (os, arch) {
        (Os::Linux, Arch::Aarch64) => Some(ThirdPartySource::Corretto),
        (Os::Linux, Arch::Arm) => if version == JavaVersion::Java8 {
            Some(ThirdPartySource::GetJdk)
        } else {
            None
        },
        (Os::MacOs, Arch::Aarch64) => if version == JavaVersion::Java8 || version
            == JavaVersion::Java16 {
            Some(ThirdPartySource::Corretto)
        } else {
            None
        },
        (Os::Windows, Arch::X86) => if version == JavaVersion::Java21 {
            Some(ThirdPartySource::Corretto)
        } else {
            None
        },
        _ => None,
    }
}

/// Whether a platform has a runtime at all, officially or otherwise.
pub open spec fn supported(version: JavaVersion, os: Os, arch: Arch) -> bool {
    officially_listed(version, os, arch) || third_party(version, os, arch) is Some
}

/// Whether a platform has Java 8 and nothing else.
pub open spec fn only_java8(os: Os, arch: Arch) -> bool {
    os == Os::Linux && (arch == Arch::X86 || arch == Arch::Arm)
}

/// The name under which the official list keeps a platform's runtimes;
/// `None` for a platform that the list does not know.
pub open spec fn platform_name(os: Os, arch: Arch) -> Option<Seq<char>> {
    match (os, arch) {
        (Os::Linux, Arch::X86_64) => Some("linux"@),
        (Os::Linux, Arch::X86) => Some("linux-i386"@),
        (Os::MacOs, Arch::X86_64) => Some("mac-os"@),
        (Os::MacOs, Arch::Aarch64) => Some("mac-os-arm64"@),
        (Os::Windows, Arch::X86_64) => Some("windows-x64"@),
        (Os::Windows, Arch::X86) => Some("windows-x86"@),
        (Os::Windows, Arch::Aarch64) => Some("windows-arm64"@),
        _ => None,
    }
}

/// The name under which the official list keeps a runtime.
pub open spec fn component_name(version: JavaVersion) -> Seq<char> {
    match version {
        JavaVersion::Java16 => "java-runtime-alpha"@,
        JavaVersion::Java17 => "java-runtime-gamma"@,
        JavaVersion::Java21 => "java-runtime-delta"@,
        JavaVersion::Java8 => "jre-legacy"@,
    }
}

/// Whether a runtime has to be installed: where its directory is missing,
/// and where the lock shows that an installation did not finish.
pub open spec fn needs_install(dir: InstallDir) -> bool {
    !dir.exists || dir.lock_present
}

/// The directory after an event.
pub open spec fn dir_after(dir: InstallDir, event: InstallEvent) -> InstallDir {
    match event {
        InstallEvent::Started => InstallDir { exists: true, lock_present: true },
        InstallEvent::Finished => InstallDir { exists: dir.exists, lock_present: false },
        InstallEvent::Failed => dir,
    }
}

/// The directory after one provisioning run that succeeds or fails.
pub open spec fn dir_after_run(dir: InstallDir, succeeds: bool) -> InstallDir {
    if needs_install(dir) {
        dir_after(
            dir_after(dir, InstallEvent::Started),
            if succeeds {
                InstallEvent::Finished
            } else {
                InstallEvent::Failed
            },
        )
    } else {
        dir
    }
}

/// The name of a runtime's directory.
pub open spec fn version_name(version: JavaVersion) -> Seq<char> {
    match version {
        JavaVersion::Java16 => "java_16"@,
        JavaVersion::Java17 => "java_17"@,
        JavaVersion::Java21 => "java_21"@,
        JavaVersion::Java8 => "java_8"@,
    }
}

/// Where a platform's own layout puts a binary below a runtime's
/// directory; `None` for a platform without a layout of its own.
pub open spec fn platform_binary(
    name: Seq<char>,
    os: Os,
    arch: Arch,
    version: JavaVersion,
) -> Option<Seq<char>> {
    if os == Os::Windows {
        Some("bin/"@ + name + ".exe"@)
    } else if os == Os::MacOs {
        if arch == Arch::Aarch64 && version == JavaVersion::Java8 {
            Some("Contents/Home/bin/"@ + name)
        } else {
            Some("jre.bundle/Contents/Home/bin/"@ + name)
        }
    } else if os == Os::Linux && arch == Arch::Arm {
        Some("jdk1.8.0_231/"@ + name)
    } else {
        None
    }
}

/// Where a binary lies below a runtime's directory: in `bin` where it is
/// there, and otherwise where the platform's layout puts it, where it is
/// there. `None` where it is in neither place.
pub open spec fn binary_path(
    name: Seq<char>,
    normal_exists: bool,
    platform_exists: bool,
    os: Os,
    arch: Arch,
    version: JavaVersion,
) -> Option<Seq<char>> {
    if normal_exists {
        Some("bin/"@ + name)
    } else if platform_exists {
        platform_binary(name, os, arch, version)
    } else {
        None
    }
}

/// The platform quirks are total, change nothing where there are none,
/// settle at once, and never lead away from what a platform has: on a
/// platform with quirks the runtime chosen is one that the platform has,
/// whatever was asked for.
pub proof fn lemma_remapped_supported(version: JavaVersion, os: Os, arch: Arch)
    ensures
        has_quirks(os, arch) ==> supported(remapped(version, os, arch), os, arch),
        supported(version, os, arch) ==> supported(remapped(version, os, arch), os, arch),
        !has_quirks(os, arch) ==> remapped(version, os, arch) == version,
        remapped(remapped(version, os, arch), os, arch) == remapped(version, os, arch),
{
}

/// A run that succeeds leaves a runtime that the next run uses as it is,
/// with nothing downloaded, and that run changes nothing.
pub proof fn lemma_second_run_is_idle(dir: InstallDir, again_succeeds: bool)
    ensures
        !needs_install(dir_after_run(dir, true)),
        dir_after_run(dir_after_run(dir, true), again_succeeds) == dir_after_run(dir, true),
{
}

/// A lock left behind, however much of the directory is there, makes the
/// next run install from scratch; where that run succeeds the lock is gone,
/// and where it fails the lock stays.
pub proof fn lemma_lock_resumes(dir: InstallDir)
    requires
        dir.lock_present,
    ensures
        needs_install(dir),
        !dir_after_run(dir, true).lock_present,
        dir_after_run(dir, true).exists,
        dir_after_run(dir, false).lock_present,
        needs_install(dir_after_run(dir, false)),
{
}

impl JavaVersion {
    /// The name of the runtime's directory.
    pub fn to_string(&self) -> (name: String)
        ensures
            name@ == version_name(*self),
    {
        match self {
            JavaVersion::Java16 => String::from_str("java_16"),
            JavaVersion::Java17 => String::from_str("java_17"),
            JavaVersion::Java21 => String::from_str("java_21"),
            JavaVersion::Java8 => String::from_str("java_8"),
        }
    }
}

/// The name under which the official list keeps the platform's runtimes.
/// Every platform of which the list has a runtime has a name.
pub fn platform_key(os: Os, arch: Arch) -> (key: Option<&'static str>)
    ensures
        match platform_name(os, arch) {
            Some(name) => key matches Some(k) && k@ == name,
            None => key is None,
        },
        key is None ==> forall|version: JavaVersion| !officially_listed(version, os, arch),
{
    match (os, arch) {
        (Os::Linux, Arch::X86_64) => Some("linux"),
        (Os::Linux, Arch::X86) => Some("linux-i386"),
        (Os::MacOs, Arch::X86_64) => Some("mac-os"),
        (Os::MacOs, Arch::Aarch64) => Some("mac-os-arm64"),
        (Os::Windows, Arch::X86_64) => Some("windows-x64"),
        (Os::Windows, Arch::X86) => Some("windows-x86"),
        (Os::Windows, Arch::Aarch64) => Some("windows-arm64"),
        _ => None,
    }
}

/// The name under which the official list keeps the runtime.
pub fn component_key(version: JavaVersion) -> (key: &'static str)
    ensures
        key@ == component_name(version),
{
    match version {
        JavaVersion::Java16 => "java-runtime-alpha",
        JavaVersion::Java17 => "java-runtime-gamma",
        JavaVersion::Java21 => "java-runtime-delta",
        JavaVersion::Java8 => "jre-legacy",
    }
}

/// The runtime that the platform gets in place of `version`.
pub fn apply_platform_quirks(version: JavaVersion, os: Os, arch: Arch) -> (chosen: JavaVersion)
    ensures
        chosen == remapped(version, os, arch),
        has_quirks(os, arch) ==> supported(chosen, os, arch),
        supported(version, os, arch) ==> supported(chosen, os, arch),
{
    if os == Os::Windows && arch == Arch::Aarch64 {
        match version {
            JavaVersion::Java8 | JavaVersion::Java16 | JavaVersion::Java17 => JavaVersion::Java17,
            JavaVersion::Java21 => JavaVersion::Java21,
        }
    } else if os == Os::MacOs && arch == Arch::Aarch64 {
        match version {
            JavaVersion::Java16 => JavaVersion::Java17,
            _ => version,
        }
    } else {
        version
    }
}

/// The runtime that provisioning works with when `requested` is asked for
/// on a platform, and the name of its directory: the platform's quirks are
/// applied first, so that the runtime that is installed is the one that is
/// looked for afterwards.
pub fn runtime_for(requested: JavaVersion, os: Os, arch: Arch) -> (r: (JavaVersion, String))
    ensures
        r.0 == remapped(requested, os, arch),
        r.1@ == version_name(r.0),
        has_quirks(os, arch) ==> supported(r.0, os, arch),
        supported(requested, os, arch) ==> supported(r.0, os, arch),
{
    let chosen = apply_platform_quirks(requested, os, arch);
    (chosen, chosen.to_string())
}

/// Where the runtime is installed from: the official manifest where the
/// list gave its address, and otherwise the distribution that has the
/// runtime for the platform.
pub fn choose_source(official_url: Option<String>, version: JavaVersion, os: Os, arch: Arch) -> (r:
    Result<InstallSource, JavaInstallError>)
    ensures
        match official_url {
            Some(url) => r == Ok::<InstallSource, JavaInstallError>(InstallSource::Official(url)),
            None => match third_party(version, os, arch) {
                Some(source) => r == Ok::<InstallSource, JavaInstallError>(
                    InstallSource::ThirdParty(source),
                ),
                None => if only_java8(os, arch) {
                    r matches Err(JavaInstallError::UnsupportedOnlyJava8)
                } else {
                    r matches Err(JavaInstallError::UnsupportedPlatform)
                },
            },
        },
{
    match official_url {
        Some(url) => Ok(InstallSource::Official(url)),
        None => match (os, arch) {
            (Os::Linux, Arch::Aarch64) => Ok(InstallSource::ThirdParty(ThirdPartySource::Corretto)),
            (Os::Linux, Arch::Arm) => match version {
                JavaVersion::Java8 => Ok(InstallSource::ThirdParty(ThirdPartySource::GetJdk)),
                _ => Err(JavaInstallError::UnsupportedOnlyJava8),
            },
            (Os::Linux, Arch::X86) => Err(JavaInstallError::UnsupportedOnlyJava8),
            (Os::MacOs, Arch::Aarch64) => match version {
                JavaVersion::Java8 | JavaVersion::Java16 => Ok(
                    InstallSource::ThirdParty(ThirdPartySource::Corretto),
                ),
                _ => Err(JavaInstallError::UnsupportedPlatform),
            },
            (Os::Windows, Arch::X86) => match version {
                JavaVersion::Java21 => Ok(InstallSource::ThirdParty(ThirdPartySource::Corretto)),
                _ => Err(JavaInstallError::UnsupportedPlatform),
            },
            _ => Err(JavaInstallError::UnsupportedPlatform),
        },
    }
}

/// What provisioning does for a runtime whose directory is as `dir` says.
pub fn plan_install(dir: InstallDir) -> (action: JavaAction)
    ensures
        action == (if needs_install(dir) {
            JavaAction::Install
        } else {
            JavaAction::UseInstalled
        }),
{
    if !dir.exists || dir.lock_present {
        JavaAction::Install
    } else {
        JavaAction::UseInstalled
    }
}

/// The directory after `event`.
pub fn record_event(dir: InstallDir, event: InstallEvent) -> (next: InstallDir)
    ensures
        next == dir_after(dir, event),
{
    match event {
        InstallEvent::Started => InstallDir { exists: true, lock_present: true },
        InstallEvent::Finished => InstallDir { exists: dir.exists, lock_present: false },
        InstallEvent::Failed => dir,
    }
}

/// The name of the runtime's own binary: `javaw` on Windows, `java`
/// elsewhere.
pub fn java_binary_name(os: Os) -> (name: &'static str)
    ensures
        name@ == (if os == Os::Windows {
            "javaw"@
        } else {
            "java"@
        }),
{
    if os == Os::Windows {
        "javaw"
    } else {
        "java"
    }
}

/// Where the platform's own layout puts the binary `name` below the
/// directory of the runtime that the platform gets for `requested`.
pub fn platform_binary_path(name: &str, os: Os, arch: Arch, requested: JavaVersion) -> (r: Option<
    String,
>)
    ensures
        match platform_binary(name@, os, arch, remapped(requested, os, arch)) {
            Some(path) => r matches Some(found) && found@ == path,
            None => r is None,
        },
{
    let version = apply_platform_quirks(requested, os, arch);
    if os == Os::Windows {
        Some(String::from_str("bin/").concat(name).concat(".exe"))
    } else if os == Os::MacOs {
        if arch == Arch::Aarch64 && version == JavaVersion::Java8 {
            Some(String::from_str("Contents/Home/bin/").concat(name))
        } else {
            Some(String::from_str("jre.bundle/Contents/Home/bin/").concat(name))
        }
    } else if os == Os::Linux && arch == Arch::Arm {
        Some(String::from_str("jdk1.8.0_231/").concat(name))
    } else {
        None
    }
}

/// Where the binary `name` lies below the directory of the runtime that
/// the platform gets for `requested`, given whether `bin/<name>` is there
/// and whether the platform's own place for it is.
pub fn get_java_binary(
    name: &str,
    normal_exists: bool,
    platform_exists: bool,
    os: Os,
    arch: Arch,
    requested: JavaVersion,
) -> (r: Result<String, JavaInstallError>)
    ensures
        match binary_path(
            name@,
            normal_exists,
            platform_exists,
            os,
            arch,
            remapped(requested, os, arch),
        ) {
            Some(path) => r matches Ok(found) && found@ == path,
            None => r matches Err(JavaInstallError::NoJavaBinFound),
        },
{
    let version = apply_platform_quirks(requested, os, arch);
    if normal_exists {
        return Ok(String::from_str("bin/").concat(name));
    }
    if !platform_exists {
        return Err(JavaInstallError::NoJavaBinFound);
    }
    proof {
        assert(remapped(version, os, arch) == version);
    }
    match platform_binary_path(name, os, arch, version) {
        Some(path) => Ok(path),
        None => Err(JavaInstallError::NoJavaBinFound),
    }
}

} // verus!
