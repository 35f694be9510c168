use ql_provision::java::{
    apply_platform_quirks, choose_source, component_key, get_java_binary, java_binary_name,
    plan_install, platform_binary_path, platform_key, record_event, runtime_for, Arch, InstallDir, InstallEvent, InstallSource, JavaAction, JavaInstallError,
    JavaVersion, Os, ThirdPartySource,
};

const VERSIONS: [JavaVersion; 4] =
    [JavaVersion::Java8, JavaVersion::Java16, JavaVersion::Java17, JavaVersion::Java21];
const SYSTEMS: [Os; 4] = [Os::Linux, Os::MacOs, Os::Windows, Os::Other];
const ARCHS: [Arch; 5] = [Arch::X86_64, Arch::X86, Arch::Aarch64, Arch::Arm, Arch::Other];

fn has_runtime(version: JavaVersion, os: Os, arch: Arch) -> bool {
    let official = match (os, arch) {
        (Os::Linux, Arch::X86_64) | (Os::MacOs, Arch::X86_64) | (Os::Windows, Arch::X86_64) => true,
        (Os::Linux, Arch::X86) => version == JavaVersion::Java8,
        (Os::MacOs, Arch::Aarch64) | (Os::Windows, Arch::Aarch64) => {
            version == JavaVersion::Java17 || version == JavaVersion::Java21
        }
        (Os::Windows, Arch::X86) => version != JavaVersion::Java21,
        _ => false,
    };
    official || choose_source(None, version, os, arch).is_ok()
}

#[test]
fn quirks_change_nothing_off_the_two_arm_platforms() {
    for os in SYSTEMS {
        for arch in ARCHS {
            let quirky = arch == Arch::Aarch64 && (os == Os::Windows || os == Os::MacOs);
            for version in VERSIONS {
                let chosen = apply_platform_quirks(version, os, arch);
                if !quirky {
                    assert_eq!(chosen, version);
                }
                assert_eq!(apply_platform_quirks(chosen, os, arch), chosen);
            }
        }
    }
}

#[test]
fn quirks_never_choose_a_runtime_that_the_platform_lacks() {
    for os in SYSTEMS {
        for arch in ARCHS {
            for version in VERSIONS {
                let chosen = apply_platform_quirks(version, os, arch);
                if has_runtime(version, os, arch) {
                    assert!(has_runtime(chosen, os, arch), "{version:?} on {os:?} {arch:?}");
                }
            }
        }
    }
    for version in VERSIONS {
        assert!(has_runtime(apply_platform_quirks(version, Os::Windows, Arch::Aarch64), Os::Windows, Arch::Aarch64));
        assert!(has_runtime(apply_platform_quirks(version, Os::MacOs, Arch::Aarch64), Os::MacOs, Arch::Aarch64));
    }
}

#[test]
fn windows_on_arm_gets_nothing_below_java_17() {
    let q = |v| apply_platform_quirks(v, Os::Windows, Arch::Aarch64);
    assert_eq!(q(JavaVersion::Java8), JavaVersion::Java17);
    assert_eq!(q(JavaVersion::Java16), JavaVersion::Java17);
    assert_eq!(q(JavaVersion::Java17), JavaVersion::Java17);
    assert_eq!(q(JavaVersion::Java21), JavaVersion::Java21);
}

#[test]
fn macos_on_arm_gets_java_17_for_java_16() {
    let q = |v| apply_platform_quirks(v, Os::MacOs, Arch::Aarch64);
    assert_eq!(q(JavaVersion::Java8), JavaVersion::Java8);
    assert_eq!(q(JavaVersion::Java16), JavaVersion::Java17);
    assert_eq!(q(JavaVersion::Java17), JavaVersion::Java17);
    assert_eq!(q(JavaVersion::Java21), JavaVersion::Java21);
}

#[test]
fn official_manifest_is_used_where_the_list_has_one() {
    match choose_source(Some("https://m/runtime/files".to_string()), JavaVersion::Java17, Os::Linux, Arch::Arm) {
        Ok(InstallSource::Official(url)) => assert_eq!(url, "https://m/runtime/files"),
        _ => panic!("expected the official source"),
    }
}

#[test]
fn other_distributions_fill_the_gaps_of_the_official_list() {
    let source = |v, os, arch| match choose_source(None, v, os, arch) {
        Ok(InstallSource::ThirdParty(s)) => Some(s),
        _ => None,
    };
    for version in VERSIONS {
        assert_eq!(source(version, Os::Linux, Arch::Aarch64), Some(ThirdPartySource::Corretto));
    }
    assert_eq!(source(JavaVersion::Java8, Os::Linux, Arch::Arm), Some(ThirdPartySource::GetJdk));
    assert_eq!(source(JavaVersion::Java8, Os::MacOs, Arch::Aarch64), Some(ThirdPartySource::Corretto));
    assert_eq!(source(JavaVersion::Java16, Os::MacOs, Arch::Aarch64), Some(ThirdPartySource::Corretto));
    assert_eq!(source(JavaVersion::Java21, Os::Windows, Arch::X86), Some(ThirdPartySource::Corretto));
    assert_eq!(source(JavaVersion::Java17, Os::Windows, Arch::X86), None);
    assert_eq!(source(JavaVersion::Java17, Os::Linux, Arch::X86_64), None);
}

#[test]
fn platforms_with_java_8_only_say_so() {
    for version in [JavaVersion::Java16, JavaVersion::Java17, JavaVersion::Java21] {
        assert!(matches!(choose_source(None, version, Os::Linux, Arch::Arm), Err(JavaInstallError::UnsupportedOnlyJava8)));
        assert!(matches!(choose_source(None, version, Os::Linux, Arch::X86), Err(JavaInstallError::UnsupportedOnlyJava8)));
    }
    assert!(matches!(
        choose_source(None, JavaVersion::Java8, Os::Linux, Arch::X86),
        Err(JavaInstallError::UnsupportedOnlyJava8)
    ));
}

#[test]
fn unknown_platforms_are_unsupported() {
    assert!(matches!(
        choose_source(None, JavaVersion::Java8, Os::Other, Arch::X86_64),
        Err(JavaInstallError::UnsupportedPlatform)
    ));
    assert!(matches!(
        choose_source(None, JavaVersion::Java8, Os::Windows, Arch::Aarch64),
        Err(JavaInstallError::UnsupportedPlatform)
    ));
    assert!(matches!(
        choose_source(None, JavaVersion::Java21, Os::MacOs, Arch::Aarch64),
        Err(JavaInstallError::UnsupportedPlatform)
    ));
    assert!(matches!(
        choose_source(None, JavaVersion::Java8, Os::Linux, Arch::Other),
        Err(JavaInstallError::UnsupportedPlatform)
    ));
}

#[test]
fn runtime_is_installed_where_missing_or_locked() {
    assert_eq!(plan_install(InstallDir { exists: false, lock_present: false }), JavaAction::Install);
    assert_eq!(plan_install(InstallDir { exists: false, lock_present: true }), JavaAction::Install);
    assert_eq!(plan_install(InstallDir { exists: true, lock_present: true }), JavaAction::Install);
    assert_eq!(plan_install(InstallDir { exists: true, lock_present: false }), JavaAction::UseInstalled);
}

#[test]
fn second_run_after_success_installs_nothing() {
    let fresh = InstallDir { exists: false, lock_present: false };
    assert_eq!(plan_install(fresh), JavaAction::Install);
    let started = record_event(fresh, InstallEvent::Started);
    assert_eq!(started, InstallDir { exists: true, lock_present: true });
    let done = record_event(started, InstallEvent::Finished);
    assert_eq!(done, InstallDir { exists: true, lock_present: false });
    assert_eq!(plan_install(done), JavaAction::UseInstalled);
    let first = get_java_binary("java", true, false, Os::Linux, Arch::X86_64, JavaVersion::Java17);
    let second = get_java_binary("java", true, false, Os::Linux, Arch::X86_64, JavaVersion::Java17);
    assert_eq!(first.ok(), second.ok());
}

#[test]
fn lock_left_behind_makes_the_next_run_install_and_success_removes_it() {
    let partial = InstallDir { exists: true, lock_present: true };
    assert_eq!(plan_install(partial), JavaAction::Install);
    let done = record_event(record_event(partial, InstallEvent::Started), InstallEvent::Finished);
    assert!(!done.lock_present);
    assert_eq!(plan_install(done), JavaAction::UseInstalled);
}

#[test]
fn failed_run_keeps_the_lock() {
    let fresh = InstallDir { exists: false, lock_present: false };
    let failed = record_event(record_event(fresh, InstallEvent::Started), InstallEvent::Failed);
    assert!(failed.lock_present);
    assert_eq!(plan_install(failed), JavaAction::Install);
}

#[test]
fn binary_lies_in_bin_where_it_is_there() {
    for os in SYSTEMS {
        for arch in ARCHS {
            for platform_exists in [false, true] {
                match get_java_binary("javac", true, platform_exists, os, arch, JavaVersion::Java21) {
                    Ok(path) => assert_eq!(path, "bin/javac"),
                    Err(_) => panic!("expected bin/javac"),
                }
            }
        }
    }
}

#[test]
fn binary_falls_back_to_the_platform_layout() {
    let at = |os, arch, v| {
        let found = get_java_binary("java", false, true, os, arch, v).ok();
        assert_eq!(found, platform_binary_path("java", os, arch, v));
        found
    };
    assert_eq!(at(Os::Windows, Arch::X86_64, JavaVersion::Java8), Some("bin/java.exe".to_string()));
    assert_eq!(at(Os::Windows, Arch::Aarch64, JavaVersion::Java17), Some("bin/java.exe".to_string()));
    assert_eq!(
        at(Os::MacOs, Arch::X86_64, JavaVersion::Java8),
        Some("jre.bundle/Contents/Home/bin/java".to_string())
    );
    assert_eq!(
        at(Os::MacOs, Arch::Aarch64, JavaVersion::Java17),
        Some("jre.bundle/Contents/Home/bin/java".to_string())
    );
    assert_eq!(at(Os::MacOs, Arch::Aarch64, JavaVersion::Java8), Some("Contents/Home/bin/java".to_string()));
    assert_eq!(at(Os::Linux, Arch::Arm, JavaVersion::Java8), Some("jdk1.8.0_231/java".to_string()));
}

#[test]
fn binary_is_not_found_where_no_layout_applies() {
    for platform_exists in [false, true] {
        assert!(matches!(
            get_java_binary("java", false, platform_exists, Os::Linux, Arch::X86_64, JavaVersion::Java17),
            Err(JavaInstallError::NoJavaBinFound)
        ));
        assert!(matches!(
            get_java_binary("java", false, platform_exists, Os::Linux, Arch::Aarch64, JavaVersion::Java17),
            Err(JavaInstallError::NoJavaBinFound)
        ));
        assert!(matches!(
            get_java_binary("java", false, platform_exists, Os::Other, Arch::Arm, JavaVersion::Java8),
            Err(JavaInstallError::NoJavaBinFound)
        ));
    }
    assert_eq!(platform_binary_path("java", Os::Linux, Arch::X86_64, JavaVersion::Java17), None);
}

#[test]
fn binary_is_not_found_where_it_is_in_neither_place() {
    assert!(matches!(
        get_java_binary("java", false, false, Os::Windows, Arch::X86_64, JavaVersion::Java17),
        Err(JavaInstallError::NoJavaBinFound)
    ));
    assert!(matches!(
        get_java_binary("java", false, false, Os::MacOs, Arch::Aarch64, JavaVersion::Java8),
        Err(JavaInstallError::NoJavaBinFound)
    ));
    assert!(matches!(
        get_java_binary("java", false, false, Os::Linux, Arch::Arm, JavaVersion::Java8),
        Err(JavaInstallError::NoJavaBinFound)
    ));
}

#[test]
fn official_list_has_names_for_platforms_and_runtimes() {
    assert_eq!(platform_key(Os::Linux, Arch::X86_64), Some("linux"));
    assert_eq!(platform_key(Os::Linux, Arch::X86), Some("linux-i386"));
    assert_eq!(platform_key(Os::MacOs, Arch::X86_64), Some("mac-os"));
    assert_eq!(platform_key(Os::MacOs, Arch::Aarch64), Some("mac-os-arm64"));
    assert_eq!(platform_key(Os::Windows, Arch::X86_64), Some("windows-x64"));
    assert_eq!(platform_key(Os::Windows, Arch::X86), Some("windows-x86"));
    assert_eq!(platform_key(Os::Windows, Arch::Aarch64), Some("windows-arm64"));
    assert_eq!(platform_key(Os::Linux, Arch::Aarch64), None);
    assert_eq!(platform_key(Os::Linux, Arch::Arm), None);
    assert_eq!(platform_key(Os::Other, Arch::X86_64), None);
    assert_eq!(component_key(JavaVersion::Java8), "jre-legacy");
    assert_eq!(component_key(JavaVersion::Java16), "java-runtime-alpha");
    assert_eq!(component_key(JavaVersion::Java17), "java-runtime-gamma");
    assert_eq!(component_key(JavaVersion::Java21), "java-runtime-delta");
}

#[test]
fn runtime_binary_and_directory_have_their_names() {
    assert_eq!(java_binary_name(Os::Windows), "javaw");
    assert_eq!(java_binary_name(Os::Linux), "java");
    assert_eq!(java_binary_name(Os::MacOs), "java");
    assert_eq!(JavaVersion::Java8.to_string(), "java_8");
    assert_eq!(JavaVersion::Java16.to_string(), "java_16");
    assert_eq!(JavaVersion::Java17.to_string(), "java_17");
    assert_eq!(JavaVersion::Java21.to_string(), "java_21");
}

#[test]
fn runtime_and_directory_are_those_of_the_remapped_version() {
    assert_eq!(
        runtime_for(JavaVersion::Java8, Os::Windows, Arch::Aarch64),
        (JavaVersion::Java17, "java_17".to_string())
    );
    assert_eq!(
        runtime_for(JavaVersion::Java16, Os::MacOs, Arch::Aarch64),
        (JavaVersion::Java17, "java_17".to_string())
    );
    assert_eq!(
        runtime_for(JavaVersion::Java8, Os::Linux, Arch::X86_64),
        (JavaVersion::Java8, "java_8".to_string())
    );
    for os in SYSTEMS {
        for arch in ARCHS {
            for version in VERSIONS {
                let (chosen, dir) = runtime_for(version, os, arch);
                assert_eq!(chosen, apply_platform_quirks(version, os, arch));
                assert_eq!(dir, chosen.to_string());
            }
        }
    }
}

#[test]
fn binary_is_looked_for_in_the_layout_of_the_remapped_version() {
    for os in SYSTEMS {
        for arch in ARCHS {
            for version in VERSIONS {
                let chosen = apply_platform_quirks(version, os, arch);
                assert_eq!(
                    get_java_binary("java", false, true, os, arch, version).ok(),
                    get_java_binary("java", false, true, os, arch, chosen).ok()
                );
                assert_eq!(
                    platform_binary_path("java", os, arch, version),
                    platform_binary_path("java", os, arch, chosen)
                );
            }
        }
    }
    assert_eq!(
        get_java_binary("java", false, true, Os::Windows, Arch::Aarch64, JavaVersion::Java8).ok(),
        Some("bin/java.exe".to_string())
    );
}
