use ql_provision::launch_jar::{
    class_path_entry_of, classify_entry, is_service_entry, make_launch_jar, ArchiveEntry,
    EntryAction, FabricInstallError, JarEntry, LaunchJar, LibraryFile,
};

fn entry(name: &str, data: &[u8]) -> ArchiveEntry {
    ArchiveEntry { name: name.to_string(), is_dir: false, data: data.to_vec() }
}

fn dir(name: &str) -> ArchiveEntry {
    ArchiveEntry { name: name.to_string(), is_dir: true, data: Vec::new() }
}

fn library(path: &str, entries: Vec<ArchiveEntry>) -> LibraryFile {
    LibraryFile { path: path.to_string(), entries }
}

fn listing(jar: &[JarEntry]) -> Vec<(String, String)> {
    jar.iter()
        .map(|e| (e.name.clone(), String::from_utf8_lossy(&e.data).to_string()))
        .collect()
}

fn made(jar: Result<Vec<JarEntry>, FabricInstallError>) -> Vec<JarEntry> {
    match jar {
        Ok(entries) => entries,
        Err(_) => panic!("the archive was not made"),
    }
}

#[test]
fn class_path_entry_is_relative_to_the_parent_with_forward_slashes() {
    assert_eq!(class_path_entry_of("libraries/net/fabric/loader.jar", false), "loader.jar");
    assert_eq!(class_path_entry_of("loader.jar", false), "loader.jar");
    assert_eq!(class_path_entry_of("C:\\libs\\loader.jar", true), "loader.jar");
    assert_eq!(class_path_entry_of("libs\\loader.jar", false), "libs/loader.jar");
    assert_eq!(class_path_entry_of("libraries/loader.jar/", false), "loader.jar");
    assert_eq!(class_path_entry_of("libraries//loader.jar/.", false), "loader.jar");
    assert_eq!(class_path_entry_of("/", false), "/");
    assert_eq!(class_path_entry_of("", false), "");
    assert_eq!(class_path_entry_of("libraries/..", false), "..");
}

#[test]
fn unshaded_archive_has_manifest_with_class_path_and_properties() {
    let libs = vec![library("libs/a.jar", Vec::new()), library("libs/sub/b.jar", Vec::new())];
    let jar = made(make_launch_jar("net.minecraft.Main", &libs, false, false));
    assert_eq!(
        listing(&jar),
        vec![
            (
                "META-INF/MANIFEST.MF".to_string(),
                "Manifest-Version: 1.0\nClass-Path: a.jar b.jar\nMain-Class: net.fabricmc.loader.impl.launch.server.FabricServerLaunche\n r\n"
                    .to_string()
            ),
            (
                "fabric-server-launch.properties".to_string(),
                "launch.mainClass=net.minecraft.Main\n".to_string()
            ),
        ]
    );
}

#[test]
fn unshaded_archive_ignores_what_the_libraries_hold() {
    let libs = vec![library("a.jar", vec![entry("x.class", b"x")])];
    let jar = made(make_launch_jar("M", &libs, false, false));
    assert_eq!(jar.len(), 2);
}

#[test]
fn long_class_path_is_folded_in_the_manifest() {
    let libs: Vec<LibraryFile> =
        (0..20).map(|i| library(&format!("libs/library-number-{i:02}.jar"), Vec::new())).collect();
    let jar = made(make_launch_jar("M", &libs, false, false));
    let manifest = String::from_utf8(jar[0].data.clone()).unwrap();
    let lines: Vec<&str> = manifest.lines().collect();
    assert!(lines.len() > 4);
    for line in &lines {
        assert!(line.chars().count() <= 70);
    }
    let mut logical = String::new();
    for line in &lines[1..] {
        if let Some(rest) = line.strip_prefix(' ') {
            logical.push_str(rest);
        } else {
            logical.push('\n');
            logical.push_str(line);
        }
    }
    let expected_class_path: Vec<String> =
        (0..20).map(|i| format!("library-number-{i:02}.jar")).collect();
    assert!(logical.contains(&format!("Class-Path: {}\n", expected_class_path.join(" "))));
}

#[test]
fn shaded_archive_has_no_class_path_and_copies_entries() {
    let libs = vec![
        library("a.jar", vec![dir("pkg/"), entry("pkg/A.class", b"AAA")]),
        library("b.jar", vec![entry("pkg/B.class", b"BBB")]),
    ];
    let jar = made(make_launch_jar("M", &libs, true, false));
    let list = listing(&jar);
    assert_eq!(list.len(), 4);
    assert_eq!(
        list[0].1,
        "Manifest-Version: 1.0\nMain-Class: net.fabricmc.loader.impl.launch.server.FabricServerLaunche\n r\n"
    );
    assert_eq!(list[1], ("fabric-server-launch.properties".to_string(), "launch.mainClass=M\n".to_string()));
    assert_eq!(list[2], ("pkg/A.class".to_string(), "AAA".to_string()));
    assert_eq!(list[3], ("pkg/B.class".to_string(), "BBB".to_string()));
}

#[test]
fn first_entry_of_a_name_wins() {
    let libs = vec![
        library("a.jar", vec![entry("x.txt", b"first")]),
        library("b.jar", vec![entry("x.txt", b"second"), entry("y.txt", b"y")]),
    ];
    let list = listing(&made(make_launch_jar("M", &libs, true, false)));
    assert_eq!(list[2], ("x.txt".to_string(), "first".to_string()));
    assert_eq!(list[3], ("y.txt".to_string(), "y".to_string()));
    assert_eq!(list.len(), 4);
}

#[test]
fn library_manifest_and_properties_do_not_replace_the_archive_s_own() {
    let libs = vec![library(
        "a.jar",
        vec![entry("META-INF/MANIFEST.MF", b"other"), entry("fabric-server-launch.properties", b"other")],
    )];
    let list = listing(&made(make_launch_jar("M", &libs, true, false)));
    assert_eq!(list.len(), 2);
    assert!(list[0].1.starts_with("Manifest-Version: 1.0\n"));
    assert_eq!(list[1].1, "launch.mainClass=M\n");
}

#[test]
fn signature_files_are_dropped() {
    let libs = vec![library(
        "a.jar",
        vec![
            entry("META-INF/SIGNER.SF", b"s"),
            entry("META-INF/SIGNER.RSA", b"s"),
            entry("META-INF/SIGNER.DSA", b"s"),
            entry("META-INF/SIGNER.EC", b"s"),
            entry("META-INF/NOTICE.txt", b"kept"),
            entry("META-INF/.SF", b"kept"),
            entry("META-INF/sub/x.SF", b"kept"),
        ],
    )];
    let list = listing(&made(make_launch_jar("M", &libs, true, false)));
    let kept: Vec<&str> = list[2..].iter().map(|(n, _)| n.as_str()).collect();
    assert_eq!(kept, vec!["META-INF/NOTICE.txt", "META-INF/.SF", "META-INF/sub/x.SF"]);
}

#[test]
fn names_that_only_hold_a_signature_ending_are_kept() {
    let names = [
        "META-INF/NOTICE.ECLIPSE.txt",
        "META-INF/SIGNER.SFX",
        "META-INF/SIGNER.RSA.bak",
        "lib/META-INF/SIGNER.SF",
        "xMETA-INF/SIGNER.SF",
        "META-INF/SIGNER.sf",
        "META-INF/SIGNER.EC\n",
    ];
    let entries: Vec<ArchiveEntry> = names.iter().map(|name| entry(name, b"x")).collect();
    let list = listing(&made(make_launch_jar("M", &vec![library("a.jar", entries)], true, false)));
    let kept: Vec<&str> = list[2..].iter().map(|(n, _)| n.as_str()).collect();
    assert_eq!(kept, names.to_vec());
    assert_eq!(list[2], ("META-INF/NOTICE.ECLIPSE.txt".to_string(), "x".to_string()));
}

#[test]
fn service_descriptors_of_two_archives_are_merged_and_deduplicated() {
    let name = "META-INF/services/com.example.Svc";
    let libs = vec![
        library("a.jar", vec![entry(name, b"com.example.Impl\n")]),
        library("b.jar", vec![entry(name, b"com.example.Impl\n# more\ncom.example.Other\n")]),
    ];
    let list = listing(&made(make_launch_jar("M", &libs, true, false)));
    assert_eq!(list.len(), 3);
    assert_eq!(list[2], (name.to_string(), "com.example.Impl\ncom.example.Other\n".to_string()));
    assert_eq!(list[2].1.matches("com.example.Impl").count(), 1);
}

#[test]
fn descriptors_below_the_services_directory_are_copied_not_merged() {
    let libs = vec![library("a.jar", vec![entry("META-INF/services/sub/x", b"raw  text")])];
    let list = listing(&made(make_launch_jar("M", &libs, true, false)));
    assert_eq!(list[2], ("META-INF/services/sub/x".to_string(), "raw  text".to_string()));
}

#[test]
fn service_descriptor_that_is_not_text_fails_with_its_name() {
    let libs = vec![
        library("a.jar", vec![entry("ok.txt", b"ok")]),
        library("b.jar", vec![entry("META-INF/services/bad", &[0xff, 0xfe]), entry("later", b"l")]),
    ];
    match make_launch_jar("M", &libs, true, false) {
        Err(FabricInstallError::ZipEntryReadError(name)) => assert_eq!(name, "META-INF/services/bad"),
        _ => panic!("expected a read error"),
    }
}

#[test]
fn directories_are_passed_over_even_where_they_look_like_services() {
    let libs = vec![library("a.jar", vec![dir("META-INF/services/"), dir("META-INF/")])];
    let list = listing(&made(make_launch_jar("M", &libs, true, false)));
    assert_eq!(list.len(), 2);
}

#[test]
fn service_entry_names_lie_directly_in_the_services_directory() {
    assert!(is_service_entry("META-INF/services/a.B"));
    assert!(is_service_entry("META-INF/services/"));
    assert!(!is_service_entry("META-INF/services/sub/a.B"));
    assert!(!is_service_entry("META-INF/services"));
    assert!(!is_service_entry("x/META-INF/services/a.B"));
}

#[test]
fn entries_are_classified_in_order_of_the_rules() {
    let svc = "META-INF/services/a";
    assert_eq!(classify_entry(svc, true, true, true), EntryAction::SkipDirectory);
    assert_eq!(classify_entry(svc, false, true, true), EntryAction::MergeService);
    assert_eq!(classify_entry("x", false, true, true), EntryAction::DropSignature);
    assert_eq!(classify_entry("x", false, false, true), EntryAction::DropDuplicate);
    assert_eq!(classify_entry("x", false, false, false), EntryAction::Copy);
}

#[test]
fn archive_can_be_shaded_one_library_at_a_time() {
    let paths = vec!["a.jar".to_string()];
    let mut jar = match LaunchJar::begin("M", &paths, true, false) {
        Ok(jar) => jar,
        Err(_) => panic!("the archive was not begun"),
    };
    assert!(jar.has_entry(&"META-INF/MANIFEST.MF".to_string()));
    assert!(!jar.has_entry(&"x".to_string()));
    assert!(jar.shade_archive(&vec![entry("x", b"1"), entry("META-INF/A.SF", b"2")]).is_ok());
    assert!(jar.has_entry(&"x".to_string()));
    assert!(jar.shade_archive(&vec![entry("x", b"3"), entry("META-INF/services/s", b"p\n")]).is_ok());
    let list = listing(&jar.finish());
    assert_eq!(list[2..].to_vec(), vec![
        ("x".to_string(), "1".to_string()),
        ("META-INF/services/s".to_string(), "p\n".to_string()),
    ]);
}

#[test]
fn finished_archive_never_holds_a_name_twice() {
    let svc = "META-INF/services/s";
    let libs = vec![
        library("a.jar", vec![entry("x", b"1"), entry(svc, b"p\n"), entry("x", b"2"), dir("d/")]),
        library("b.jar", vec![entry(svc, b"q\n"), entry("META-INF/MANIFEST.MF", b"m"), entry("y", b"3")]),
        library("c.jar", vec![entry("y", b"4"), entry("x", b"5"), entry("META-INF/services/t", b"p\n")]),
    ];
    let jar = made(make_launch_jar("M", &libs, true, false));
    let mut names: Vec<&str> = jar.iter().map(|e| e.name.as_str()).collect();
    assert_eq!(
        names,
        vec![
            "META-INF/MANIFEST.MF",
            "fabric-server-launch.properties",
            "x",
            "y",
            "META-INF/services/s",
            "META-INF/services/t"
        ]
    );
    names.sort();
    names.dedup();
    assert_eq!(names.len(), jar.len());
}

#[test]
fn archive_that_failed_keeps_what_came_before_the_failure() {
    let paths = vec!["a.jar".to_string()];
    let mut jar = match LaunchJar::begin("M", &paths, true, false) {
        Ok(jar) => jar,
        Err(_) => panic!("the archive was not begun"),
    };
    let entries = vec![entry("kept", b"1"), entry("META-INF/services/bad", &[0xff]), entry("late", b"2")];
    assert!(jar.shade_archive(&entries).is_err());
    assert!(jar.has_entry(&"kept".to_string()));
    assert!(!jar.has_entry(&"late".to_string()));
}
