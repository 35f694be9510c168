use ql_provision::forge::{ForgeInstallError, ForgeInstaller};
use ql_provision::forge_libraries::{
    add_to_classpath, after_fetch, get_filename_and_path, parse_library_name, select_libraries,
    Classpaths, FetchEvent, LibraryAction, LibraryStep,
};
use ql_provision::json::forge::{JsonDetailsArtifact, JsonDetailsDownloads, JsonDetailsLibrary};
use ql_provision::request::RequestError;

fn lib(name: &str) -> JsonDetailsLibrary {
    JsonDetailsLibrary { name: name.to_string(), url: None, downloads: None, clientreq: None }
}

fn lib_with(name: &str, url: Option<&str>, artifact: Option<(&str, &str)>, clientreq: Option<bool>) -> JsonDetailsLibrary {
    JsonDetailsLibrary {
        name: name.to_string(),
        url: url.map(|u| u.to_string()),
        downloads: artifact.map(|(path, url)| JsonDetailsDownloads {
            artifact: JsonDetailsArtifact {
                path: path.to_string(),
                url: url.to_string(),
                sha1: String::new(),
                size: 0,
            },
        }),
        clientreq,
    }
}

fn installer(major: &str) -> ForgeInstaller {
    match ForgeInstaller::new(major, "1.12.2", false) {
        Ok(i) => i,
        Err(_) => panic!("no installer"),
    }
}

fn step(i: &ForgeInstaller, l: &JsonDetailsLibrary) -> LibraryStep {
    match i.plan_library(l, false) {
        Ok(step) => step,
        Err(_) => panic!("no step for {}", l.name),
    }
}

fn names(libs: &[JsonDetailsLibrary]) -> Vec<String> {
    libs.iter().map(|l| l.name.clone()).collect()
}

#[test]
fn library_name_has_group_artifact_and_version() {
    let n = parse_library_name("org.ow2.asm:asm:9.2").unwrap();
    assert_eq!((n.group.as_str(), n.artifact.as_str(), n.version.as_str()), ("org.ow2.asm", "asm", "9.2"));
    let m = parse_library_name("a:b:c:natives").unwrap();
    assert_eq!((m.group.as_str(), m.artifact.as_str(), m.version.as_str()), ("a", "b", "c"));
    assert!(parse_library_name("a:b").is_none());
    assert!(parse_library_name("").is_none());
    let e = parse_library_name("::").unwrap();
    assert_eq!((e.group.as_str(), e.artifact.as_str(), e.version.as_str()), ("", "", ""));
}

#[test]
fn file_and_path_are_built_from_the_name_without_a_download_descriptor() {
    let l = lib("org.ow2.asm:asm:9.2");
    match get_filename_and_path("asm", "9.2", &l, "org.ow2.asm", false) {
        Ok((file, path)) => {
            assert_eq!(file, "asm-9.2.jar");
            assert_eq!(path, "org/ow2/asm/asm/9.2");
        }
        Err(_) => panic!("expected file and path"),
    }
}

#[test]
fn file_and_path_are_taken_from_the_download_descriptor() {
    let l = lib_with("a:b:1", None, Some(("x/y/z-1-extra.jar", "https://h/z.jar")), None);
    match get_filename_and_path("b", "1", &l, "a", false) {
        Ok((file, path)) => {
            assert_eq!(file, "z-1-extra.jar");
            assert_eq!(path, "x/y");
        }
        Err(_) => panic!("expected file and path"),
    }
    let flat = lib_with("a:b:1", None, Some(("only.jar", "u")), None);
    match get_filename_and_path("b", "1", &flat, "a", false) {
        Ok((file, path)) => {
            assert_eq!(file, "only.jar");
            assert_eq!(path, "");
        }
        Err(_) => panic!("expected file and path"),
    }
}

#[test]
fn download_path_is_read_as_a_path() {
    let cases = [
        ("x/y/z.jar/", "z.jar", "x/y"),
        ("x//y//z.jar", "z.jar", "x//y"),
        ("x/y/./z.jar/.", "z.jar", "x/y"),
        ("/z.jar", "z.jar", "/"),
    ];
    for (path, file, dir) in cases {
        let l = lib_with("a:b:1", None, Some((path, "u")), None);
        match get_filename_and_path("b", "1", &l, "a", false) {
            Ok((found_file, found_dir)) => {
                assert_eq!(found_file, file, "file of {path:?}");
                assert_eq!(found_dir, dir, "directory of {path:?}");
            }
            Err(_) => panic!("expected file and path for {path:?}"),
        }
    }
}

#[test]
fn download_path_that_ends_in_dots_names_no_file() {
    for path in ["x/..", "..", ".", "x/y/../"] {
        let l = lib_with("a:b:1", None, Some((path, "u")), None);
        assert!(
            matches!(
                get_filename_and_path("b", "1", &l, "a", false),
                Err(ForgeInstallError::LibraryFileName)
            ),
            "{path:?}"
        );
        assert!(matches!(installer("14.0").plan_library(&l, false), Err(ForgeInstallError::LibraryFileName)));
    }
}

#[test]
fn root_download_path_has_no_parent() {
    for path in ["/", "//", "/."] {
        let l = lib_with("a:b:1", None, Some((path, "u")), None);
        assert!(matches!(
            get_filename_and_path("b", "1", &l, "a", false),
            Err(ForgeInstallError::LibraryParentError)
        ));
    }
}

#[test]
fn empty_download_path_has_no_parent() {
    let l = lib_with("a:b:1", None, Some(("", "u")), None);
    assert!(matches!(
        get_filename_and_path("b", "1", &l, "a", false),
        Err(ForgeInstallError::LibraryParentError)
    ));
    assert!(matches!(installer("14.0").plan_library(&l, false), Err(ForgeInstallError::LibraryParentError)));
}

#[test]
fn library_without_three_name_parts_is_refused_by_name() {
    match installer("14.0").plan_library(&lib("broken:name"), false) {
        Err(ForgeInstallError::LibraryName(name)) => assert_eq!(name, "broken:name"),
        _ => panic!("expected the name"),
    }
}

#[test]
fn library_is_fetched_from_the_default_repository() {
    let s = step(&installer("14.0"), &lib("org.ow2.asm:asm:9.2"));
    assert_eq!(s.clean_entry, "org.ow2.asm:asm\n");
    assert_eq!(s.file, "asm-9.2.jar");
    assert_eq!(s.path, "org/ow2/asm/asm/9.2");
    match s.action {
        LibraryAction::Fetch { url } => {
            assert_eq!(url, "https://libraries.minecraft.net/org/ow2/asm/asm/9.2/asm-9.2.jar")
        }
        _ => panic!("expected a fetch"),
    }
}

#[test]
fn library_is_fetched_from_its_own_repository_or_its_explicit_address() {
    let own = lib_with("g.h:a:1", Some("https://repo.example/maven/"), None, None);
    match step(&installer("14.0"), &own).action {
        LibraryAction::Fetch { url } => assert_eq!(url, "https://repo.example/maven/g/h/a/1/a-1.jar"),
        _ => panic!("expected a fetch"),
    }
    let explicit = lib_with("g.h:a:1", Some("https://ignored/"), Some(("p/q/a.jar", "https://cdn/a.jar")), None);
    let s = step(&installer("14.0"), &explicit);
    assert_eq!((s.file.as_str(), s.path.as_str()), ("a.jar", "p/q"));
    match s.action {
        LibraryAction::Fetch { url } => assert_eq!(url, "https://cdn/a.jar"),
        _ => panic!("expected a fetch"),
    }
}

#[test]
fn loader_itself_is_not_fetched_and_listed_only_above_major_48() {
    let l = lib("net.minecraftforge:forge:1.20.4-49.0.1");
    for (major, listed) in [("14.0", false), ("48.9", false), ("49.0", true), ("60.1", true)] {
        let s = step(&installer(major), &l);
        assert_eq!(s.clean_entry, "net.minecraftforge:forge\n");
        match s.action {
            LibraryAction::Bundled { on_classpath } => assert_eq!(on_classpath, listed, "major {major}"),
            _ => panic!("expected a bundled library"),
        }
    }
    let other = lib("net.minecraftforge:forgespi:1.0");
    assert!(matches!(step(&installer("49.0"), &other).action, LibraryAction::Fetch { .. }));
}

#[test]
fn fetch_outcomes_decide_the_listing() {
    assert!(matches!(after_fetch(FetchEvent::AlreadyPresent), Ok(true)));
    assert!(matches!(after_fetch(FetchEvent::Downloaded), Ok(true)));
    let missing = RequestError::DownloadError { code: 404, url: "u".to_string() };
    assert!(matches!(after_fetch(FetchEvent::Failed(missing)), Ok(false)));
    let broken = RequestError::DownloadError { code: 500, url: "u".to_string() };
    assert!(matches!(
        after_fetch(FetchEvent::Failed(broken)),
        Err(ForgeInstallError::Request(RequestError::DownloadError { code: 500, .. }))
    ));
    assert!(matches!(
        after_fetch(FetchEvent::Failed(RequestError::Transport("dns".to_string()))),
        Err(ForgeInstallError::Request(RequestError::Transport(_)))
    ));
}

#[test]
fn classpath_entry_has_directory_file_and_separator() {
    let mut classpath = String::from("first:");
    add_to_classpath(&mut classpath, "org/ow2/asm/asm/9.2", "asm-9.2.jar", ':');
    assert_eq!(classpath, "first:../forge/libraries/org/ow2/asm/asm/9.2/asm-9.2.jar:");
    let mut windows = String::new();
    add_to_classpath(&mut windows, "p", "f.jar", ';');
    assert_eq!(windows, "../forge/libraries/p/f.jar;");
}

#[test]
fn client_installation_leaves_out_libraries_not_required_there() {
    let libs = vec![
        lib_with("a:a:1", None, None, Some(true)),
        lib_with("b:b:1", None, None, Some(false)),
        lib_with("c:c:1", None, None, None),
        lib_with("d:d:1", None, None, Some(false)),
    ];
    assert_eq!(names(&select_libraries(libs, false)), vec!["a:a:1", "c:c:1"]);
}

#[test]
fn server_installation_keeps_every_library() {
    let libs = vec![
        lib_with("a:a:1", None, None, Some(true)),
        lib_with("b:b:1", None, None, Some(false)),
        lib_with("c:c:1", None, None, None),
    ];
    assert_eq!(names(&select_libraries(libs, true)), vec!["a:a:1", "b:b:1", "c:c:1"]);
    assert!(select_libraries(Vec::new(), true).is_empty());
    assert!(select_libraries(Vec::new(), false).is_empty());
}

fn assemble(server: bool) -> (String, String) {
    let i = match ForgeInstaller::new("14.23.5.2859", "1.12.2", server) {
        Ok(i) => i,
        Err(_) => panic!("no installer"),
    };
    let libs = vec![
        lib("net.minecraftforge:forge:1.12.2-14.23.5.2859"),
        lib_with("org.ow2.asm:asm:5.2", None, None, None),
        lib_with("server.only:tool:1.0", None, None, Some(false)),
        lib_with("gone:missing:1.0", None, None, None),
    ];
    let mut classpaths = Classpaths::start(i.initial_classpath(&i.installer_name(), ':'));
    for l in select_libraries(libs, server) {
        let s = step(&i, &l);
        let listed = match &s.action {
            LibraryAction::Bundled { on_classpath } => *on_classpath,
            LibraryAction::Fetch { url } => {
                let event = if url.contains("/gone/") {
                    FetchEvent::Failed(RequestError::DownloadError { code: 404, url: url.clone() })
                } else {
                    FetchEvent::Downloaded
                };
                match after_fetch(event) {
                    Ok(listed) => listed,
                    Err(_) => panic!("unexpected failure"),
                }
            }
        };
        classpaths.record(&s, listed, ':');
    }
    (classpaths.classpath, classpaths.clean_classpath)
}

#[test]
fn client_classpath_follows_declaration_order_and_skips_what_is_missing() {
    let (classpath, clean) = assemble(false);
    assert_eq!(
        classpath,
        "../forge/libraries/net/minecraftforge/forge/1.12.2-14.23.5.2859/forge-1.12.2-14.23.5.2859.jar:\
../forge/libraries/org/ow2/asm/asm/5.2/asm-5.2.jar:"
    );
    assert_eq!(clean, "net.minecraftforge:forge\norg.ow2.asm:asm\ngone:missing\n");
    assert!(!classpath.contains("server/only"));
}

#[test]
fn server_classpath_holds_the_library_that_the_client_leaves_out() {
    let (classpath, clean) = assemble(true);
    assert!(classpath.contains("../forge/libraries/server/only/tool/1.0/tool-1.0.jar:"));
    assert_eq!(clean, "net.minecraftforge:forge\norg.ow2.asm:asm\nserver.only:tool\ngone:missing\n");
}

#[test]
fn assembling_twice_gives_the_same_bytes() {
    assert_eq!(assemble(false), assemble(false));
    assert_eq!(assemble(true), assemble(true));
}

#[test]
fn run_of_libraries_is_recorded_in_order() {
    let i = installer("14.0");
    let steps = vec![
        (step(&i, &lib("a.b:c:1")), true),
        (step(&i, &lib("d:e:2")), false),
        (step(&i, &lib("f:g:3")), true),
    ];
    let mut all = Classpaths::start("start:".to_string());
    all.record_all(&steps, ':');
    let mut one_by_one = Classpaths::start("start:".to_string());
    for (s, listed) in &steps {
        one_by_one.record(s, *listed, ':');
    }
    assert_eq!(all.classpath, one_by_one.classpath);
    assert_eq!(all.clean_classpath, one_by_one.clean_classpath);
    assert_eq!(
        all.classpath,
        "start:../forge/libraries/a/b/c/1/c-1.jar:../forge/libraries/f/g/3/g-3.jar:"
    );
    assert_eq!(all.clean_classpath, "a.b:c\nd:e\nf:g\n");
}
