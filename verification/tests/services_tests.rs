use ql_provision::services::{has_text, parse_service_definition, ServiceTable};

fn names(table: &ServiceTable) -> Vec<(String, Vec<String>)> {
    table.files.iter().map(|f| (f.name.clone(), f.providers.clone())).collect()
}

#[test]
fn providers_are_read_one_per_line() {
    let mut table = ServiceTable::new();
    parse_service_definition("META-INF/services/a.B", "x.One\ny.Two\n", &mut table);
    assert_eq!(
        names(&table),
        vec![("META-INF/services/a.B".to_string(), vec!["x.One".to_string(), "y.Two".to_string()])]
    );
}

#[test]
fn comments_and_blank_lines_are_passed_over() {
    let mut table = ServiceTable::new();
    let data = "# header\n\n  x.One  # the first\r\n#x.Hidden\n\ty.Two\n   \n";
    parse_service_definition("svc", data, &mut table);
    assert_eq!(names(&table), vec![("svc".to_string(), vec!["x.One".to_string(), "y.Two".to_string()])]);
}

#[test]
fn descriptor_without_providers_makes_no_entry() {
    let mut table = ServiceTable::new();
    parse_service_definition("svc", "# nothing\n\n", &mut table);
    assert!(table.files.is_empty());
    parse_service_definition("svc", "", &mut table);
    assert!(table.files.is_empty());
}

#[test]
fn last_line_without_line_feed_counts() {
    let mut table = ServiceTable::new();
    parse_service_definition("svc", "x.One\ny.Two", &mut table);
    assert_eq!(names(&table), vec![("svc".to_string(), vec!["x.One".to_string(), "y.Two".to_string()])]);
}

#[test]
fn same_provider_from_two_archives_is_listed_once() {
    let mut table = ServiceTable::new();
    let name = "META-INF/services/com.example.Svc";
    parse_service_definition(name, "com.example.Impl\n", &mut table);
    parse_service_definition(name, "com.example.Impl\n", &mut table);
    assert_eq!(names(&table), vec![(name.to_string(), vec!["com.example.Impl".to_string()])]);
}

#[test]
fn same_provider_twice_in_one_descriptor_is_listed_once() {
    let mut table = ServiceTable::new();
    parse_service_definition("svc", "a\nb\na\n", &mut table);
    assert_eq!(names(&table), vec![("svc".to_string(), vec!["a".to_string(), "b".to_string()])]);
}

#[test]
fn descriptors_of_different_names_are_kept_apart() {
    let mut table = ServiceTable::new();
    parse_service_definition("one", "a\n", &mut table);
    parse_service_definition("two", "a\nb\n", &mut table);
    parse_service_definition("one", "c\n", &mut table);
    assert_eq!(
        names(&table),
        vec![
            ("one".to_string(), vec!["a".to_string(), "c".to_string()]),
            ("two".to_string(), vec!["a".to_string(), "b".to_string()]),
        ]
    );
    assert_eq!(table.index_of(&"two".to_string()), 1);
    assert_eq!(table.index_of(&"three".to_string()), 2);
}

#[test]
fn declare_adds_then_ignores_a_known_provider() {
    let mut table = ServiceTable::new();
    table.declare(&"svc".to_string(), "p".to_string());
    table.declare(&"svc".to_string(), "q".to_string());
    table.declare(&"svc".to_string(), "p".to_string());
    assert_eq!(names(&table), vec![("svc".to_string(), vec!["p".to_string(), "q".to_string()])]);
}

#[test]
fn has_text_finds_equal_strings() {
    let list = vec!["a".to_string(), "b".to_string()];
    assert!(has_text(&list, &"b".to_string()));
    assert!(!has_text(&list, &"c".to_string()));
    assert!(!has_text(&Vec::new(), &"a".to_string()));
}
