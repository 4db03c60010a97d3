use sumo::keychain::{
    active_project_from, add_name, delete_outcome, parse_registry, read_outcome, registry_text, remove_name,
    service_name, KeyringFailure,
};

fn strings(v: &[&str]) -> Vec<String> {
    v.iter().map(|x| x.to_string()).collect()
}

#[test]
fn service_names() {
    assert_eq!(service_name("prod", "access-id"), "com.sumologic.cli.prod.access-id");
}

#[test]
fn registry_text_round_trips() {
    let names = strings(&["default", "prod", "staging"]);
    let text = registry_text(&names);
    assert_eq!(text, "default\nprod\nstaging");
    assert_eq!(parse_registry(&text), names);
    assert_eq!(parse_registry(""), Vec::<String>::new());
    assert_eq!(parse_registry("a\r\n\nb\n"), strings(&["a", "b"]));
    assert_eq!(parse_registry("a\nb\r"), strings(&["a", "b\r"]));
}

#[test]
fn registry_add_and_remove() {
    let mut names = strings(&["a", "b"]);
    add_name(&mut names, "c");
    assert_eq!(names, strings(&["a", "b", "c"]));
    add_name(&mut names, "a");
    assert_eq!(names, strings(&["a", "b", "c"]));
    remove_name(&mut names, "b");
    assert_eq!(names, strings(&["a", "c"]));
    remove_name(&mut names, "zzz");
    assert_eq!(names, strings(&["a", "c"]));
}

#[test]
fn keychain_outcomes() {
    assert_eq!(read_outcome(Ok("v".to_string())), Ok(Some("v".to_string())));
    let missing = KeyringFailure { no_entry: true, text: "No matching entry found in secure storage".to_string() };
    assert_eq!(read_outcome(Err(missing)), Ok(None));
    let locked = KeyringFailure { no_entry: false, text: "locked".to_string() };
    assert_eq!(read_outcome(Err(locked)), Err("Unable to access OS keychain. (locked)".to_string()));
    let missing = KeyringFailure { no_entry: true, text: String::new() };
    assert_eq!(delete_outcome(Err(missing)), Ok(()));
    assert_eq!(active_project_from(None), "default");
    assert_eq!(active_project_from(Some("prod".to_string())), "prod");
}
