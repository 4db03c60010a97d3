use sumo::auth::{
    active_project, deployment, deployment_choices, deployment_endpoint, deployment_label, list, login, logout,
    resolve_credentials, status, use_project,
};
use sumo::config::{config_path, load_or_default, resolve, Environment, FileConfig, Overrides, Project, ProjectMap, ResolvedConfig};

fn no_env() -> Environment {
    Environment { access_id: None, access_key: None, endpoint: None, project: None, config: None }
}

fn some(s: &str) -> Option<String> {
    Some(s.to_string())
}

fn sample() -> FileConfig {
    let mut cfg = FileConfig::empty();
    cfg.default_endpoint = some("https://api.eu.sumologic.com/api");
    cfg.default_project = some("prod");
    cfg.projects.insert("prod".to_string(), Project::new(some("id1"), some("key1"), None));
    cfg.projects.insert(
        "staging".to_string(),
        Project::new(some("id2"), some("key2"), some("https://api.us2.sumologic.com/api")),
    );
    cfg
}

#[test]
fn projects_are_kept_in_name_order() {
    let mut m = ProjectMap::new();
    m.insert("staging".to_string(), Project::new(None, None, None));
    m.insert("dev".to_string(), Project::new(None, None, None));
    m.insert("prod".to_string(), Project::new(None, None, None));
    m.insert("dev".to_string(), Project::new(some("x"), None, None));
    assert_eq!(m.len(), 3);
    assert_eq!(m.name_at(0), "dev");
    assert_eq!(m.name_at(1), "prod");
    assert_eq!(m.name_at(2), "staging");
    assert_eq!(m.get("dev").unwrap().access_id.as_deref(), Some("x"));
    assert_eq!(m.first_name(), some("dev"));
    assert!(m.remove("prod"));
    assert!(!m.remove("prod"));
    assert!(!m.contains("prod"));
    assert_eq!(m.len(), 2);
}

#[test]
fn resolution_precedence() {
    let cfg = sample();
    let r = resolve(&Overrides::none(), &no_env(), &cfg, "/cfg").unwrap();
    assert_eq!(r.project, "prod");
    assert_eq!(r.access_id, "id1");
    assert_eq!(r.access_key, "key1");
    assert_eq!(r.endpoint, "https://api.eu.sumologic.com/api");

    let mut o = Overrides::none();
    o.project = some("staging");
    let r = resolve(&o, &no_env(), &cfg, "/cfg").unwrap();
    assert_eq!(r.access_id, "id2");
    assert_eq!(r.endpoint, "https://api.us2.sumologic.com/api");

    let mut env = no_env();
    env.access_id = some("env-id");
    env.project = some("staging");
    let r = resolve(&Overrides::none(), &env, &cfg, "/cfg").unwrap();
    assert_eq!(r.access_id, "env-id");
    assert_eq!(r.access_key, "key2");
    assert_eq!(r.project, "staging");

    let mut o = Overrides::none();
    o.access_id = some("flag-id");
    let r = resolve(&o, &env, &cfg, "/cfg").unwrap();
    assert_eq!(r.access_id, "flag-id");
}

#[test]
fn resolution_errors() {
    let cfg = sample();
    let mut o = Overrides::none();
    o.project = some("nope");
    match resolve(&o, &no_env(), &cfg, "/cfg/config.toml") {
        Err(e) => assert_eq!(
            e,
            "Project 'nope' not found in /cfg/config.toml. Run 'sumo auth list' to see available projects."
        ),
        Ok(_) => panic!("expected an error"),
    }
    let empty = FileConfig::empty();
    match resolve(&Overrides::none(), &no_env(), &empty, "/cfg") {
        Err(e) => assert_eq!(e, "Not authenticated. Run 'sumo auth login' to set up credentials."),
        Ok(_) => panic!("expected an error"),
    }
    let mut o = Overrides::none();
    o.access_id = some("");
    match resolve(&o, &no_env(), &cfg, "/cfg") {
        Err(e) => assert_eq!(e, "Not authenticated. Run 'sumo auth login' to set up credentials."),
        Ok(_) => panic!("an empty flag is not a credential"),
    }
    let mut env = no_env();
    env.access_id = some("a");
    env.access_key = some("b");
    env.endpoint = some("https://x");
    let r = resolve(&Overrides::none(), &env, &empty, "/cfg").unwrap();
    assert_eq!(r.project, "default");
    assert_eq!(r.endpoint, "https://x");
}

#[test]
fn config_path_order() {
    assert_eq!(config_path(some("/a"), some("/b"), some("/c")), Ok("/a".to_string()));
    assert_eq!(config_path(None, some("/b"), some("/c")), Ok("/b".to_string()));
    assert_eq!(config_path(None, None, some("/c")), Ok("/c".to_string()));
    assert_eq!(config_path(None, None, None), Err("Could not determine config file path".to_string()));
}

#[test]
fn load_or_default_reads_only_existing_files() {
    let r = load_or_default(false, || -> Result<FileConfig, String> { panic!("must not read") }).unwrap();
    assert!(r.projects.is_empty());
    assert!(r.default_project.is_none());
    let r = load_or_default(true, || Err("boom".to_string()));
    assert!(matches!(r, Err(e) if e == "boom"));
}

#[test]
fn login_then_resolve_uses_the_new_credentials() {
    let mut cfg = FileConfig::empty();
    login(&mut cfg, "prod", "https://api.us2.sumologic.com/api".to_string(), "id".to_string(), "key".to_string());
    assert_eq!(cfg.default_project, some("prod"));
    let c = resolve_credentials(Some("prod"), &no_env(), &cfg, "/cfg").unwrap();
    assert_eq!(c.access_id, "id");
    assert_eq!(c.access_key, "key");
    assert_eq!(c.endpoint, "https://api.us2.sumologic.com/api");
    login(&mut cfg, "staging", "https://api.eu.sumologic.com/api".to_string(), "id2".to_string(), "key2".to_string());
    assert_eq!(cfg.default_project, some("prod"));
    let c = resolve_credentials(None, &no_env(), &cfg, "/cfg").unwrap();
    assert_eq!(c.access_id, "id");
}

#[test]
fn logout_and_use() {
    let mut cfg = sample();
    assert_eq!(use_project(&mut cfg, "staging"), Ok(()));
    assert_eq!(active_project(&cfg), some("staging"));
    assert_eq!(
        use_project(&mut cfg, "nope"),
        Err("Project 'nope' not found. Run 'sumo auth list' to see available projects.".to_string())
    );
    assert_eq!(logout(&mut cfg, "staging", false, "/cfg"), Ok(()));
    assert_eq!(cfg.default_project, some("prod"));
    assert_eq!(logout(&mut cfg, "staging", false, "/cfg"), Err("Project 'staging' not found in /cfg.".to_string()));
    assert_eq!(logout(&mut cfg, "prod", false, "/cfg"), Ok(()));
    assert_eq!(cfg.default_project, None);
    let mut cfg = sample();
    assert_eq!(logout(&mut cfg, "ignored", true, "/cfg"), Ok(()));
    assert!(cfg.projects.is_empty());
    assert_eq!(cfg.default_project, None);
}

#[test]
fn deployments() {
    assert_eq!(deployment(1), ("US2", "https://api.us2.sumologic.com/api"));
    assert_eq!(deployment_label("https://api.us2.sumologic.com/api"), "US2");
    assert_eq!(deployment_label("https://api.sumologic.com/api"), "US1");
    assert_eq!(deployment_label("https://example.com"), "Custom");
    let choices = deployment_choices();
    assert_eq!(choices.len(), 7);
    assert_eq!(choices[0], "US1  https://api.sumologic.com/api");
    assert_eq!(deployment_endpoint(2), "https://api.eu.sumologic.com/api");
}

#[test]
fn list_and_status_lines() {
    let cfg = sample();
    assert_eq!(
        list(&cfg),
        vec![
            "* prod          (Custom)".to_string(),
            "  staging      https://api.us2.sumologic.com/api (US2)".to_string(),
        ]
    );
    let r = ResolvedConfig {
        access_id: "su1a2B3cD4eF5g".to_string(),
        access_key: "secret".to_string(),
        endpoint: "https://api.us2.sumologic.com/api".to_string(),
        project: "prod".to_string(),
    };
    assert_eq!(
        status(&r),
        vec![
            "Project:    prod".to_string(),
            "Endpoint:   https://api.us2.sumologic.com/api (US2)".to_string(),
            "Access ID:  su1a2B3c***".to_string(),
            "Access Key: ****".to_string(),
        ]
    );
    let wide = ResolvedConfig { access_id: "abcdefgé12".to_string(), ..r };
    assert_eq!(status(&wide)[2], "Access ID:  abcdefg***");
    let short = ResolvedConfig { access_id: "abc".to_string(), ..wide };
    assert_eq!(status(&short)[2], "Access ID:  abc");
}
