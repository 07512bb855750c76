use wisteria::dependency::{check_archive, check_folder, Dependency, Resolution, UpdateContext, UpdatePolicy, DependencyBatch};
use wisteria::document::{Table, Value};

fn s(x: &str) -> String {
    String::from(x)
}

fn table(pairs: Vec<(&str, Value)>) -> Table {
    Table { entries: pairs.into_iter().map(|(k, v)| (s(k), v)).collect() }
}

fn maven(policy: Option<&str>) -> Dependency {
    let mut pairs = vec![
        ("type", Value::String(s("fetchFromMaven"))),
        ("group_id", Value::String(s("com.example"))),
        ("artifact_id", Value::String(s("lib"))),
        ("version", Value::String(s("1.0"))),
    ];
    if let Some(p) = policy {
        pairs.push(("update_policy", Value::String(s(p))));
    }
    Dependency::load(&table(pairs)).ok().unwrap()
}

fn env() -> Vec<(String, String)> {
    vec![(s("project_name"), s("demo")), (s("configuration"), s("main"))]
}

#[test]
fn maven_load_fills_defaults() {
    match maven(None) {
        Dependency::FetchFromMaven { url, group_id, artifact_id, version, artifact_name, classifier, update_policy, javadoc } => {
            assert_eq!(url, "https://repo1.maven.org/maven2/");
            assert_eq!(group_id, "com.example");
            assert_eq!(artifact_id, "lib");
            assert_eq!(version, "1.0");
            assert_eq!(artifact_name, "lib-1.0");
            assert!(classifier.is_none());
            assert_eq!(update_policy, UpdatePolicy::SwitchOrUpdate);
            assert!(javadoc.is_none());
        }
        _ => panic!("expected a Maven dependency"),
    }
}

#[test]
fn maven_cache_path_and_url() {
    let d = maven(None);
    match d.resolve("lib", &env(), "/home/u", "/work", UpdateContext::Update).ok().unwrap() {
        Resolution::Remote { cache_path, url, update, reuse_existing } => {
            assert_eq!(cache_path, ".wisteria/cache/com.example/lib/1.0/lib.jar");
            assert_eq!(url, "https://repo1.maven.org/maven2/com/example/lib/1.0/lib-1.0.jar");
            assert!(update);
            assert!(reuse_existing);
        }
        _ => panic!("expected a remote resolution"),
    }
}

#[test]
fn never_policy_reuses_cache_path_without_fetching() {
    let d = maven(Some("Never"));
    let first = d.resolve("lib", &env(), "/home/u", "/work", UpdateContext::Update).ok().unwrap();
    let second = d.resolve("lib", &env(), "/home/u", "/work", UpdateContext::Update).ok().unwrap();
    let path_of = |r: &Resolution| match r {
        Resolution::Remote { cache_path, .. } => cache_path.clone(),
        _ => panic!("expected a remote resolution"),
    };
    assert_eq!(path_of(&first), path_of(&second));
    for exists in [false, true] {
        assert!(!first.needs_fetch(exists));
        assert!(!second.needs_fetch(exists));
    }
}

#[test]
fn existing_cache_is_reused_on_update() {
    let d = maven(Some("Always"));
    let r = d.resolve("lib", &env(), "/h", "/w", UpdateContext::ResolveOnly).ok().unwrap();
    assert!(r.needs_fetch(false));
    assert!(!r.needs_fetch(true));
}

#[test]
fn url_dependency_reuses_existing_cache() {
    let d = Dependency::load(&table(vec![
        ("type", Value::String(s("fetchFromUrl"))),
        ("url", Value::String(s("https://example.com/a.jar"))),
        ("update_policy", Value::String(s("Always"))),
    ]))
    .ok()
    .unwrap();
    let r = d.resolve("a", &env(), "/h", "/w", UpdateContext::SwitchConfiguration).ok().unwrap();
    match &r {
        Resolution::Remote { cache_path, url, update, reuse_existing } => {
            assert_eq!(cache_path, ".wisteria/cache/a/a.jar");
            assert_eq!(url, "https://example.com/a.jar");
            assert!(*update);
            assert!(*reuse_existing);
        }
        _ => panic!("expected a remote resolution"),
    }
    assert!(r.needs_fetch(false));
    assert!(!r.needs_fetch(true));
}

#[test]
fn github_paths() {
    let d = Dependency::load(&table(vec![
        ("type", Value::String(s("fetchFromGithub"))),
        ("username", Value::String(s("owner"))),
        ("repository", Value::String(s("repo"))),
        ("tag", Value::String(s("v2"))),
        ("update_policy", Value::String(s("TaskInvokedOnly"))),
    ]))
    .ok()
    .unwrap();
    match d.resolve("repo", &env(), "/h", "/w", UpdateContext::TaskInvoked).ok().unwrap() {
        Resolution::Remote { cache_path, url, update, .. } => {
            assert_eq!(cache_path, ".wisteria/cache/owner/repo/v2/repo.jar");
            assert_eq!(url, "https://github.com/owner/repo/releases/download/v2/repo.jar");
            assert!(update);
        }
        _ => panic!("expected a remote resolution"),
    }
}

#[test]
fn local_paths_are_expanded() {
    let d = Dependency::load(&table(vec![
        ("type", Value::String(s("loadArchive"))),
        ("path", Value::String(s("~/libs/{project_name}.jar"))),
    ]))
    .ok()
    .unwrap();
    match d.resolve("x", &env(), "/home/u", "/work", UpdateContext::TaskInvoked).ok().unwrap() {
        Resolution::Archive { path } => assert_eq!(path, "/home/u/libs/demo.jar"),
        _ => panic!("expected a local archive"),
    }
    let folder = Dependency::load(&table(vec![
        ("type", Value::String(s("loadFolder"))),
        ("path", Value::String(s("./lib/{configuration}"))),
    ]))
    .ok()
    .unwrap();
    match folder.resolve("f", &env(), "/home/u", "/work", UpdateContext::TaskInvoked).ok().unwrap() {
        Resolution::Folder { path, recursive } => {
            assert_eq!(path, "/work/lib/main");
            assert!(recursive);
        }
        _ => panic!("expected a folder"),
    }
}

#[test]
fn undefined_variable_fails_with_61() {
    let d = Dependency::load(&table(vec![
        ("type", Value::String(s("loadArchive"))),
        ("path", Value::String(s("{missing}/a.jar"))),
    ]))
    .ok()
    .unwrap();
    assert_eq!(d.resolve("x", &env(), "/h", "/w", UpdateContext::Update).err().unwrap().1, 61);
}

#[test]
fn unsupported_kinds_fail_fast() {
    let repo = Dependency::load(&table(vec![
        ("type", Value::String(s("localRepository"))),
        ("repository", Value::String(s("r"))),
        ("name", Value::String(s("n"))),
        ("version", Value::String(s("1"))),
    ]))
    .ok()
    .unwrap();
    assert_eq!(repo.resolve("n", &env(), "/h", "/w", UpdateContext::Update).err().unwrap().1, 64);
    let script = Dependency::load(&table(vec![
        ("type", Value::String(s("buildFromScript"))),
        ("run", Value::Array(vec![Value::String(s("make"))])),
        ("target", Value::String(s("out.jar"))),
    ]))
    .ok()
    .unwrap();
    assert_eq!(script.type_str(), "buildFromScript");
    assert_eq!(script.resolve("s", &env(), "/h", "/w", UpdateContext::Update).err().unwrap().1, 64);
}

#[test]
fn load_error_codes() {
    assert_eq!(Dependency::load(&table(vec![])).err().unwrap().1, 32);
    assert_eq!(Dependency::load(&table(vec![("type", Value::Integer(3))])).err().unwrap().1, 32);
    assert_eq!(Dependency::load(&table(vec![("type", Value::String(s("teleport")))])).err().unwrap().1, 31);
    assert_eq!(
        Dependency::load(&table(vec![("type", Value::String(s("fetchFromUrl"))), ("update_policy", Value::String(s("Sometimes")))])).err().unwrap().1,
        30
    );
    assert_eq!(Dependency::load(&table(vec![("type", Value::String(s("fetchFromUrl")))])).err().unwrap().1, 10);
    assert_eq!(
        Dependency::load(&table(vec![("type", Value::String(s("loadArchive"))), ("path", Value::Boolean(true))])).err().unwrap().1,
        11
    );
}

#[test]
fn local_checks() {
    assert_eq!(check_archive("a.jar", false, false).err().unwrap().1, 63);
    assert_eq!(check_archive("a.jar", true, true).err().unwrap().1, 63);
    assert!(check_archive("a.jar", true, false).is_ok());
    assert_eq!(check_folder("lib", false, false).err().unwrap().1, 63);
    assert_eq!(check_folder("lib", true, true).err().unwrap().1, 1);
    assert!(check_folder("lib", true, false).is_ok());
}

#[test]
fn batch_attempts_every_dependency() {
    let mut batch = DependencyBatch::new();
    batch.record(&s("a"), false, Err((s("offline"), 1)));
    batch.record(&s("b"), true, Ok(vec![s("b.jar")]));
    batch.record(&s("c"), false, Err((s("missing"), 63)));
    assert_eq!(batch.paths, vec![s("b.jar")]);
    assert_eq!(batch.shaded, vec![s("b.jar")]);
    assert_eq!(batch.failures, vec![(s("a"), s("offline")), (s("c"), s("missing"))]);
    assert_eq!(batch.finish().err().unwrap().1, 1);
}
