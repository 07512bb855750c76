use wisteria::configuration::Configuration;
use wisteria::document::{Table, Value};
use wisteria::project::ProjectInfo;
use wisteria::task::TaskRunner;

fn s(x: &str) -> String {
    String::from(x)
}

fn table(pairs: Vec<(&str, Value)>) -> Table {
    Table { entries: pairs.into_iter().map(|(k, v)| (s(k), v)).collect() }
}

fn strings(xs: &[&str]) -> Value {
    Value::Array(xs.iter().map(|x| Value::String(s(x))).collect())
}

fn config(name: &str, pairs: Vec<(&str, Value)>) -> Configuration {
    Configuration::from(s(name), &table(pairs), s("demo"), s("1.2")).ok().unwrap()
}

fn task_names(c: &Configuration) -> Vec<String> {
    c.tasks().iter().map(|(k, _)| k.clone()).collect()
}

#[test]
fn environment_is_seeded_then_overlaid() {
    let c = config("main", vec![("environment", Value::Table(table(vec![("version", Value::String(s("9"))), ("extra", Value::String(s("x")))])))]);
    assert_eq!(
        c.environment().clone(),
        vec![(s("project_name"), s("demo")), (s("configuration"), s("main")), (s("version"), s("9")), (s("extra"), s("x"))]
    );
    assert_eq!(c.java_version(), 8);
    assert!(c.sources().is_none());
}

#[test]
fn malformed_sections_report_codes() {
    let bad_env = Configuration::from(s("m"), &table(vec![("environment", Value::Table(table(vec![("k", Value::Integer(1))])))]), s("p"), s("1"));
    assert_eq!(bad_env.err().unwrap().1, 15);
    let bad_task = Configuration::from(s("m"), &table(vec![("task", Value::Integer(1))]), s("p"), s("1"));
    assert_eq!(bad_task.err().unwrap().1, 16);
    let bad_flag = Configuration::from(s("m"), &table(vec![("compiler_flags", Value::Table(table(vec![("warp_speed", Value::Boolean(true))])))]), s("p"), s("1"));
    assert_eq!(bad_flag.err().unwrap().1, 50);
}

#[test]
fn implicit_tasks_follow_targets_and_sources() {
    let mut c = config("main", vec![("targets", strings(&["out.jar"]))]);
    c.apply_implicit();
    assert_eq!(task_names(&c), vec![s("clean")]);
    let mut both = config("main", vec![("targets", strings(&["out.jar"])), ("sources", strings(&["src"]))]);
    both.apply_implicit();
    both.apply_implicit();
    assert_eq!(task_names(&both), vec![s("clean"), s("build")]);
    let order: Vec<String> = both.tasks()[1].1.phase_order().to_vec();
    assert_eq!(order, vec![s("collect"), s("compile"), s("shade"), s("package")]);
    let mut none = config("main", vec![("sources", strings(&["src"]))]);
    none.apply_implicit();
    assert!(none.tasks().is_empty());
}

#[test]
fn inheritance_merges_lists_without_duplicates() {
    let mut child = config("child", vec![("sources", strings(&["a", "b"])), ("java_version", Value::Integer(17)), ("entry", Value::String(s("app.Main")))]);
    let parent = config("parent", vec![("sources", strings(&["b", "c"])), ("targets", strings(&["t.jar"])), ("java_version", Value::Integer(11)), ("entry", Value::String(s("lib.Main")))]);
    child.inherit_from(&parent).ok().unwrap();
    assert_eq!(child.sources().unwrap().clone(), vec![s("a"), s("b"), s("c")]);
    assert_eq!(child.targets().unwrap().clone(), vec![s("t.jar")]);
    assert_eq!(child.java_version(), 11);
    assert_eq!(child.entry().unwrap(), "app.Main");
    child.inherit_from(&parent).ok().unwrap();
    assert_eq!(child.sources().unwrap().clone(), vec![s("a"), s("b"), s("c")]);
    assert_eq!(child.targets().unwrap().clone(), vec![s("t.jar")]);
}

#[test]
fn inheritance_keeps_child_environment_values() {
    let mut child = config("child", vec![("environment", Value::Table(table(vec![("k", Value::String(s("child")))])))]);
    let parent = config("parent", vec![("environment", Value::Table(table(vec![("k", Value::String(s("parent"))), ("p", Value::String(s("only")))])))]);
    child.inherit_from(&parent).ok().unwrap();
    let env = child.environment().clone();
    assert!(env.contains(&(s("k"), s("child"))));
    assert!(env.contains(&(s("p"), s("only"))));
    assert!(env.contains(&(s("configuration"), s("child"))));
    assert!(!env.contains(&(s("configuration"), s("parent"))));
}

fn project(configs: Vec<(&str, Value)>) -> Result<ProjectInfo, (String, u8)> {
    let header = table(vec![("name", Value::String(s("demo"))), ("version", Value::String(s("1.0")))]);
    ProjectInfo::from(&header, Some(&Value::Table(table(configs))), None)
}

#[test]
fn self_inheritance_is_refused() {
    for name in ["main", "x", "release-2"] {
        let r = project(vec![(name, Value::Table(table(vec![("inherit", Value::String(s(name)))])))]);
        assert_eq!(r.err().unwrap().1, 40);
    }
}

#[test]
fn inheritance_structure_errors() {
    let missing = project(vec![("a", Value::Table(table(vec![("inherit", Value::String(s("nope")))])))]);
    assert_eq!(missing.err().unwrap().1, 41);
    let chained = project(vec![
        ("a", Value::Table(table(vec![("inherit", Value::String(s("b")))]))),
        ("b", Value::Table(table(vec![("inherit", Value::String(s("c")))]))),
        ("c", Value::Table(table(vec![]))),
    ]);
    assert_eq!(chained.err().unwrap().1, 42);
}

#[test]
fn project_resolves_single_level_inheritance() {
    let p = project(vec![
        ("base", Value::Table(table(vec![("sources", strings(&["src"])), ("targets", strings(&["out/{configuration}.jar"]))]))),
        ("dev", Value::Table(table(vec![("inherit", Value::String(s("base"))), ("sources", strings(&["dev"]))]))),
    ])
    .ok()
    .unwrap();
    let dev = p.configuration(&s("dev")).unwrap();
    assert_eq!(dev.sources().unwrap().clone(), vec![s("dev"), s("src")]);
    assert_eq!(task_names(dev), vec![s("clean"), s("build")]);
    let base = p.configuration(&s("base")).unwrap();
    assert_eq!(base.sources().unwrap().clone(), vec![s("src")]);
}

#[test]
fn project_header_requires_name() {
    let header = table(vec![("version", Value::String(s("1.0")))]);
    assert_eq!(ProjectInfo::from(&header, None, None).err().unwrap().1, 10);
}

#[test]
fn shaded_names_are_inherited() {
    let mut child = config("child", vec![("dependencies", strings(&["a"]))]);
    let parent = config("parent", vec![("dependencies", strings(&["b"])), ("shaded", strings(&["b"]))]);
    child.inherit_from(&parent).ok().unwrap();
    assert_eq!(child.shaded().unwrap().clone(), vec![s("b")]);
    assert_eq!(child.dependencies().unwrap().clone(), vec![s("a"), s("b")]);
}

#[test]
fn inherit_from_refuses_itself_and_chains() {
    for name in ["", "main", "x"] {
        let mut c = config(name, vec![("sources", strings(&["src"]))]);
        let same = config(name, vec![("sources", strings(&["other"]))]);
        assert_eq!(c.inherit_from(&same).err().unwrap().1, 40);
        assert_eq!(c.sources().unwrap().clone(), vec![s("src")]);
    }
    let mut child = config("a", vec![]);
    let chained = config("b", vec![("inherit", Value::String(s("c")))]);
    assert_eq!(child.inherit_from(&chained).err().unwrap().1, 42);
}

#[test]
fn out_of_range_language_version_is_not_wrapped() {
    assert_eq!(config("m", vec![("java_version", Value::Integer(300))]).java_version(), 8);
    assert_eq!(config("m", vec![("java_version", Value::Integer(-1))]).java_version(), 8);
    assert_eq!(config("m", vec![("java_version", Value::Integer(21))]).java_version(), 21);
}

#[test]
fn project_errors_follow_declaration_order() {
    let header = table(vec![("name", Value::String(s("demo"))), ("version", Value::String(s("1.0")))]);
    let bad_dep = Value::Table(table(vec![("d", Value::Table(table(vec![("type", Value::String(s("nope")))])))]));
    let self_ref = Value::Table(table(vec![("a", Value::Table(table(vec![("inherit", Value::String(s("a")))])))]));
    assert_eq!(ProjectInfo::from(&header, Some(&self_ref), Some(&bad_dep)).err().unwrap().1, 31);
    assert_eq!(ProjectInfo::from(&header, Some(&Value::Integer(1)), None).err().unwrap().1, 16);
    assert_eq!(ProjectInfo::from(&header, None, Some(&Value::Integer(1))).err().unwrap().1, 33);
    assert!(ProjectInfo::from(&header, None, None).is_ok());
}
