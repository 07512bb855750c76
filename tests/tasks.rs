use wisteria::compiler::CompilerFlags;
use wisteria::document::{string_vec_to_string, Table, Value};
use wisteria::task::{DefinedTask, TaskRunner};

fn s(x: &str) -> String {
    String::from(x)
}

fn table(pairs: Vec<(&str, Value)>) -> Table {
    Table { entries: pairs.into_iter().map(|(k, v)| (s(k), v)).collect() }
}

fn strings(xs: &[&str]) -> Value {
    Value::Array(xs.iter().map(|x| Value::String(s(x))).collect())
}

#[test]
fn defined_task_runs_phases_in_order() {
    let t = DefinedTask::new("deploy", &table(vec![
        ("phase", Value::Table(table(vec![("a", strings(&["x"])), ("b", strings(&[]))]))),
        ("phases", strings(&["a", "b"])),
    ]))
    .ok()
    .unwrap();
    assert_eq!(t.phase_order().to_vec(), vec![s("a"), s("b")]);
    assert!(t.on_fail().is_none());
    assert!(t.invoke().is_ok());
}

#[test]
fn missing_phase_aborts() {
    let t = DefinedTask::new("deploy", &table(vec![
        ("phase", Value::Table(table(vec![("a", strings(&["x"]))]))),
        ("phases", strings(&["a", "ghost"])),
    ]))
    .ok()
    .unwrap();
    let e = t.invoke().err().unwrap();
    assert_eq!(e.1, 1);
    assert_eq!(e.0, "No phase \"ghost\" has been defined");
}

#[test]
fn task_declaration_errors() {
    assert_eq!(DefinedTask::new("t", &table(vec![])).err().unwrap().1, 10);
    assert_eq!(DefinedTask::new("t", &table(vec![("phase", Value::Integer(1))])).err().unwrap().1, 16);
    let bad_order = table(vec![("phase", Value::Table(table(vec![]))), ("phases", Value::Boolean(true))]);
    assert_eq!(DefinedTask::new("t", &bad_order).err().unwrap().1, 13);
    let bad_fail = table(vec![("phase", Value::Table(table(vec![]))), ("phases", strings(&[])), ("on_fail", Value::Integer(2))]);
    assert_eq!(DefinedTask::new("t", &bad_fail).err().unwrap().1, 11);
}

#[test]
fn compiler_flags_canonical_form() {
    let release = CompilerFlags::from("release_target", &Value::Integer(17)).ok().unwrap();
    assert_eq!(release.get_canon_flag(), vec![s("-release"), s("17")]);
    let lints = CompilerFlags::from("source_lints", &strings(&["cast", "rawtypes"])).ok().unwrap();
    assert_eq!(lints.get_canon_flag(), vec![s("-Xlint:cast,rawtypes")]);
    let off = CompilerFlags::from("no_warnings", &Value::Boolean(false)).ok().unwrap();
    assert!(off.get_canon_flag().is_empty());
    let enc = CompilerFlags::from("source_encoding", &Value::String(s("UTF-8"))).ok().unwrap();
    assert_eq!(enc.get_canon_flag(), vec![s("--encoding"), s("UTF-8")]);
}

#[test]
fn compiler_flag_errors() {
    assert_eq!(CompilerFlags::from("release_target", &Value::Integer(-1)).err().unwrap().1, 52);
    assert_eq!(CompilerFlags::from("release_target", &Value::Integer(300)).err().unwrap().1, 52);
    assert_eq!(CompilerFlags::from("release_target", &Value::Boolean(true)).err().unwrap().1, 14);
    assert_eq!(CompilerFlags::from("javadoc_lints", &strings(&[])).err().unwrap().1, 51);
    assert_eq!(CompilerFlags::from("javadoc_lints", &Value::Array(vec![Value::Integer(1)])).err().unwrap().1, 15);
    assert_eq!(CompilerFlags::from("no_warnings", &Value::Integer(1)).err().unwrap().1, 12);
    assert_eq!(CompilerFlags::from("hyperdrive", &Value::Integer(1)).err().unwrap().1, 50);
}

#[test]
fn comma_separated_listing() {
    assert_eq!(string_vec_to_string(&vec![s("a"), s("b"), s("c")]), "a, b, c");
    assert_eq!(string_vec_to_string(&vec![]), "");
}
