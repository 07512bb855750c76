use wisteria::configuration::Configuration;
use wisteria::document::{Table, Value};
use wisteria::manifest::{Manifest, ManifestEntry};
use wisteria::metadata::Metadata;
use wisteria::pipeline::{compile_succeeded, content_hash, runnable_target, BuildAction, BuildEvent, BuildSession};
use wisteria::source::{collect_files_with_extension, generate_inputs, select_sources, BuildInformation};

fn s(x: &str) -> String {
    String::from(x)
}

fn table(pairs: Vec<(&str, Value)>) -> Table {
    Table { entries: pairs.into_iter().map(|(k, v)| (s(k), v)).collect() }
}

fn strings(xs: &[&str]) -> Value {
    Value::Array(xs.iter().map(|x| Value::String(s(x))).collect())
}

fn config(pairs: Vec<(&str, Value)>) -> Configuration {
    Configuration::from(s("main"), &table(pairs), s("demo"), s("1.0")).ok().unwrap()
}

fn session(c: &Configuration, metadata: Metadata) -> BuildSession {
    BuildSession::new(c, metadata, s("main"), false, ':', s("/home/u"), s("/work"))
}

#[test]
fn fresh_build_compiles_both_files_and_deploys() {
    let c = config(vec![("sources", strings(&["src"])), ("targets", strings(&["out/{project_name}.jar"]))]);
    let mut b = session(&c, Metadata::empty());
    let roots = match b.step(BuildEvent::Started) {
        BuildAction::CopySources { roots } => roots,
        _ => panic!("expected the sources to be copied"),
    };
    assert_eq!(roots, vec![s("src")]);
    let files = vec![(s(".wisteria/work/src/A.java"), 5u128), (s(".wisteria/work/src/B.java"), 9u128)];
    match b.step(BuildEvent::SourcesCopied { files }) {
        BuildAction::Compile { arguments } => {
            assert_eq!(
                arguments,
                vec![s("-d"), s("./.wisteria/work/bin/"), s("--source-path"), s(".wisteria/work/src/"), s(".wisteria/work/src/A.java"), s(".wisteria/work/src/B.java")]
            );
        }
        _ => panic!("expected a compilation"),
    }
    match b.step(BuildEvent::Compiled { stderr: String::new() }) {
        BuildAction::Package { manifest, arguments, merge_shaded } => {
            assert_eq!(manifest.unwrap(), "Manifest-Version: 1.0\nCreated-By: Wisteria 3\n");
            assert_eq!(arguments, vec![s("-cMf"), s(".wisteria/work/target.jar"), s("-C"), s(".wisteria/work/bin/"), s(".")]);
            assert!(!merge_shaded);
        }
        _ => panic!("expected packaging"),
    }
    match b.step(BuildEvent::Packaged { artifact: b"hello".to_vec() }) {
        BuildAction::Deploy { targets } => assert_eq!(targets, vec![s("out/demo.jar")]),
        _ => panic!("expected deployment"),
    }
    match b.step(BuildEvent::Deployed) {
        BuildAction::Finish { hash } => {
            assert_eq!(hash, "2cf24dba5fb0a30e26e83b2ac5b9e29e1b161e5c1fa7425e73043362938b9824");
        }
        _ => panic!("expected the build to finish"),
    }
    assert!(b.compiled);
}

fn compile_with(stderr: &str) -> BuildAction {
    let c = config(vec![("sources", strings(&["src"])), ("targets", strings(&["out.jar"]))]);
    let mut b = session(&c, Metadata::empty());
    b.step(BuildEvent::Started);
    b.step(BuildEvent::SourcesCopied { files: vec![(s("A.java"), 1u128)] });
    b.step(BuildEvent::Compiled { stderr: s(stderr) })
}

#[test]
fn informational_compiler_output_is_success() {
    assert!(matches!(compile_with("Note: Recompile with -Xlint:unchecked for details."), BuildAction::Package { .. }));
    assert!(compile_succeeded("Note: Recompile with -Xlint..."));
    assert!(compile_succeeded(""));
}

#[test]
fn compiler_errors_fail_and_purge() {
    match compile_with("error: cannot find symbol") {
        BuildAction::Fail { code, purge, .. } => {
            assert_eq!(code, 1);
            assert!(purge);
        }
        _ => panic!("expected a failure"),
    }
    assert!(!compile_succeeded("error: cannot find symbol"));
}

#[test]
fn dependency_failures_are_collected() {
    let c = config(vec![("sources", strings(&["src"])), ("dependencies", strings(&["a", "b"]))]);
    let mut b = session(&c, Metadata::empty());
    assert!(matches!(b.step(BuildEvent::Started), BuildAction::Resolve { ref name } if name == "a"));
    let next = b.step(BuildEvent::Resolved { name: s("a"), shaded: false, outcome: Err((s("offline"), 1)) });
    assert!(matches!(next, BuildAction::Resolve { ref name } if name == "b"));
    match b.step(BuildEvent::Resolved { name: s("b"), shaded: false, outcome: Ok(vec![s("b.jar")]) }) {
        BuildAction::Fail { code, purge, .. } => {
            assert_eq!(code, 1);
            assert!(!purge);
        }
        _ => panic!("expected a failure"),
    }
    assert_eq!(b.batch.failures.len(), 1);
}

#[test]
fn shaded_dependencies_are_extracted_and_merged() {
    let c = config(vec![
        ("sources", strings(&["src"])),
        ("dependencies", strings(&["lib"])),
        ("shaded", strings(&["lib"])),
        ("entry", Value::String(s("app.Main"))),
    ]);
    let mut b = session(&c, Metadata::empty());
    b.step(BuildEvent::Started);
    b.step(BuildEvent::Resolved { name: s("lib"), shaded: true, outcome: Ok(vec![s(".wisteria/cache/lib/lib.jar")]) });
    match b.step(BuildEvent::SourcesCopied { files: vec![(s("A.java"), 1u128)] }) {
        BuildAction::Compile { arguments } => {
            assert_eq!(arguments[4], "--class-path");
            assert_eq!(arguments[5], ".wisteria/cache/lib/lib.jar");
        }
        _ => panic!("expected a compilation"),
    }
    match b.step(BuildEvent::Compiled { stderr: String::new() }) {
        BuildAction::Shade { archives } => assert_eq!(archives, vec![s(".wisteria/cache/lib/lib.jar")]),
        _ => panic!("expected shading"),
    }
    match b.step(BuildEvent::Shaded) {
        BuildAction::Package { manifest, merge_shaded, .. } => {
            assert_eq!(manifest.unwrap(), "Manifest-Version: 1.0\nCreated-By: Wisteria 3\nMain-Class: app.Main\nClass-Path: .wisteria/cache/lib/lib.jar\n");
            assert!(merge_shaded);
        }
        _ => panic!("expected packaging"),
    }
}

#[test]
fn nothing_modified_skips_compilation() {
    let c = config(vec![("sources", strings(&["src"]))]);
    let mut b = session(&c, Metadata::from(s("main"), 100, vec![]));
    b.step(BuildEvent::Started);
    assert!(matches!(b.step(BuildEvent::SourcesCopied { files: vec![(s("A.java"), 10u128)] }), BuildAction::Package { .. }));
    assert!(!b.compiled);
}

#[test]
fn missing_sources_fail() {
    let c = config(vec![("targets", strings(&["out.jar"]))]);
    let mut b = session(&c, Metadata::empty());
    assert!(matches!(b.step(BuildEvent::Started), BuildAction::Fail { code: 1, .. }));
}

#[test]
fn incremental_selection_by_task_and_time() {
    let m = Metadata::from(s("main"), 1000, vec![]);
    let files = vec![(s("A.java"), 500u128), (s("B.java"), 1500u128)];
    assert_eq!(select_sources(&files, &m, &s("main"), false), vec![s("B.java")]);
    assert_eq!(select_sources(&files, &m, &s("other"), false), vec![s("A.java"), s("B.java")]);
    assert_eq!(select_sources(&files, &m, &s("main"), true), vec![s("A.java"), s("B.java")]);
    let info = BuildInformation::from(&vec![s("src"), s("gen")], &files, Some(&vec![s("lib/a.jar"), s("lib/readme.txt")]), &m, &s("main"), false, ';');
    assert_eq!(info.source_paths(), "src gen");
    assert_eq!(info.source_files(), "B.java");
    assert_eq!(info.libraries().unwrap(), "lib/a.jar");
}

#[test]
fn history_keeps_thirty_and_reports_truncated_mean() {
    let mut m = Metadata::from(s("main"), 0, (1..=30).collect());
    assert_eq!(m.compilation_times().len(), 30);
    m.push_duration(100);
    let expected: Vec<u32> = (2..=30).chain(std::iter::once(100)).collect();
    assert_eq!(m.compilation_times().to_vec(), expected);
    let total: u32 = expected.iter().sum();
    assert_eq!(m.mean_duration(), total / 30);
    assert_eq!(m.mean_duration(), 18);
    assert_eq!(Metadata::empty().mean_duration(), 0);
}

#[test]
fn stored_history_is_trimmed() {
    let m = Metadata::from(s("main"), 7, (1..=35).collect());
    assert_eq!(m.compilation_times().to_vec(), (6..=35).collect::<Vec<u32>>());
}

#[test]
fn record_build_appends_only_when_compiled() {
    let mut m = Metadata::empty();
    m.record_build(s("main"), 42, None);
    assert_eq!(m.last_compiled_task().unwrap(), "main");
    assert_eq!(m.last_compilation_time(), 42);
    assert!(m.compilation_times().is_empty());
    m.record_build(s("main"), 50, Some(7));
    assert_eq!(m.compilation_times().to_vec(), vec![7]);
}

#[test]
fn long_class_path_is_folded() {
    let path: Vec<String> = (0..10).map(|i| format!("lib/dependency-number-{i}.jar")).collect();
    let header = ManifestEntry::ClassPath { path: path.clone() }.to_header();
    let lines: Vec<&str> = header.split('\n').collect();
    assert_eq!(lines.last().unwrap(), &"");
    for (i, line) in lines.iter().enumerate() {
        if i == 0 {
            assert!(line.len() <= 71);
        } else if !line.is_empty() {
            assert!(line.starts_with(' '));
            assert!(line.len() <= 71);
        }
    }
    let unfolded: String = lines.iter().enumerate().map(|(i, l)| if i == 0 { l.to_string() } else { l.trim_start_matches(' ').to_string() }).collect();
    assert_eq!(unfolded, format!("Class-Path: {}", path.join(" ")));
    let mut m = Manifest::new();
    m.add_entry(ManifestEntry::MainClass { class: s("a.B") });
    assert_eq!(m.to_file(), "Manifest-Version: 1.0\nMain-Class: a.B\n");
}

#[test]
fn hash_and_file_helpers() {
    assert_eq!(content_hash(&b"hello".to_vec()), "2cf24dba5fb0a30e26e83b2ac5b9e29e1b161e5c1fa7425e73043362938b9824");
    assert_eq!(content_hash(&Vec::new()).len(), 64);
    assert_eq!(collect_files_with_extension(&vec![s("a.java"), s("b.class"), s("c.java")], "java"), vec![s("a.java"), s("c.java")]);
    assert_eq!(collect_files_with_extension(&vec![s(".java"), s("src/.java"), s("src/.x.java"), s("Ajava")], "java"), vec![s("src/.x.java")]);
    assert_eq!(generate_inputs(Some(&vec![s("res"), s("README")])), "res README");
    assert_eq!(generate_inputs(None), "");
}

#[test]
fn switching_tasks_purges_previous_output() {
    let m = Metadata::from(s("main"), 1, vec![]);
    assert!(!m.must_purge(&s("main")));
    assert!(m.must_purge(&s("release")));
    assert!(!Metadata::empty().must_purge(&s("main")));
}

#[test]
fn running_needs_an_entry_point() {
    let plain = config(vec![("targets", strings(&["out/{configuration}.jar"]))]);
    assert_eq!(runnable_target(&plain, "/h", "/w").err().unwrap().1, 1);
    let app = config(vec![("targets", strings(&["out/{configuration}.jar"])), ("entry", Value::String(s("a.Main")))]);
    assert_eq!(runnable_target(&app, "/h", "/w").ok().unwrap(), "out/main.jar");
    let no_target = config(vec![("entry", Value::String(s("a.Main")))]);
    assert_eq!(runnable_target(&no_target, "/h", "/w").err().unwrap().1, 1);
}

#[test]
fn stored_metadata_round_trips() {
    let m = Metadata::from(s("main"), 1234, vec![5, 6, 7]);
    let back = Metadata::from_table(&m.to_table());
    assert_eq!(back.last_compiled_task().unwrap(), "main");
    assert_eq!(back.last_compilation_time(), 1234);
    assert_eq!(back.compilation_times().to_vec(), vec![5, 6, 7]);
    let partial = Table { entries: vec![(s("last_compilation_time"), Value::Integer(99)), (s("compilation_times"), Value::Array(vec![Value::Integer(3), Value::String(s("x")), Value::Integer(-1)]))] };
    let kept = Metadata::from_table(&partial);
    assert!(kept.last_compiled_task().is_none());
    assert_eq!(kept.last_compilation_time(), 99);
    assert_eq!(kept.compilation_times().to_vec(), vec![3]);
}

#[test]
fn existing_manifest_is_kept_when_asked() {
    let c = config(vec![("sources", strings(&["src"])), ("entry", Value::String(s("a.Main")))]);
    let mut b = session(&c, Metadata::empty());
    b.keep_existing_manifest();
    b.step(BuildEvent::Started);
    b.step(BuildEvent::SourcesCopied { files: vec![(s("A.java"), 1u128)] });
    match b.step(BuildEvent::Compiled { stderr: String::new() }) {
        BuildAction::Package { manifest, .. } => assert!(manifest.is_none()),
        _ => panic!("expected packaging"),
    }
}
