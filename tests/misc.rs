use wisteria::environment::resolve_filepath;
use wisteria::maven::{MavenMetadata, Nature, SnapshotMetadata, SnapshotVersion};

fn s(x: &str) -> String {
    String::from(x)
}

#[test]
fn references_and_home_are_resolved() {
    let env = vec![(s("a"), s("1")), (s("b"), s("two"))];
    assert_eq!(resolve_filepath("x/{a}/{b}/{a}", &env, "/h", "/w").ok().unwrap(), "x/1/two/1");
    assert_eq!(resolve_filepath("~/{b}", &env, "/h", "/w").ok().unwrap(), "/h/two");
    assert_eq!(resolve_filepath("./lib", &env, "/h", "/w").ok().unwrap(), "/w/lib");
    assert_eq!(resolve_filepath("{}x{a}", &env, "/h", "/w").err().unwrap().1, 61);
    assert_eq!(resolve_filepath("{a\n}{b}", &env, "/h", "/w").ok().unwrap(), "{a\n}two");
    assert_eq!(resolve_filepath("{zz}", &env, "/h", "/w").err().unwrap().1, 61);
}

fn snap(classifier: Option<&str>, extension: &str, value: &str) -> SnapshotVersion {
    SnapshotVersion { classifier: classifier.map(s), extension: s(extension), value: s(value) }
}

#[test]
fn snapshot_lookup_by_classifier() {
    let m = SnapshotMetadata {
        snapshot_versions: vec![snap(None, "pom", "1"), snap(Some("sources"), "jar", "2"), snap(None, "jar", "3"), snap(None, "jar", "4")],
    };
    assert_eq!(m.from_classifier(None), Some(s("3")));
    assert_eq!(m.from_classifier(Some(&s("sources"))), Some(s("2")));
    assert_eq!(m.from_classifier(Some(&s("javadoc"))), None);
}

#[test]
fn maven_listing_accessors() {
    let m = MavenMetadata { latest: Some(s("2.0")), release: None, versions: vec![s("1.0"), s("2.0")] };
    assert_eq!(m.latest().unwrap(), "2.0");
    assert!(m.release().is_none());
    assert_eq!(m.versions().len(), 2);
}

#[test]
fn natures_are_listed() {
    let names: Vec<&str> = Nature::values().iter().map(|n| n.type_str()).collect();
    assert_eq!(names, vec!["Eclipse", "Maven"]);
}

use wisteria::java::{java_version_of, major_version};
use wisteria::settings::{generate_config, read_config, EclipseConfiguration};

#[test]
fn settings_round_trip() {
    let c = EclipseConfiguration::new().prefix("org.x.").add_key("a", "1").add_key("b", "2").add_key("a", "3");
    assert_eq!(c.get_prefix(), "org.x.");
    assert_eq!(generate_config(c), "org.x.a=3\norg.x.b=2\n");
    let pairs = read_config("a=1\n\nb=x=y\na=2\n").ok().unwrap();
    assert_eq!(pairs, vec![(s("a"), s("2")), (s("b"), s("x=y"))]);
    assert!(read_config("a=1\nbroken\n").is_err());
    assert_eq!(EclipseConfiguration::new().add_key("k", "v").deconstruct(), vec![(s("k"), s("v"))]);
}

#[test]
fn java_version_parsing() {
    let modern = "openjdk version \"17.0.1\" 2021-10-19\nOpenJDK Runtime Environment (build 17.0.1+12)\n";
    assert_eq!(java_version_of(modern), Some((s("openjdk"), s("17.0.1"))));
    assert_eq!(major_version("17.0.1"), Some(17));
    let legacy = "java version \"1.8.0_292\"\nJava(TM) SE Runtime Environment\n";
    assert_eq!(java_version_of(legacy), Some((s("java"), s("1.8.0_292"))));
    assert_eq!(major_version("1.8.0_292"), Some(8));
    assert_eq!(major_version("21"), None);
    assert_eq!(major_version("300.1"), None);
    assert_eq!(java_version_of("no version here"), None);
}
