use vstd::prelude::*;
use crate::document::{Table, Value, read_string, read_boolean, read_string_array, fails_with, all_strings, string_items, views};
use crate::text::{join2, push_char, contains_str};
use crate::configuration::Configuration;
use crate::environment::{expand_from, finish_path, resolve_filepath};

verus! {

/// When a remote dependency is fetched again rather than reused from the cache.
#[derive(Clone, Copy, PartialEq, Eq, Structural, Debug)]
pub enum UpdatePolicy {
    Always,
    SwitchOrUpdate,
    UpdateOnly,
    SwitchOrTask,
    SwitchConfigurationOnly,
    TaskOrUpdate,
    TaskInvokedOnly,
    Never,
}

/// The situation in which a dependency is being resolved.
#[derive(Clone, Copy, PartialEq, Eq, Structural, Debug)]
pub enum UpdateContext {
    Update,
    SwitchConfiguration,
    TaskInvoked,
    ResolveOnly,
}

/// The update table: one row per policy, one column per context, in the
/// column order Update, SwitchConfiguration, TaskInvoked, ResolveOnly.
pub open spec fn update_row(policy: UpdatePolicy) -> (bool, bool, bool, bool) {
    match policy {
        UpdatePolicy::Always => (true, true, true, true),
        UpdatePolicy::Never => (false, false, false, false),
        UpdatePolicy::SwitchOrUpdate => (true, true, false, false),
        UpdatePolicy::UpdateOnly => (true, false, false, false),
        UpdatePolicy::SwitchOrTask => (false, true, true, false),
        UpdatePolicy::SwitchConfigurationOnly => (false, true, false, false),
        UpdatePolicy::TaskOrUpdate => (true, false, true, false),
        UpdatePolicy::TaskInvokedOnly => (false, false, true, false),
    }
}

/// Whether `policy` asks for a fresh fetch in `context`, read off the table.
pub open spec fn update_table(policy: UpdatePolicy, context: UpdateContext) -> bool {
    let row = update_row(policy);
    match context {
        UpdateContext::Update => row.0,
        UpdateContext::SwitchConfiguration => row.1,
        UpdateContext::TaskInvoked => row.2,
        UpdateContext::ResolveOnly => row.3,
    }
}

impl Default for UpdatePolicy {
    fn default() -> (r: Self)
        ensures
            r == UpdatePolicy::SwitchOrUpdate,
    {
        UpdatePolicy::SwitchOrUpdate
    }
}

impl UpdatePolicy {
    pub fn should_update(&self, context: &UpdateContext) -> (r: bool)
        ensures
            r == update_table(*self, *context),
    {
        match self {
            UpdatePolicy::Always => true,
            UpdatePolicy::Never => false,
            UpdatePolicy::SwitchOrUpdate => match context {
                UpdateContext::Update => true,
                UpdateContext::SwitchConfiguration => true,
                UpdateContext::TaskInvoked => false,
                UpdateContext::ResolveOnly => false,
            },
            UpdatePolicy::UpdateOnly => match context {
                UpdateContext::Update => true,
                _ => false,
            },
            UpdatePolicy::SwitchOrTask => match context {
                UpdateContext::SwitchConfiguration => true,
                UpdateContext::TaskInvoked => true,
                _ => false,
            },
            UpdatePolicy::SwitchConfigurationOnly => match context {
                UpdateContext::SwitchConfiguration => true,
                _ => false,
            },
            UpdatePolicy::TaskOrUpdate => match context {
                UpdateContext::Update => true,
                UpdateContext::TaskInvoked => true,
                _ => false,
            },
            UpdatePolicy::TaskInvokedOnly => match context {
                UpdateContext::TaskInvoked => true,
                _ => false,
            },
        }
    }
}

} // verus!

verus! {

/// One declared dependency of a project.
pub enum Dependency {
    LocalFile { path: String, javadoc: Option<String> },
    LocalFolder { path: String, recursive: bool },
    LocalRepository { repository: String, name: String, version: String, update_policy: UpdatePolicy, javadoc: Option<String> },
    FetchFromUrl { url: String, update_policy: UpdatePolicy, javadoc: Option<String> },
    FetchFromMaven {
        url: String,
        group_id: String,
        artifact_id: String,
        version: String,
        artifact_name: String,
        classifier: Option<String>,
        update_policy: UpdatePolicy,
        javadoc: Option<String>,
    },
    FetchFromGithub { username: String, repository: String, asset: String, tag: String, update_policy: UpdatePolicy, javadoc: Option<String> },
    BuildFromScript { run: Vec<String>, target: String, update_policy: UpdatePolicy, javadoc: Option<String> },
}

pub open spec fn opt_view(o: Option<String>) -> Option<Seq<char>> {
    match o {
        Some(s) => Some(s@),
        None => None,
    }
}

/// The policy a declaration names, if it names one.
pub open spec fn policy_named(name: Seq<char>) -> Option<UpdatePolicy> {
    if name == "Always"@ { Some(UpdatePolicy::Always) }
    else if name == "SwitchOrUpdate"@ { Some(UpdatePolicy::SwitchOrUpdate) }
    else if name == "UpdateOnly"@ { Some(UpdatePolicy::UpdateOnly) }
    else if name == "SwitchOrTask"@ { Some(UpdatePolicy::SwitchOrTask) }
    else if name == "SwitchConfigurationOnly"@ { Some(UpdatePolicy::SwitchConfigurationOnly) }
    else if name == "TaskOrUpdate"@ { Some(UpdatePolicy::TaskOrUpdate) }
    else if name == "TaskInvokedOnly"@ { Some(UpdatePolicy::TaskInvokedOnly) }
    else if name == "Never"@ { Some(UpdatePolicy::Never) }
    else { None }
}

/// The string bound to `key`, or `default` when it is missing or not a string.
pub open spec fn string_or(t: Table, key: Seq<char>, default: Seq<char>) -> Seq<char> {
    match t.get_spec(key) {
        Some(Value::String(s)) => s@,
        _ => default,
    }
}

/// The string bound to `key`, if it is bound to a string.
pub open spec fn string_opt(t: Table, key: Seq<char>) -> Option<Seq<char>> {
    match t.get_spec(key) {
        Some(Value::String(s)) => Some(s@),
        _ => None,
    }
}

/// The code with which reading a required string field fails, if it does.
pub open spec fn string_error(t: Table, key: Seq<char>) -> Option<u8> {
    match t.get_spec(key) {
        Some(Value::String(_)) => None,
        Some(_) => Some(11u8),
        None => Some(10u8),
    }
}

/// The code of the first required string field, in order, that cannot be read.
pub open spec fn first_error(t: Table, keys: Seq<Seq<char>>) -> Option<u8>
    decreases keys.len(),
{
    if keys.len() == 0 {
        None
    } else if string_error(t, keys[0]) is Some {
        string_error(t, keys[0])
    } else {
        first_error(t, keys.drop_first())
    }
}

/// The code with which reading a string array field fails, if it does.
pub open spec fn array_error(t: Table, key: Seq<char>) -> Option<u8> {
    match t.get_spec(key) {
        Some(Value::Array(a)) => if all_strings(a@) { None } else { Some(15u8) },
        Some(Value::String(_)) => None,
        Some(_) => Some(13u8),
        None => Some(10u8),
    }
}

/// What loading a declaration of kind `kind`, with policy `policy` and
/// documentation link `javadoc`, yields for the table `t`.
pub open spec fn loaded_as(t: Table, kind: Seq<char>, policy: UpdatePolicy, r: Result<Dependency, (String, u8)>) -> bool {
    let javadoc = string_opt(t, "javadoc"@);
    if kind == "loadArchive"@ {
        match first_error(t, seq!["path"@]) {
            Some(c) => fails_with(r, c),
            None => r matches Ok(Dependency::LocalFile { path, javadoc: j })
                && path@ == string_or(t, "path"@, seq![]) && opt_view(j) == javadoc,
        }
    } else if kind == "localRepository"@ {
        match first_error(t, seq!["repository"@, "name"@, "version"@]) {
            Some(c) => fails_with(r, c),
            None => r matches Ok(Dependency::LocalRepository { repository, name, version, update_policy, javadoc: j })
                && repository@ == string_or(t, "repository"@, seq![])
                && name@ == string_or(t, "name"@, seq![])
                && version@ == string_or(t, "version"@, seq![])
                && update_policy == policy && opt_view(j) == javadoc,
        }
    } else if kind == "fetchFromUrl"@ {
        match first_error(t, seq!["url"@]) {
            Some(c) => fails_with(r, c),
            None => r matches Ok(Dependency::FetchFromUrl { url, update_policy, javadoc: j })
                && url@ == string_or(t, "url"@, seq![]) && update_policy == policy && opt_view(j) == javadoc,
        }
    } else if kind == "fetchFromMaven"@ {
        match first_error(t, seq!["group_id"@, "artifact_id"@]) {
            Some(c) => fails_with(r, c),
            None => {
                let artifact = string_or(t, "artifact_id"@, seq![]);
                let version = string_or(t, "version"@, "NEXUS_LATEST"@);
                r matches Ok(Dependency::FetchFromMaven { url, group_id, artifact_id, version: v, artifact_name, classifier, update_policy, javadoc: j })
                    && url@ == string_or(t, "url"@, "https://repo1.maven.org/maven2/"@)
                    && group_id@ == string_or(t, "group_id"@, seq![])
                    && artifact_id@ == artifact
                    && v@ == version
                    && artifact_name@ == string_or(t, "artifact_name"@, artifact + "-"@ + version)
                    && opt_view(classifier) == string_opt(t, "classifier"@)
                    && update_policy == policy && opt_view(j) == javadoc
            },
        }
    } else if kind == "fetchFromGithub"@ {
        match first_error(t, seq!["username"@, "repository"@, "tag"@]) {
            Some(c) => fails_with(r, c),
            None => r matches Ok(Dependency::FetchFromGithub { username, repository, asset, tag, update_policy, javadoc: j })
                && username@ == string_or(t, "username"@, seq![])
                && repository@ == string_or(t, "repository"@, seq![])
                && tag@ == string_or(t, "tag"@, seq![])
                && asset@ == string_or(t, "asset"@, string_or(t, "repository"@, seq![]))
                && update_policy == policy && opt_view(j) == javadoc,
        }
    } else if kind == "buildFromScript"@ {
        match array_error(t, "run"@) {
            Some(c) => fails_with(r, c),
            None => match first_error(t, seq!["target"@]) {
                Some(c) => fails_with(r, c),
                None => r matches Ok(Dependency::BuildFromScript { run, target, update_policy, javadoc: j })
                    && views(run@) == (match t.get_spec("run"@) {
                        Some(Value::Array(a)) => string_items(a@),
                        Some(Value::String(s)) => seq![s@],
                        _ => seq![],
                    })
                    && target@ == string_or(t, "target"@, seq![])
                    && update_policy == policy && opt_view(j) == javadoc,
            },
        }
    } else {
        fails_with(r, 31)
    }
}

/// What loading a dependency declaration from `t` yields.
pub open spec fn load_spec(t: Table, r: Result<Dependency, (String, u8)>) -> bool {
    match t.get_spec("type"@) {
        Some(Value::String(kind)) => if kind@ == "loadFolder"@ {
            match first_error(t, seq!["path"@]) {
                Some(c) => fails_with(r, c),
                None => r matches Ok(Dependency::LocalFolder { path, recursive })
                    && path@ == string_or(t, "path"@, seq![])
                    && recursive == (match t.get_spec("recursive"@) {
                        Some(Value::Boolean(b)) => b,
                        _ => true,
                    }),
            }
        } else {
            match policy_named(string_or(t, "update_policy"@, "SwitchOrUpdate"@)) {
                None => fails_with(r, 30),
                Some(p) => loaded_as(t, kind@, p, r),
            }
        },
        _ => fails_with(r, 32),
    }
}

/// The code with which loading a declaration of kind `kind` from `t` fails,
/// once its update policy has been read, if it does.
pub open spec fn kind_error(t: Table, kind: Seq<char>) -> Option<u8> {
    if kind == "loadArchive"@ {
        first_error(t, seq!["path"@])
    } else if kind == "localRepository"@ {
        first_error(t, seq!["repository"@, "name"@, "version"@])
    } else if kind == "fetchFromUrl"@ {
        first_error(t, seq!["url"@])
    } else if kind == "fetchFromMaven"@ {
        first_error(t, seq!["group_id"@, "artifact_id"@])
    } else if kind == "fetchFromGithub"@ {
        first_error(t, seq!["username"@, "repository"@, "tag"@])
    } else if kind == "buildFromScript"@ {
        if array_error(t, "run"@) is Some { array_error(t, "run"@) } else { first_error(t, seq!["target"@]) }
    } else {
        Some(31u8)
    }
}

/// The code with which loading a dependency declaration from `t` fails, if it does.
pub open spec fn load_error(t: Table) -> Option<u8> {
    match t.get_spec("type"@) {
        Some(Value::String(kind)) => if kind@ == "loadFolder"@ {
            first_error(t, seq!["path"@])
        } else {
            match policy_named(string_or(t, "update_policy"@, "SwitchOrUpdate"@)) {
                None => Some(30u8),
                Some(_) => kind_error(t, kind@),
            }
        },
        _ => Some(32u8),
    }
}

/// The string bound to `key`, or `default`.
pub(crate) fn read_string_or(key: &str, table: &Table, default: &str) -> (r: String)
    ensures
        r@ == string_or(*table, key@, default@),
{
    match read_string(key, table) {
        Ok(s) => s,
        Err(_) => String::from_str(default),
    }
}

fn read_string_opt(key: &str, table: &Table) -> (r: Option<String>)
    ensures
        opt_view(r) == string_opt(*table, key@),
{
    match read_string(key, table) {
        Ok(s) => Some(s),
        Err(_) => None,
    }
}

fn parse_policy(name: &String) -> (r: Option<UpdatePolicy>)
    ensures
        r == policy_named(name@),
{
    if *name == String::from_str("Always") { Some(UpdatePolicy::Always) }
    else if *name == String::from_str("SwitchOrUpdate") { Some(UpdatePolicy::SwitchOrUpdate) }
    else if *name == String::from_str("UpdateOnly") { Some(UpdatePolicy::UpdateOnly) }
    else if *name == String::from_str("SwitchOrTask") { Some(UpdatePolicy::SwitchOrTask) }
    else if *name == String::from_str("SwitchConfigurationOnly") { Some(UpdatePolicy::SwitchConfigurationOnly) }
    else if *name == String::from_str("TaskOrUpdate") { Some(UpdatePolicy::TaskOrUpdate) }
    else if *name == String::from_str("TaskInvokedOnly") { Some(UpdatePolicy::TaskInvokedOnly) }
    else if *name == String::from_str("Never") { Some(UpdatePolicy::Never) }
    else { None }
}

fn is_kind(s: &String, kind: &str) -> (r: bool)
    ensures
        r == (s@ == kind@),
{
    *s == String::from_str(kind)
}

impl Dependency {
    /// Builds a dependency from its declaration, dispatching on its `type`.
    pub fn load(table: &Table) -> (r: Result<Dependency, (String, u8)>)
        ensures
            load_spec(*table, r),
            match load_error(*table) {
                Some(c) => fails_with(r, c),
                None => r is Ok,
            },
    {
        proof {
            reveal_with_fuel(first_error, 4);
            assert(seq!["path"@].drop_first() =~= Seq::<Seq<char>>::empty());
            assert(seq!["url"@].drop_first() =~= Seq::<Seq<char>>::empty());
            assert(seq!["target"@].drop_first() =~= Seq::<Seq<char>>::empty());
            assert(seq!["repository"@, "name"@, "version"@].drop_first() =~= seq!["name"@, "version"@]);
            assert(seq!["name"@, "version"@].drop_first() =~= seq!["version"@]);
            assert(seq!["version"@].drop_first() =~= Seq::<Seq<char>>::empty());
            assert(seq!["group_id"@, "artifact_id"@].drop_first() =~= seq!["artifact_id"@]);
            assert(seq!["artifact_id"@].drop_first() =~= Seq::<Seq<char>>::empty());
            assert(seq!["username"@, "repository"@, "tag"@].drop_first() =~= seq!["repository"@, "tag"@]);
            assert(seq!["repository"@, "tag"@].drop_first() =~= seq!["tag"@]);
            assert(seq!["tag"@].drop_first() =~= Seq::<Seq<char>>::empty());
        }
        let kind = match table.get("type") {
            Some(Value::String(k)) => k,
            Some(v) => {
                let m = String::from_str("Unexpected input for dependency type, expected a string, found ");
                return Err((m.concat(v.type_str()), 32));
            },
            None => return Err((String::from_str("Dependency must explicitly define its type"), 32)),
        };
        if is_kind(kind, "loadFolder") {
            let path = read_string("path", table)?;
            let recursive = match read_boolean("recursive", table) {
                Ok(b) => b,
                Err(_) => true,
            };
            return Ok(Dependency::LocalFolder { path, recursive });
        }
        let policy_name = read_string_or("update_policy", table, "SwitchOrUpdate");
        let update_policy = match parse_policy(&policy_name) {
            Some(p) => p,
            None => return Err((String::from_str("Unexpected update policy, expected one of [Always, SwitchOrUpdate, UpdateOnly, SwitchOrTask, SwitchConfigurationOnly, TaskOrUpdate, TaskInvokedOnly, Never]"), 30)),
        };
        let javadoc = read_string_opt("javadoc", table);
        if is_kind(kind, "loadArchive") {
            let path = read_string("path", table)?;
            Ok(Dependency::LocalFile { path, javadoc })
        } else if is_kind(kind, "localRepository") {
            let repository = read_string("repository", table)?;
            let name = read_string("name", table)?;
            let version = read_string("version", table)?;
            Ok(Dependency::LocalRepository { repository, name, version, update_policy, javadoc })
        } else if is_kind(kind, "fetchFromUrl") {
            let url = read_string("url", table)?;
            Ok(Dependency::FetchFromUrl { url, update_policy, javadoc })
        } else if is_kind(kind, "fetchFromMaven") {
            let url = read_string_or("url", table, "https://repo1.maven.org/maven2/");
            let group_id = read_string("group_id", table)?;
            let artifact_id = read_string("artifact_id", table)?;
            let version = read_string_or("version", table, "NEXUS_LATEST");
            let default_name = artifact_id.clone().concat("-").concat(version.as_str());
            let artifact_name = read_string_or("artifact_name", table, default_name.as_str());
            let classifier = read_string_opt("classifier", table);
            Ok(Dependency::FetchFromMaven { url, group_id, artifact_id, version, artifact_name, classifier, update_policy, javadoc })
        } else if is_kind(kind, "fetchFromGithub") {
            let username = read_string("username", table)?;
            let repository = read_string("repository", table)?;
            let tag = read_string("tag", table)?;
            let asset = read_string_or("asset", table, repository.as_str());
            Ok(Dependency::FetchFromGithub { username, repository, asset, tag, update_policy, javadoc })
        } else if is_kind(kind, "buildFromScript") {
            let run = read_string_array("run", table)?;
            let target = read_string("target", table)?;
            Ok(Dependency::BuildFromScript { run, target, update_policy, javadoc })
        } else {
            let m = join2("Unknown dependency type \"", kind.as_str());
            Err((m.concat("\""), 31))
        }
    }
}

} // verus!

verus! {

pub open spec fn kind_of(d: Dependency) -> Seq<char> {
    match d {
        Dependency::LocalFile { .. } => "loadArchive"@,
        Dependency::LocalFolder { .. } => "loadFolder"@,
        Dependency::LocalRepository { .. } => "localRepository"@,
        Dependency::FetchFromUrl { .. } => "fetchFromUrl"@,
        Dependency::FetchFromMaven { .. } => "fetchFromMaven"@,
        Dependency::FetchFromGithub { .. } => "fetchFromGithub"@,
        Dependency::BuildFromScript { .. } => "buildFromScript"@,
    }
}

pub open spec fn classifier_suffix(c: Option<Seq<char>>) -> Seq<char> {
    match c {
        Some(s) => "-"@ + s,
        None => Seq::empty(),
    }
}

pub open spec fn dots_to_slashes(s: Seq<char>) -> Seq<char> {
    s.map_values(|c: char| if c == '.' { '/' } else { c })
}

/// Where a Maven artifact is cached: group/artifact/version/artifact[-classifier].jar.
pub open spec fn maven_cache_path(group: Seq<char>, artifact: Seq<char>, version: Seq<char>, classifier: Option<Seq<char>>) -> Seq<char> {
    ".wisteria/cache/"@ + group + "/"@ + artifact + "/"@ + version + "/"@ + artifact + classifier_suffix(classifier) + ".jar"@
}

/// Where a Maven artifact is fetched from, the group's dots read as path separators.
pub open spec fn maven_url(base: Seq<char>, group: Seq<char>, artifact: Seq<char>, version: Seq<char>, artifact_name: Seq<char>, classifier: Option<Seq<char>>) -> Seq<char> {
    base + dots_to_slashes(group) + "/"@ + artifact + "/"@ + version + "/"@ + artifact_name + classifier_suffix(classifier) + ".jar"@
}

/// Where a release asset is cached: owner/repository/tag/repository.jar.
pub open spec fn github_cache_path(user: Seq<char>, repository: Seq<char>, tag: Seq<char>) -> Seq<char> {
    ".wisteria/cache/"@ + user + "/"@ + repository + "/"@ + tag + "/"@ + repository + ".jar"@
}

pub open spec fn github_url(user: Seq<char>, repository: Seq<char>, tag: Seq<char>, asset: Seq<char>) -> Seq<char> {
    "https://github.com/"@ + user + "/"@ + repository + "/releases/download/"@ + tag + "/"@ + asset + ".jar"@
}

/// Where an archive fetched from a plain address is cached, by dependency name.
pub open spec fn url_cache_path(name: Seq<char>) -> Seq<char> {
    ".wisteria/cache/"@ + name + "/"@ + name + ".jar"@
}

/// What resolving a dependency asks of the file system and the network.
pub enum Resolution {
    /// A local archive: it must exist and must not be a directory.
    Archive { path: String },
    /// A local folder whose archives are collected, descending into
    /// subfolders when `recursive` holds.
    Folder { path: String, recursive: bool },
    /// A remote archive kept at `cache_path`. It is fetched from `url` when
    /// `update` holds, unless `reuse_existing` holds and the cached copy exists.
    Remote { cache_path: String, url: String, update: bool, reuse_existing: bool },
}

/// The remote plan of a fetched dependency: cache path, address, whether the
/// policy asks for an update, and whether an existing copy is reused.
pub open spec fn remote_plan(d: Dependency, name: Seq<char>, context: UpdateContext) -> Option<(Seq<char>, Seq<char>, bool, bool)> {
    match d {
        Dependency::FetchFromUrl { url, update_policy, .. } =>
            Some((url_cache_path(name), url@, update_table(update_policy, context), true)),
        Dependency::FetchFromMaven { url, group_id, artifact_id, version, artifact_name, classifier, update_policy, .. } =>
            Some((maven_cache_path(group_id@, artifact_id@, version@, opt_view(classifier)),
                maven_url(url@, group_id@, artifact_id@, version@, artifact_name@, opt_view(classifier)),
                update_table(update_policy, context), true)),
        Dependency::FetchFromGithub { username, repository, asset, tag, update_policy, .. } =>
            Some((github_cache_path(username@, repository@, tag@), github_url(username@, repository@, tag@, asset@),
                update_table(update_policy, context), true)),
        _ => None,
    }
}

pub open spec fn needs_fetch_spec(update: bool, reuse_existing: bool, cache_exists: bool) -> bool {
    update && !(reuse_existing && cache_exists)
}

fn suffix_of(classifier: &Option<String>) -> (r: String)
    ensures
        r@ == classifier_suffix(opt_view(*classifier)),
{
    match classifier {
        Some(c) => join2("-", c.as_str()),
        None => String::new(),
    }
}

/// `s` with every `.` turned into `/`.
pub fn replace_dots(s: &str) -> (r: String)
    ensures
        r@ == dots_to_slashes(s@),
{
    let len = s.unicode_len();
    let mut out = String::new();
    let mut i: usize = 0;
    while i < len
        invariant
            len == s@.len(),
            i <= len,
            out@ =~= dots_to_slashes(s@.subrange(0, i as int)),
        decreases len - i,
    {
        let c = s.get_char(i);
        if c == '.' {
            push_char(&mut out, '/');
        } else {
            push_char(&mut out, c);
        }
        assert(s@.subrange(0, i + 1) =~= s@.subrange(0, i as int).push(c));
        i = i + 1;
    }
    assert(s@.subrange(0, len as int) =~= s@);
    out
}

impl Dependency {
    /// The declaration kind of this dependency.
    pub fn type_str(&self) -> (r: &'static str)
        ensures
            r@ == kind_of(*self),
    {
        match self {
            Dependency::LocalFile { .. } => "loadArchive",
            Dependency::LocalFolder { .. } => "loadFolder",
            Dependency::LocalRepository { .. } => "localRepository",
            Dependency::FetchFromUrl { .. } => "fetchFromUrl",
            Dependency::FetchFromMaven { .. } => "fetchFromMaven",
            Dependency::FetchFromGithub { .. } => "fetchFromGithub",
            Dependency::BuildFromScript { .. } => "buildFromScript",
        }
    }

    /// Plans the resolution of this dependency, declared under `name`, in
    /// `context`. Local paths are resolved against `environment`, the home
    /// directory `home` and the working directory `cwd`. Local repositories
    /// and script-built dependencies are not supported and fail with code 64.
    pub fn resolve(&self, name: &str, environment: &Vec<(String, String)>, home: &str, cwd: &str, context: UpdateContext) -> (r: Result<Resolution, (String, u8)>)
        ensures
            match *self {
                Dependency::LocalFile { path, .. } => match expand_from(path@, 0, environment@) {
                    Ok(p) => r matches Ok(Resolution::Archive { path: q }) && q@ == finish_path(p, home@, cwd@),
                    Err(_) => fails_with(r, 61),
                },
                Dependency::LocalFolder { path, recursive } => match expand_from(path@, 0, environment@) {
                    Ok(p) => r matches Ok(Resolution::Folder { path: q, recursive: rec })
                        && q@ == finish_path(p, home@, cwd@) && rec == recursive,
                    Err(_) => fails_with(r, 61),
                },
                Dependency::LocalRepository { .. } => fails_with(r, 64),
                Dependency::BuildFromScript { .. } => fails_with(r, 64),
                _ => r matches Ok(Resolution::Remote { cache_path, url, update, reuse_existing })
                    && remote_plan(*self, name@, context) == Some((cache_path@, url@, update, reuse_existing)),
            },
    {
        match self {
            Dependency::LocalFile { path, .. } => {
                let p = resolve_filepath(path.as_str(), environment, home, cwd)?;
                Ok(Resolution::Archive { path: p })
            },
            Dependency::LocalFolder { path, recursive } => {
                let p = resolve_filepath(path.as_str(), environment, home, cwd)?;
                Ok(Resolution::Folder { path: p, recursive: *recursive })
            },
            Dependency::LocalRepository { .. } => {
                Err((join2("Local repository dependencies are not supported: ", name), 64))
            },
            Dependency::BuildFromScript { .. } => {
                Err((join2("Script-built dependencies are not supported: ", name), 64))
            },
            Dependency::FetchFromUrl { url, update_policy, .. } => {
                let cache_path = join2(".wisteria/cache/", name).concat("/").concat(name).concat(".jar");
                let update = update_policy.should_update(&context);
                Ok(Resolution::Remote { cache_path, url: url.clone(), update, reuse_existing: true })
            },
            Dependency::FetchFromMaven { url, group_id, artifact_id, version, artifact_name, classifier, update_policy, .. } => {
                let suffix = suffix_of(classifier);
                let cache_path = join2(".wisteria/cache/", group_id.as_str()).concat("/").concat(artifact_id.as_str())
                    .concat("/").concat(version.as_str()).concat("/").concat(artifact_id.as_str())
                    .concat(suffix.as_str()).concat(".jar");
                let full_url = join2(url.as_str(), replace_dots(group_id.as_str()).as_str()).concat("/")
                    .concat(artifact_id.as_str()).concat("/").concat(version.as_str()).concat("/")
                    .concat(artifact_name.as_str()).concat(suffix.as_str()).concat(".jar");
                let update = update_policy.should_update(&context);
                Ok(Resolution::Remote { cache_path, url: full_url, update, reuse_existing: true })
            },
            Dependency::FetchFromGithub { username, repository, asset, tag, update_policy, .. } => {
                let cache_path = join2(".wisteria/cache/", username.as_str()).concat("/").concat(repository.as_str())
                    .concat("/").concat(tag.as_str()).concat("/").concat(repository.as_str()).concat(".jar");
                let full_url = join2("https://github.com/", username.as_str()).concat("/").concat(repository.as_str())
                    .concat("/releases/download/").concat(tag.as_str()).concat("/").concat(asset.as_str()).concat(".jar");
                let update = update_policy.should_update(&context);
                Ok(Resolution::Remote { cache_path, url: full_url, update, reuse_existing: true })
            },
        }
    }
}

impl Resolution {
    /// Whether the network is asked, given whether the cached copy exists.
    pub fn needs_fetch(&self, cache_exists: bool) -> (r: bool)
        ensures
            match *self {
                Resolution::Remote { update, reuse_existing, .. } => r == needs_fetch_spec(update, reuse_existing, cache_exists),
                _ => !r,
            },
    {
        match self {
            Resolution::Remote { update, reuse_existing, .. } => *update && !(*reuse_existing && cache_exists),
            _ => false,
        }
    }
}

/// Checks a local archive: code 63 if it is missing or is a directory.
pub fn check_archive(path: &str, exists: bool, is_dir: bool) -> (r: Result<(), (String, u8)>)
    ensures
        !exists ==> fails_with(r, 63),
        exists && is_dir ==> fails_with(r, 63),
        exists && !is_dir ==> r is Ok,
{
    if !exists {
        let m = join2("Dependency \"", path).concat("\" does not exist");
        return Err((m, 63));
    }
    if is_dir {
        let m = join2("Dependency \"", path).concat("\" is a folder, not a library. To load a folder, use a \"loadFolder\" dependency type");
        return Err((m, 63));
    }
    Ok(())
}

/// Checks a local folder: code 63 if it is missing, 1 if it is a regular file.
pub fn check_folder(path: &str, exists: bool, is_file: bool) -> (r: Result<(), (String, u8)>)
    ensures
        !exists ==> fails_with(r, 63),
        exists && is_file ==> fails_with(r, 1),
        exists && !is_file ==> r is Ok,
{
    if !exists {
        let m = join2("Dependency folder \"", path).concat("\" does not exist");
        return Err((m, 63));
    }
    if is_file {
        let m = join2("Dependency folder \"", path).concat("\" is a regular file, not a folder");
        return Err((m, 1));
    }
    Ok(())
}

/// Resolving a fetched dependency whose policy is `Never` asks nothing of the
/// network, whatever the context and whether or not the cached copy exists,
/// and any two resolutions of it name the same cache path.
pub proof fn lemma_never_policy_reuses_cache(d: Dependency, name: Seq<char>, c1: UpdateContext, c2: UpdateContext, exists: bool)
    requires
        remote_plan(d, name, c1) is Some,
        match d {
            Dependency::FetchFromUrl { update_policy, .. } => update_policy == UpdatePolicy::Never,
            Dependency::FetchFromMaven { update_policy, .. } => update_policy == UpdatePolicy::Never,
            Dependency::FetchFromGithub { update_policy, .. } => update_policy == UpdatePolicy::Never,
            _ => false,
        },
    ensures
        !needs_fetch_spec(remote_plan(d, name, c1)->Some_0.2, remote_plan(d, name, c1)->Some_0.3, exists),
        remote_plan(d, name, c1)->Some_0.0 == remote_plan(d, name, c2)->Some_0.0,
{
}

} // verus!

verus! {

impl Dependency {
    /// Whether the configuration shades the dependency `name`: `None` when the
    /// configuration declares no shading, or for a folder of archives.
    pub fn is_shaded(&self, name: &str, configuration: &Configuration) -> (r: Option<bool>)
        ensures
            match configuration.shaded {
                None => r is None,
                Some(s) => if *self is LocalFolder {
                    r is None
                } else {
                    r == Some(views(s@).contains(name@))
                },
            },
    {
        let shaded = match configuration.shaded() {
            Some(s) => s,
            None => return None,
        };
        match self {
            Dependency::LocalFolder { .. } => None,
            _ => {
                let n = String::from_str(name);
                let found = contains_str(shaded, &n);
                proof {
                    if found {
                        let j = choose|j: int| 0 <= j < shaded@.len() && shaded@[j]@ == n@;
                        assert(views(shaded@)[j] == name@);
                    }
                    if views(shaded@).contains(name@) {
                        let j = choose|j: int| 0 <= j < views(shaded@).len() && views(shaded@)[j] == name@;
                        assert(shaded@[j]@ == n@);
                    }
                }
                Some(found)
            },
        }
    }
}

/// The outcome of resolving a list of dependencies, one after another:
/// every dependency is attempted and failures are collected.
pub struct DependencyBatch {
    pub paths: Vec<String>,
    pub shaded: Vec<String>,
    pub failures: Vec<(String, String)>,
}

impl DependencyBatch {
    pub fn new() -> (r: Self)
        ensures
            r.paths@.len() == 0,
            r.shaded@.len() == 0,
            r.failures@.len() == 0,
    {
        DependencyBatch { paths: Vec::new(), shaded: Vec::new(), failures: Vec::new() }
    }

    /// Records the outcome of resolving the dependency `name`, whose paths
    /// are shaded into the artifact when `shaded` holds.
    pub fn record(&mut self, name: &String, shaded: bool, outcome: Result<Vec<String>, (String, u8)>)
        ensures
            match outcome {
                Ok(p) => {
                    &&& final(self).paths@ == old(self).paths@ + p@
                    &&& final(self).shaded@ == if shaded { old(self).shaded@ + p@ } else { old(self).shaded@ }
                    &&& final(self).failures@ == old(self).failures@
                },
                Err(e) => {
                    &&& final(self).paths@ == old(self).paths@
                    &&& final(self).shaded@ == old(self).shaded@
                    &&& final(self).failures@.len() == old(self).failures@.len() + 1
                    &&& final(self).failures@.drop_last() == old(self).failures@
                    &&& final(self).failures@.last().0@ == name@
                    &&& final(self).failures@.last().1@ == e.0@
                },
            },
    {
        match outcome {
            Ok(mut p) => {
                if shaded {
                    let mut copy = crate::text::copy_strings(&p);
                    self.shaded.append(&mut copy);
                }
                self.paths.append(&mut p);
            },
            Err(e) => {
                self.failures.push((name.clone(), e.0));
                assert(final(self).failures@.drop_last() =~= old(self).failures@);
            },
        }
    }

    /// The resolved paths and the shaded ones, or code 1 if any dependency failed.
    pub fn finish(self) -> (r: Result<(Vec<String>, Vec<String>), (String, u8)>)
        ensures
            self.failures@.len() == 0 ==> (r matches Ok(v) && v.0@ == self.paths@ && v.1@ == self.shaded@),
            self.failures@.len() > 0 ==> fails_with(r, 1),
    {
        if self.failures.len() > 0 {
            return Err((String::from_str("Could not resolve all dependencies"), 1));
        }
        Ok((self.paths, self.shaded))
    }
}

} // verus!
