//! The build pipeline of the implicit build task: resolve dependencies, copy
//! and compile sources, shade, package, hash and deploy. Each outside step
//! is carried out by the caller, which reports its outcome; `step` decides
//! what comes next.
use vstd::prelude::*;
use crate::configuration::{Configuration, opt_views};
use crate::compiler::{CompilerFlags, canon_flag};
use crate::dependency::{DependencyBatch, opt_view};
use crate::document::{views, fails_with};
use crate::environment::{resolve_filepath, expand_from, finish_path};
use crate::manifest::{Manifest, ManifestEntry, header, headers, folded, spaced, FIRST_WIDTH};
use crate::metadata::Metadata;
use crate::source::{joined, join_with, select_sources, selected};
use crate::task::ImplicitBuildTask;
use crate::text::{has_prefix, starts_with, copy_strings};

verus! {

/// The hexadecimal SHA-256 digest of `bytes`.
pub uninterp spec fn sha256_hex(bytes: Seq<u8>) -> Seq<char>;

/// Relies on `sha256::digest` over a byte vector, which hex-encodes the
/// 32-byte digest: 64 characters that depend on the bytes alone.
#[verifier::external_body]
fn digest_bytes(bytes: &Vec<u8>) -> (r: String)
    ensures
        r@ == sha256_hex(bytes@),
        r@.len() == 64,
{
    sha256::digest(bytes)
}

/// The content hash of a packaged artifact.
pub fn content_hash(artifact: &Vec<u8>) -> (r: String)
    ensures
        r@ == sha256_hex(artifact@),
        r@.len() == 64,
{
    digest_bytes(artifact)
}

/// Whether the compiler's error output means success: it is empty, or it
/// opens with the informational marker.
pub open spec fn compile_ok(stderr: Seq<char>) -> bool {
    stderr.len() == 0 || has_prefix(stderr, "Note: "@)
}

/// Whether a compilation succeeded, judged by its error output alone.
pub fn compile_succeeded(stderr: &str) -> (r: bool)
    ensures
        r == compile_ok(stderr@),
{
    stderr.unicode_len() == 0 || starts_with(stderr, "Note: ")
}

pub open spec fn flag_arguments(flags: Seq<CompilerFlags>) -> Seq<Seq<char>>
    decreases flags.len(),
{
    if flags.len() == 0 { Seq::empty() } else { flag_arguments(flags.drop_last()) + canon_flag(flags.last()) }
}

/// The compiler's arguments: output and source folders, the class path when
/// dependencies are declared, the flags, then the files.
pub open spec fn compile_arguments(class_path: Option<Seq<char>>, flags: Seq<CompilerFlags>, files: Seq<Seq<char>>) -> Seq<Seq<char>> {
    seq!["-d"@, "./.wisteria/work/bin/"@, "--source-path"@, ".wisteria/work/src/"@]
        + (match class_path { Some(c) => seq!["--class-path"@, c], None => seq![] })
        + flag_arguments(flags) + files
}

/// The archiver's arguments: the artifact, the includes, then the classes.
pub open spec fn package_arguments(includes: Seq<Seq<char>>) -> Seq<Seq<char>> {
    seq!["-cMf"@, ".wisteria/work/target.jar"@] + includes + seq!["-C"@, ".wisteria/work/bin/"@, "."@]
}

/// The manifest of an artifact with entry point `entry` and class path `paths`.
pub open spec fn manifest_text(entry: Option<Seq<char>>, paths: Seq<Seq<char>>) -> Seq<char> {
    "Manifest-Version: "@ + "1.0"@ + "\n"@ + ("Created-By: "@ + "Wisteria 3"@ + "\n"@)
        + (match entry { Some(e) => "Main-Class: "@ + e + "\n"@, None => seq![] })
        + (if paths.len() == 0 { seq![] } else { folded("Class-Path: "@ + spaced(paths), FIRST_WIDTH as nat) })
}

pub enum BuildStage {
    Resolving,
    Copying,
    Compiling,
    Shading,
    Packaging,
    Deploying,
    Done,
}

/// What the caller reports after carrying out an action.
pub enum BuildEvent {
    Started,
    /// The dependency `name` was resolved, to the given paths or an error;
    /// `shaded` tells whether the configuration shades it.
    Resolved { name: String, shaded: bool, outcome: Result<Vec<String>, (String, u8)> },
    /// The sources were copied to the working tree: each copy with its
    /// modification time.
    SourcesCopied { files: Vec<(String, u128)> },
    /// The compiler ran and wrote `stderr` as its error output.
    Compiled { stderr: String },
    Shaded,
    /// The archiver produced the artifact with these bytes.
    Packaged { artifact: Vec<u8> },
    Deployed,
}

/// What the caller is asked to do next.
pub enum BuildAction {
    /// Resolve the dependency `name` in the task-invoked context.
    Resolve { name: String },
    /// Clear the working tree and copy the sources of these roots into it.
    CopySources { roots: Vec<String> },
    /// Run the compiler with these arguments.
    Compile { arguments: Vec<String> },
    /// Extract these archives into scratch space, keeping only class files
    /// and metadata.
    Shade { archives: Vec<String> },
    /// Write the manifest (or keep the one in place when `manifest` is
    /// `None`), run the archiver with these arguments, and merge the shaded
    /// classes into the artifact when `merge_shaded` holds.
    Package { manifest: Option<String>, arguments: Vec<String>, merge_shaded: bool },
    /// Copy the artifact to each target, creating parent folders.
    Deploy { targets: Vec<String> },
    /// The build succeeded with this content hash.
    Finish { hash: String },
    /// The build failed; remove the working output first when `purge` holds.
    Fail { message: String, code: u8, purge: bool },
}

/// One run of the implicit build task for a configuration.
pub struct BuildSession {
    pub stage: BuildStage,
    pub next: usize,
    pub dependencies: Vec<String>,
    pub declares_dependencies: bool,
    pub batch: DependencyBatch,
    pub paths: Vec<String>,
    pub shaded: Vec<String>,
    pub sources: Option<Vec<String>>,
    pub flags: Vec<CompilerFlags>,
    pub entry: Option<String>,
    pub includes: Vec<String>,
    pub targets: Vec<String>,
    pub environment: Vec<(String, String)>,
    pub home: String,
    pub cwd: String,
    pub metadata: Metadata,
    pub task: String,
    pub force: bool,
    pub use_existing_manifest: bool,
    pub separator: char,
    pub compiled: bool,
    pub hash: String,
}

/// The targets resolved against the environment, or `None` if one of them
/// names an undefined variable.
pub open spec fn targets_resolved(targets: Seq<String>, env: Seq<(String, String)>, home: Seq<char>, cwd: Seq<char>) -> Option<Seq<Seq<char>>>
    decreases targets.len(),
{
    if targets.len() == 0 {
        Some(Seq::empty())
    } else {
        match (targets_resolved(targets.drop_last(), env, home, cwd), expand_from(targets.last()@, 0, env)) {
            (Some(r), Ok(p)) => Some(r.push(finish_path(p, home, cwd))),
            _ => None,
        }
    }
}

/// Whether `r` is a fresh session for building `configuration` as the task
/// `task`, with the metadata of the previous build.
pub open spec fn fresh_session(r: BuildSession, configuration: Configuration, metadata: Metadata, task: String, force: bool, separator: char, home: Seq<char>, cwd: Seq<char>) -> bool {
    &&& r.stage is Resolving
    &&& r.next == 0
    &&& opt_views(configuration.dependencies) == (if r.declares_dependencies { Some(views(r.dependencies@)) } else { None })
    &&& !r.declares_dependencies ==> r.dependencies@.len() == 0
    &&& r.batch.failures@.len() == 0
    &&& r.batch.paths@.len() == 0
    &&& r.batch.shaded@.len() == 0
    &&& opt_views(r.sources) == opt_views(configuration.sources)
    &&& opt_view(r.entry) == opt_view(configuration.entry)
    &&& views(r.includes@) == match opt_views(configuration.includes) { Some(i) => i, None => seq![] }
    &&& views(r.targets@) == match opt_views(configuration.targets) { Some(t) => t, None => seq![] }
    &&& r.environment@ == configuration.environment@
    &&& r.metadata == metadata
    &&& r.task == task
    &&& r.force == force
    &&& !r.use_existing_manifest
    &&& r.separator == separator
    &&& home == r.home@
    &&& cwd == r.cwd@
    &&& match configuration.compiler_flags {
        Some(f) => r.flags@.len() == f@.len() && forall|i: int| 0 <= i < f@.len() ==> canon_flag(#[trigger] r.flags@[i]) == canon_flag(f@[i]),
        None => r.flags@.len() == 0,
    }
    &&& !r.compiled
}

impl BuildSession {
    pub open spec fn class_path(&self) -> Option<Seq<char>> {
        if self.declares_dependencies { Some(joined(views(self.paths@), self.separator)) } else { None }
    }

    /// Whether `a` asks to package the artifact of this session.
    pub open spec fn packages(&self, a: BuildAction) -> bool {
        a matches BuildAction::Package { manifest, arguments, merge_shaded }
            && (if self.use_existing_manifest {
                manifest is None
            } else {
                manifest matches Some(m) && m@ == manifest_text(opt_view(self.entry), views(self.paths@))
            })
            && views(arguments@) == package_arguments(views(self.includes@))
            && merge_shaded == (self.shaded@.len() > 0)
    }

    /// Whether `a` and `next` are what follows a compilation, or its skipping:
    /// shading when archives are shaded, else packaging.
    pub open spec fn after_compile(&self, a: BuildAction, next: BuildSession) -> bool {
        if self.shaded@.len() > 0 {
            a matches BuildAction::Shade { archives } && views(archives@) == views(self.shaded@) && next.stage is Shading
        } else {
            self.packages(a) && next.stage is Packaging
        }
    }

    /// The fields a step never changes.
    pub open spec fn same_settings(&self, other: BuildSession) -> bool {
        &&& self.dependencies == other.dependencies
        &&& self.declares_dependencies == other.declares_dependencies
        &&& self.sources == other.sources
        &&& self.flags == other.flags
        &&& self.entry == other.entry
        &&& self.includes == other.includes
        &&& self.targets == other.targets
        &&& self.environment == other.environment
        &&& self.home == other.home
        &&& self.cwd == other.cwd
        &&& self.metadata == other.metadata
        &&& self.task == other.task
        &&& self.force == other.force
        &&& self.use_existing_manifest == other.use_existing_manifest
        &&& self.separator == other.separator
    }

    /// A session for building `configuration` as the task `task`, with the
    /// metadata of the previous build.
    pub fn new(configuration: &Configuration, metadata: Metadata, task: String, force: bool, separator: char, home: String, cwd: String) -> (r: Self)
        ensures
            fresh_session(r, *configuration, metadata, task, force, separator, home@, cwd@),
    {
        let (dependencies, declares_dependencies) = match configuration.dependencies() {
            Some(d) => (copy_strings(d), true),
            None => (Vec::new(), false),
        };
        proof {
            if !declares_dependencies {
                assert(views(dependencies@) =~= Seq::<Seq<char>>::empty());
            }
        }
        let sources = match configuration.sources() {
            Some(s) => Some(copy_strings(s)),
            None => None,
        };
        let flags = match configuration.compiler_flags() {
            Some(f) => copy_flag_list(f),
            None => Vec::new(),
        };
        let entry = match configuration.entry() {
            Some(e) => Some(e.clone()),
            None => None,
        };
        let includes = match configuration.includes() {
            Some(i) => copy_strings(i),
            None => {
                let v: Vec<String> = Vec::new();
                assert(views(v@) =~= Seq::<Seq<char>>::empty());
                v
            },
        };
        let targets = match configuration.targets() {
            Some(t) => copy_strings(t),
            None => {
                let v: Vec<String> = Vec::new();
                assert(views(v@) =~= Seq::<Seq<char>>::empty());
                v
            },
        };
        let environment = copy_pairs(configuration.environment());
        BuildSession {
            stage: BuildStage::Resolving,
            next: 0,
            dependencies,
            declares_dependencies,
            batch: DependencyBatch::new(),
            paths: Vec::new(),
            shaded: Vec::new(),
            sources,
            flags,
            entry,
            includes,
            targets,
            environment,
            home,
            cwd,
            metadata,
            task,
            force,
            use_existing_manifest: false,
            separator,
            compiled: false,
            hash: String::new(),
        }
    }
}

fn copy_flag_list(v: &Vec<CompilerFlags>) -> (r: Vec<CompilerFlags>)
    ensures
        r@.len() == v@.len(),
        forall|i: int| 0 <= i < r@.len() ==> canon_flag(#[trigger] r@[i]) == canon_flag(v@[i]),
{
    let mut r: Vec<CompilerFlags> = Vec::new();
    let mut i: usize = 0;
    while i < v.len()
        invariant
            i <= v.len(),
            r@.len() == i,
            forall|k: int| 0 <= k < i ==> canon_flag(#[trigger] r@[k]) == canon_flag(v@[k]),
        decreases v.len() - i,
    {
        let f = v[i].duplicate();
        proof { lemma_model_canon(f, v@[i as int]); }
        r.push(f);
        i = i + 1;
    }
    r
}

proof fn lemma_model_canon(a: CompilerFlags, b: CompilerFlags)
    requires
        crate::compiler::flag_model(a) == crate::compiler::flag_model(b),
    ensures
        canon_flag(a) == canon_flag(b),
{
    let ma = crate::compiler::flag_model(a);
    let mb = crate::compiler::flag_model(b);
    match (a, b) {
        (CompilerFlags::Encoding { encoding: x }, CompilerFlags::Encoding { encoding: y }) => {
            assert(ma.2[0] == mb.2[0]);
        },
        _ => {},
    }
}

fn copy_pairs(v: &Vec<(String, String)>) -> (r: Vec<(String, String)>)
    ensures
        r@ == v@,
{
    let mut r: Vec<(String, String)> = Vec::new();
    let mut i: usize = 0;
    while i < v.len()
        invariant
            i <= v.len(),
            r@ == v@.subrange(0, i as int),
        decreases v.len() - i,
    {
        r.push((v[i].0.clone(), v[i].1.clone()));
        assert(v@.subrange(0, i + 1) =~= v@.subrange(0, i as int).push(v@[i as int]));
        i = i + 1;
    }
    assert(v@.subrange(0, v@.len() as int) =~= v@);
    r
}

fn flag_args(flags: &Vec<CompilerFlags>) -> (r: Vec<String>)
    ensures
        views(r@) == flag_arguments(flags@),
{
    let mut r: Vec<String> = Vec::new();
    let mut i: usize = 0;
    while i < flags.len()
        invariant
            i <= flags.len(),
            views(r@) == flag_arguments(flags@.subrange(0, i as int)),
        decreases flags.len() - i,
    {
        let ghost before = views(r@);
        assert(flags@.subrange(0, i + 1).drop_last() =~= flags@.subrange(0, i as int));
        let mut more = flags[i].get_canon_flag();
        let ghost added = views(more@);
        r.append(&mut more);
        assert(views(r@) =~= before + added);
        i = i + 1;
    }
    assert(flags@.subrange(0, flags@.len() as int) =~= flags@);
    r
}

fn push_str(v: &mut Vec<String>, s: &str)
    ensures
        views(final(v)@) == views(old(v)@).push(s@),
{
    v.push(String::from_str(s));
    assert(views(final(v)@) =~= views(old(v)@).push(s@));
}

impl BuildSession {
    /// Keeps the manifest already in the working output instead of writing one.
    pub fn keep_existing_manifest(&mut self)
        ensures
            final(self).use_existing_manifest,
            final(self).stage == old(self).stage,
            final(self).next == old(self).next,
            final(self).batch == old(self).batch,
            final(self).paths == old(self).paths,
            final(self).shaded == old(self).shaded,
            final(self).compiled == old(self).compiled,
            final(self).hash == old(self).hash,
            final(self).dependencies == old(self).dependencies,
            final(self).declares_dependencies == old(self).declares_dependencies,
            final(self).sources == old(self).sources,
            final(self).flags == old(self).flags,
            final(self).entry == old(self).entry,
            final(self).includes == old(self).includes,
            final(self).targets == old(self).targets,
            final(self).environment == old(self).environment,
            final(self).home == old(self).home,
            final(self).cwd == old(self).cwd,
            final(self).metadata == old(self).metadata,
            final(self).task == old(self).task,
            final(self).force == old(self).force,
            final(self).separator == old(self).separator,
    {
        self.use_existing_manifest = true;
    }

    fn compile_arguments_of(&self, files: &Vec<String>) -> (r: Vec<String>)
        ensures
            views(r@) == compile_arguments(self.class_path(), self.flags@, views(files@)),
    {
        let mut r: Vec<String> = Vec::new();
        push_str(&mut r, "-d");
        push_str(&mut r, "./.wisteria/work/bin/");
        push_str(&mut r, "--source-path");
        push_str(&mut r, ".wisteria/work/src/");
        let ghost head = views(r@);
        if self.declares_dependencies {
            push_str(&mut r, "--class-path");
            let cp = join_with(&self.paths, self.separator);
            let ghost before = r@;
            r.push(cp);
            assert(views(r@) =~= views(before).push(cp@));
            assert(views(r@) =~= head + seq!["--class-path"@, cp@]);
        } else {
            assert(views(r@) =~= head + Seq::<Seq<char>>::empty());
        }
        let ghost with_cp = views(r@);
        assert(with_cp =~= head + (match self.class_path() { Some(c) => seq!["--class-path"@, c], None => seq![] }));
        let mut f = flag_args(&self.flags);
        let ghost fv = views(f@);
        r.append(&mut f);
        let ghost with_flags = views(r@);
        assert(with_flags =~= with_cp + fv);
        let mut copies = copy_strings(files);
        r.append(&mut copies);
        assert(views(r@) =~= with_flags + views(files@));
        assert(head =~= seq!["-d"@, "./.wisteria/work/bin/"@, "--source-path"@, ".wisteria/work/src/"@]);
        r
    }

    fn manifest_of(&self) -> (r: String)
        ensures
            r@ == manifest_text(opt_view(self.entry), views(self.paths@)),
    {
        let mut m = Manifest::new();
        let signature = String::from_str("Wisteria 3");
        let ghost sig = signature;
        m.add_entry(ManifestEntry::CreatedBy { signature });
        let ghost e0 = m.entries@[0];
        let ghost e1 = m.entries@[1];
        proof {
            reveal_with_fuel(headers, 5);
            assert(m.entries@.drop_last() =~= seq![e0]);
            assert(seq![e0].drop_last() =~= Seq::<ManifestEntry>::empty());
            assert(e1 == ManifestEntry::CreatedBy { signature: sig });
            assert(header(e1) == "Created-By: "@ + "Wisteria 3"@ + "\n"@);
            assert(header(e0) == "Manifest-Version: "@ + "1.0"@ + "\n"@);
            assert(headers(seq![e0]) =~= header(e0));
            assert(headers(m.entries@) == headers(seq![e0]) + header(e1));
        }
        let ghost base = headers(m.entries@);
        assert(base =~= "Manifest-Version: "@ + "1.0"@ + "\n"@ + ("Created-By: "@ + "Wisteria 3"@ + "\n"@));
        if let Some(e) = &self.entry {
            m.add_entry(ManifestEntry::MainClass { class: e.clone() });
        }
        let ghost with_main = headers(m.entries@);
        proof {
            if self.entry is Some {
                assert(m.entries@.drop_last().len() == 2);
            }
        }
        if self.paths.len() > 0 {
            let ghost before = m.entries@;
            m.add_entry(ManifestEntry::ClassPath { path: copy_strings(&self.paths) });
            assert(m.entries@.drop_last() =~= before);
        }
        let text = m.to_file();
        proof {
            if self.entry is Some {
                assert(with_main == base + ("Main-Class: "@ + self.entry->Some_0@ + "\n"@));
            } else {
                assert(with_main == base);
            }
        }
        assert(text@ =~= manifest_text(opt_view(self.entry), views(self.paths@)));
        text
    }

    fn package_action(&self) -> (a: BuildAction)
        ensures
            self.packages(a),
    {
        let manifest = if self.use_existing_manifest { None } else { Some(self.manifest_of()) };
        let mut arguments: Vec<String> = Vec::new();
        push_str(&mut arguments, "-cMf");
        push_str(&mut arguments, ".wisteria/work/target.jar");
        let ghost head = views(arguments@);
        let mut inc = copy_strings(&self.includes);
        arguments.append(&mut inc);
        let ghost with_inc = views(arguments@);
        assert(with_inc =~= head + views(self.includes@));
        push_str(&mut arguments, "-C");
        push_str(&mut arguments, ".wisteria/work/bin/");
        push_str(&mut arguments, ".");
        assert(views(arguments@) =~= package_arguments(views(self.includes@)));
        BuildAction::Package { manifest, arguments, merge_shaded: self.shaded.len() > 0 }
    }

    fn resolve_targets(&self) -> (r: Result<Vec<String>, (String, u8)>)
        ensures
            match targets_resolved(self.targets@, self.environment@, self.home@, self.cwd@) {
                Some(t) => r matches Ok(v) && views(v@) == t,
                None => fails_with(r, 61),
            },
    {
        let mut out: Vec<String> = Vec::new();
        let mut i: usize = 0;
        while i < self.targets.len()
            invariant
                i <= self.targets.len(),
                targets_resolved(self.targets@.subrange(0, i as int), self.environment@, self.home@, self.cwd@) == Some(views(out@)),
            decreases self.targets.len() - i,
        {
            let ghost done = self.targets@.subrange(0, i + 1);
            assert(done.drop_last() =~= self.targets@.subrange(0, i as int));
            assert(done.last() == self.targets@[i as int]);
            let t = match resolve_filepath(self.targets[i].as_str(), &self.environment, self.home.as_str(), self.cwd.as_str()) {
                Ok(t) => t,
                Err(e) => {
                    proof { lemma_unresolved_prefix(self.targets@, self.environment@, self.home@, self.cwd@, i + 1); }
                    return Err(e);
                },
            };
            let ghost before = views(out@);
            out.push(t);
            assert(views(out@) =~= before.push(t@));
            i = i + 1;
        }
        assert(self.targets@.subrange(0, self.targets@.len() as int) =~= self.targets@);
        Ok(out)
    }

    /// What follows a compilation, or its skipping.
    fn after_compile_action(&mut self) -> (a: BuildAction)
        ensures
            old(self).after_compile(a, *final(self)),
            final(self).same_settings(*old(self)),
            final(self).paths == old(self).paths,
            final(self).shaded == old(self).shaded,
            final(self).compiled == old(self).compiled,
            final(self).hash == old(self).hash,
    {
        if self.shaded.len() > 0 {
            self.stage = BuildStage::Shading;
            BuildAction::Shade { archives: copy_strings(&self.shaded) }
        } else {
            self.stage = BuildStage::Packaging;
            self.package_action()
        }
    }
}

proof fn lemma_unresolved_prefix(targets: Seq<String>, env: Seq<(String, String)>, home: Seq<char>, cwd: Seq<char>, k: int)
    requires
        0 <= k <= targets.len(),
        targets_resolved(targets.subrange(0, k), env, home, cwd) is None,
    ensures
        targets_resolved(targets, env, home, cwd) is None,
    decreases targets.len() - k,
{
    if k < targets.len() {
        let next = targets.subrange(0, k + 1);
        assert(next.drop_last() =~= targets.subrange(0, k));
        lemma_unresolved_prefix(targets, env, home, cwd, k + 1);
    } else {
        assert(targets.subrange(0, k) =~= targets);
    }
}

/// Whether `a` reports a failure with `code`, purging the output when `purge` holds.
pub open spec fn fails_as(a: BuildAction, code: u8, purge: bool) -> bool {
    a matches BuildAction::Fail { code: c, purge: p, .. } && c == code && p == purge
}

/// What a step of the resolving stage does with the outcome `event` reports.
pub open spec fn resolving_step(s: BuildSession, event: BuildEvent, next: BuildSession, a: BuildAction) -> bool {
    &&& match event {
        BuildEvent::Resolved { outcome: Ok(p), shaded, .. } => {
            &&& next.batch.paths@ == s.batch.paths@ + p@
            &&& next.batch.shaded@ == if shaded { s.batch.shaded@ + p@ } else { s.batch.shaded@ }
            &&& next.batch.failures@ == s.batch.failures@
        },
        BuildEvent::Resolved { outcome: Err(_), .. } => {
            &&& next.batch.paths@ == s.batch.paths@
            &&& next.batch.failures@.len() == s.batch.failures@.len() + 1
        },
        _ => next.batch == s.batch,
    }
    &&& if s.next < s.dependencies@.len() {
        &&& a matches BuildAction::Resolve { name } && name@ == s.dependencies@[s.next as int]@
        &&& next.next == s.next + 1
        &&& next.stage is Resolving
    } else if next.batch.failures@.len() > 0 {
        fails_as(a, 1, false) && next.stage is Done
    } else if s.sources is Some && s.sources->Some_0@.len() > 0 {
        &&& a matches BuildAction::CopySources { roots } && views(roots@) == views(s.sources->Some_0@)
        &&& next.stage is Copying
        &&& next.paths@ == next.batch.paths@
        &&& next.shaded@ == next.batch.shaded@
    } else {
        fails_as(a, 1, false) && next.stage is Done
    }
}

/// What one step of the pipeline does.
pub open spec fn stepped(s: BuildSession, event: BuildEvent, next: BuildSession, a: BuildAction) -> bool {
    &&& !(s.stage is Resolving) ==> next.paths == s.paths && next.shaded == s.shaded
    &&& !(s.stage is Packaging && event is Packaged) ==> next.hash == s.hash
    &&& match s.stage {
        BuildStage::Resolving => if event is Started || event is Resolved {
            resolving_step(s, event, next, a)
        } else {
            fails_as(a, 1, false) && next.stage is Done
        },
        BuildStage::Copying => match event {
            BuildEvent::SourcesCopied { files } => {
                let chosen = selected(files@, s.metadata, s.task@, s.force);
                if chosen.len() == 0 {
                    !next.compiled && s.after_compile(a, next)
                } else {
                    &&& a matches BuildAction::Compile { arguments }
                        && views(arguments@) == compile_arguments(s.class_path(), s.flags@, chosen)
                    &&& next.stage is Compiling
                    &&& next.compiled
                }
            },
            _ => fails_as(a, 1, false) && next.stage is Done,
        },
        BuildStage::Compiling => match event {
            BuildEvent::Compiled { stderr } => if compile_ok(stderr@) {
                s.after_compile(a, next)
            } else {
                fails_as(a, 1, true) && next.stage is Done
            },
            _ => fails_as(a, 1, false) && next.stage is Done,
        },
        BuildStage::Shading => match event {
            BuildEvent::Shaded => s.packages(a) && next.stage is Packaging,
            _ => fails_as(a, 1, false) && next.stage is Done,
        },
        BuildStage::Packaging => match event {
            BuildEvent::Packaged { artifact } => {
                &&& next.hash@ == sha256_hex(artifact@)
                &&& next.hash@.len() == 64
                &&& match targets_resolved(s.targets@, s.environment@, s.home@, s.cwd@) {
                    Some(t) => a matches BuildAction::Deploy { targets } && views(targets@) == t && next.stage is Deploying,
                    None => fails_as(a, 61, false) && next.stage is Done,
                }
            },
            _ => fails_as(a, 1, false) && next.stage is Done,
        },
        BuildStage::Deploying => match event {
            BuildEvent::Deployed => a matches BuildAction::Finish { hash } && hash@ == s.hash@ && next.stage is Done,
            _ => fails_as(a, 1, false) && next.stage is Done,
        },
        BuildStage::Done => fails_as(a, 1, false) && next.stage is Done,
    }
}

fn failure(message: &str, code: u8, purge: bool) -> (a: BuildAction)
    ensures
        fails_as(a, code, purge),
{
    BuildAction::Fail { message: String::from_str(message), code, purge }
}

impl BuildSession {
    /// Takes the outcome of the last action and decides the next one.
    pub fn step(&mut self, event: BuildEvent) -> (a: BuildAction)
        ensures
            final(self).same_settings(*old(self)),
            stepped(*old(self), event, *final(self), a),
    {
        match self.stage {
            BuildStage::Resolving => {
                match event {
                    BuildEvent::Started => {},
                    BuildEvent::Resolved { name, shaded, outcome } => {
                        self.batch.record(&name, shaded, outcome);
                    },
                    _ => {
                        self.stage = BuildStage::Done;
                        return failure("Unexpected event while resolving dependencies", 1, false);
                    },
                }
                if self.next < self.dependencies.len() {
                    let name = self.dependencies[self.next].clone();
                    self.next = self.next + 1;
                    return BuildAction::Resolve { name };
                }
                if self.batch.failures.len() > 0 {
                    self.stage = BuildStage::Done;
                    return failure("Could not resolve all dependencies", 1, false);
                }
                let roots = match &self.sources {
                    Some(src) => {
                        if src.len() == 0 {
                            self.stage = BuildStage::Done;
                            return failure("No source folders given, nothing to compile", 1, false);
                        }
                        copy_strings(src)
                    },
                    None => {
                        self.stage = BuildStage::Done;
                        return failure("No source folders given, nothing to compile", 1, false);
                    },
                };
                self.paths = copy_strings(&self.batch.paths);
                self.shaded = copy_strings(&self.batch.shaded);
                self.stage = BuildStage::Copying;
                BuildAction::CopySources { roots }
            },
            BuildStage::Copying => {
                match event {
                    BuildEvent::SourcesCopied { files } => {
                        let chosen = select_sources(&files, &self.metadata, &self.task, self.force);
                        if chosen.len() == 0 {
                            proof { assert(views(chosen@).len() == 0); }
                            self.compiled = false;
                            return self.after_compile_action();
                        }
                        let arguments = self.compile_arguments_of(&chosen);
                        self.stage = BuildStage::Compiling;
                        self.compiled = true;
                        BuildAction::Compile { arguments }
                    },
                    _ => {
                        self.stage = BuildStage::Done;
                        failure("Unexpected event while copying sources", 1, false)
                    },
                }
            },
            BuildStage::Compiling => {
                match event {
                    BuildEvent::Compiled { stderr } => {
                        if compile_succeeded(stderr.as_str()) {
                            self.after_compile_action()
                        } else {
                            self.stage = BuildStage::Done;
                            failure("Could not compile project", 1, true)
                        }
                    },
                    _ => {
                        self.stage = BuildStage::Done;
                        failure("Unexpected event while compiling", 1, false)
                    },
                }
            },
            BuildStage::Shading => {
                match event {
                    BuildEvent::Shaded => {
                        self.stage = BuildStage::Packaging;
                        self.package_action()
                    },
                    _ => {
                        self.stage = BuildStage::Done;
                        failure("Unexpected event while shading", 1, false)
                    },
                }
            },
            BuildStage::Packaging => {
                match event {
                    BuildEvent::Packaged { artifact } => {
                        self.hash = content_hash(&artifact);
                        match self.resolve_targets() {
                            Ok(targets) => {
                                self.stage = BuildStage::Deploying;
                                BuildAction::Deploy { targets }
                            },
                            Err(e) => {
                                self.stage = BuildStage::Done;
                                BuildAction::Fail { message: e.0, code: e.1, purge: false }
                            },
                        }
                    },
                    _ => {
                        self.stage = BuildStage::Done;
                        failure("Unexpected event while packaging", 1, false)
                    },
                }
            },
            BuildStage::Deploying => {
                match event {
                    BuildEvent::Deployed => {
                        self.stage = BuildStage::Done;
                        BuildAction::Finish { hash: self.hash.clone() }
                    },
                    _ => {
                        self.stage = BuildStage::Done;
                        failure("Unexpected event while deploying", 1, false)
                    },
                }
            },
            BuildStage::Done => failure("The build has already ended", 1, false),
        }
    }
}

impl ImplicitBuildTask {
    /// Begins building `configuration` with the implicit build task.
    pub fn start(&self, configuration: &Configuration, metadata: Metadata, task: String, force: bool, separator: char, home: String, cwd: String) -> (r: BuildSession)
        ensures
            fresh_session(r, *configuration, metadata, task, force, separator, home@, cwd@),
    {
        BuildSession::new(configuration, metadata, task, force, separator, home, cwd)
    }
}

/// Whether a top-level entry extracted from a shaded archive is kept: folders
/// holding class files, and the metadata folder; plain files are dropped.
pub fn keep_extracted(name: &str, is_file: bool, holds_classes: bool) -> (r: bool)
    ensures
        r == (!is_file && (name@ == "META-INF"@ || holds_classes)),
{
    !is_file && (String::from_str(name) == String::from_str("META-INF") || holds_classes)
}

/// The artifact that running a configuration executes: its first target,
/// resolved against its environment. Without an entry point, or without a
/// target, there is nothing to run (code 1).
pub fn runnable_target(configuration: &Configuration, home: &str, cwd: &str) -> (r: Result<String, (String, u8)>)
    ensures
        configuration.entry is None ==> fails_with(r, 1),
        configuration.entry is Some ==> match configuration.targets {
            Some(t) if t@.len() > 0 => match expand_from(t@[0]@, 0, configuration.environment@) {
                Ok(p) => r matches Ok(x) && x@ == finish_path(p, home@, cwd@),
                Err(_) => fails_with(r, 61),
            },
            _ => fails_with(r, 1),
        },
{
    if configuration.entry().is_none() {
        return Err((String::from_str("No entry point is configured; nothing to run"), 1));
    }
    match configuration.targets() {
        Some(t) => {
            if t.len() == 0 {
                return Err((String::from_str("No build target to run"), 1));
            }
            resolve_filepath(t[0].as_str(), configuration.environment(), home, cwd)
        },
        None => Err((String::from_str("No build target to run"), 1)),
    }
}

/// The compiler's error output alone decides the compile stage: output that
/// opens with the informational marker never fails the build, and any other
/// non-empty output fails it and purges the working output.
pub proof fn lemma_compile_verdict(s: BuildSession, stderr: String, next: BuildSession, a: BuildAction)
    requires
        s.stage is Compiling,
        stepped(s, BuildEvent::Compiled { stderr }, next, a),
    ensures
        has_prefix(stderr@, "Note: "@) ==> !(a is Fail) && (a is Shade || a is Package),
        !compile_ok(stderr@) ==> fails_as(a, 1, true) && next.stage is Done,
{
}

/// A fresh build of one source root holding two files, with no dependencies
/// and no earlier build, copies the root, compiles both files, packages,
/// deploys to the one target, and finishes with the artifact's 64-character
/// content hash.
pub proof fn lemma_fresh_build(
    c: Configuration,
    m: Metadata,
    task: String,
    home: Seq<char>,
    cwd: Seq<char>,
    root: Seq<char>,
    target: String,
    files: Vec<(String, u128)>,
    stderr: String,
    artifact: Vec<u8>,
    s0: BuildSession, s1: BuildSession, s2: BuildSession, s3: BuildSession, s4: BuildSession, s5: BuildSession,
    a1: BuildAction, a2: BuildAction, a3: BuildAction, a4: BuildAction, a5: BuildAction,
)
    requires
        fresh_session(s0, c, m, task, false, s0.separator, home, cwd),
        c.dependencies is None,
        opt_views(c.sources) == Some(seq![root]),
        c.targets matches Some(t) && t@ == seq![target],
        m.last_compiled_task is None,
        files@.len() == 2,
        stderr@.len() == 0,
        expand_from(target@, 0, c.environment@) is Ok,
        stepped(s0, BuildEvent::Started, s1, a1),
        s1.same_settings(s0),
        stepped(s1, BuildEvent::SourcesCopied { files }, s2, a2),
        s2.same_settings(s1),
        stepped(s2, BuildEvent::Compiled { stderr }, s3, a3),
        s3.same_settings(s2),
        stepped(s3, BuildEvent::Packaged { artifact }, s4, a4),
        s4.same_settings(s3),
        stepped(s4, BuildEvent::Deployed, s5, a5),
    ensures
        a1 matches BuildAction::CopySources { roots } && views(roots@) == seq![root],
        a2 matches BuildAction::Compile { arguments }
            && views(arguments@) == compile_arguments(None, s0.flags@, seq![files@[0].0@, files@[1].0@]),
        a3 is Package,
        a4 matches BuildAction::Deploy { targets } && targets@.len() == 1,
        a5 matches BuildAction::Finish { hash } && hash@ == sha256_hex(artifact@) && hash@.len() == 64,
{
    reveal_with_fuel(selected, 3);
    reveal_with_fuel(targets_resolved, 2);
    assert(s0.dependencies@.len() == 0) by {
        assert(views(s0.dependencies@).len() == s0.dependencies@.len());
    }
    assert(s0.sources is Some);
    assert(views(s0.sources->Some_0@) == seq![root]);
    assert(views(s0.sources->Some_0@).len() == s0.sources->Some_0@.len());
    assert(s0.batch.failures@.len() == 0);
    assert(s1.batch == s0.batch);
    assert(s1.shaded@.len() == 0);
    let fs = files@;
    assert(fs.drop_last().drop_last() =~= Seq::<(String, u128)>::empty());
    assert(fs.drop_last().last() == fs[0]);
    assert(selected(fs, s1.metadata, s1.task@, s1.force) =~= seq![fs[0].0@, fs[1].0@]);
    assert(!s2.declares_dependencies);
    assert(s3.targets@.len() == 1) by {
        assert(views(s3.targets@).len() == s3.targets@.len());
    }
    assert(s3.targets@[0]@ == target@) by {
        assert(views(s3.targets@)[0] == s3.targets@[0]@);
    }
    assert(s3.targets@.drop_last() =~= Seq::<String>::empty());
    assert(targets_resolved(s3.targets@, s3.environment@, s3.home@, s3.cwd@) is Some);
    assert(targets_resolved(s3.targets@, s3.environment@, s3.home@, s3.cwd@)->Some_0.len() == 1);
    match a4 {
        BuildAction::Deploy { targets } => {
            assert(views(targets@).len() == targets@.len());
        },
        _ => {},
    }
}

} // verus!
