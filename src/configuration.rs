//! Named, inheritable bundles of build settings.
use vstd::prelude::*;
use std::rc::Rc;
use crate::compiler::{CompilerFlags, flag_model, flag_models, flag_error, flag_from};
use crate::dependency::{opt_view, string_opt};
use crate::document::{Table, Value, views, distinct_keys, all_strings, string_items, fails_with, read_string, read_integer, read_string_array};
use crate::merge::{merge, opt_merge, has_key, merge_keyed, lemma_opt_merge_idempotent, lemma_merge_keyed_idempotent};
use crate::task::{Task, DefinedTask, ImplicitBuildTask, ImplicitCleanTask, task_error, task_built};
use crate::text::{contains_str, join2};

verus! {

/// A named bundle of sources, targets, dependency names, tasks, environment
/// and compiler flags, which may inherit from one other configuration.
pub struct Configuration {
    pub name: String,
    pub sources: Option<Vec<String>>,
    pub dependencies: Option<Vec<String>>,
    pub shaded: Option<Vec<String>>,
    pub includes: Option<Vec<String>>,
    pub targets: Option<Vec<String>>,
    pub entry: Option<String>,
    pub java_version: u8,
    pub tasks: Vec<(String, Rc<Task>)>,
    pub compiler_flags: Option<Vec<CompilerFlags>>,
    pub environment: Vec<(String, String)>,
    pub natures: Vec<String>,
    pub inherit: Option<String>,
}

pub open spec fn opt_views(o: Option<Vec<String>>) -> Option<Seq<Seq<char>>> {
    match o {
        Some(v) => Some(views(v@)),
        None => None,
    }
}

pub open spec fn opt_models(o: Option<Vec<CompilerFlags>>) -> Option<Seq<(nat, int, Seq<Seq<char>>)>> {
    match o {
        Some(v) => Some(flag_models(v@)),
        None => None,
    }
}

pub open spec fn task_views(s: Seq<(String, Rc<Task>)>) -> Seq<(Seq<char>, Task)> {
    s.map_values(|e: (String, Rc<Task>)| (e.0@, *e.1))
}

pub open spec fn env_views(s: Seq<(String, String)>) -> Seq<(Seq<char>, Seq<char>)> {
    s.map_values(|e: (String, String)| (e.0@, e.1@))
}

/// The position of the first entry with key `k`, if any.
pub open spec fn key_pos<V>(s: Seq<(Seq<char>, V)>, k: Seq<char>) -> Option<int>
    decreases s.len(),
{
    if s.len() == 0 {
        None
    } else if s.last().0 == k && !has_key(s.drop_last(), k) {
        Some(s.len() - 1)
    } else {
        key_pos(s.drop_last(), k)
    }
}

/// `s` with `k` bound to `v`: the first entry with key `k` replaced, or a
/// new entry at the end.
pub open spec fn set_key<V>(s: Seq<(Seq<char>, V)>, k: Seq<char>, v: V) -> Seq<(Seq<char>, V)> {
    match key_pos(s, k) {
        Some(i) => s.update(i, (k, v)),
        None => s.push((k, v)),
    }
}

/// Whether no two entries of `s` share a key.
pub open spec fn unique_keys<V>(s: Seq<(Seq<char>, V)>) -> bool {
    forall|i: int, j: int| 0 <= i < j < s.len() ==> (#[trigger] s[i]).0 != (#[trigger] s[j]).0
}

pub(crate) proof fn lemma_key_pos_bound<A>(a: Seq<(Seq<char>, A)>, k: Seq<char>)
    ensures
        key_pos(a, k) is Some ==> 0 <= key_pos(a, k)->Some_0 < a.len() && a[key_pos(a, k)->Some_0].0 == k,
    decreases a.len(),
{
    if a.len() > 0 {
        lemma_key_pos_bound(a.drop_last(), k);
        if key_pos(a.drop_last(), k) is Some {
            let j = key_pos(a.drop_last(), k)->Some_0;
            assert(a.drop_last()[j] == a[j]);
        }
    }
}

proof fn lemma_key_pos_none<A>(a: Seq<(Seq<char>, A)>, k: Seq<char>)
    requires
        key_pos(a, k) is None,
    ensures
        forall|j: int| 0 <= j < a.len() ==> (#[trigger] a[j]).0 != k,
    decreases a.len(),
{
    if a.len() > 0 {
        lemma_key_pos_none(a.drop_last(), k);
        assert forall|j: int| 0 <= j < a.len() implies (#[trigger] a[j]).0 != k by {
            if j < a.len() - 1 {
                assert(a.drop_last()[j] == a[j]);
            }
        }
    }
}

/// Binding a key keeps the keys distinct.
pub proof fn lemma_set_key_unique<V>(s: Seq<(Seq<char>, V)>, k: Seq<char>, v: V)
    requires
        unique_keys(s),
    ensures
        unique_keys(set_key(s, k, v)),
{
    lemma_key_pos_bound(s, k);
    if key_pos(s, k) is None {
        lemma_key_pos_none(s, k);
        let r = s.push((k, v));
        assert forall|i: int, j: int| 0 <= i < j < r.len() implies (#[trigger] r[i]).0 != (#[trigger] r[j]).0 by {
            if j < s.len() {
                assert(r[i] == s[i] && r[j] == s[j]);
            } else {
                assert(r[i] == s[i]);
            }
        }
    } else {
        let p = key_pos(s, k)->Some_0;
        let r = s.update(p, (k, v));
        assert forall|i: int, j: int| 0 <= i < j < r.len() implies (#[trigger] r[i]).0 != (#[trigger] r[j]).0 by {
            assert(r[i].0 == s[i].0 && r[j].0 == s[j].0);
        }
    }
}

/// Inheriting keyed entries keeps the keys distinct.
pub proof fn lemma_merge_keyed_unique<V>(child: Seq<(Seq<char>, V)>, parent: Seq<(Seq<char>, V)>)
    requires
        unique_keys(child),
    ensures
        unique_keys(merge_keyed(child, parent)),
    decreases parent.len(),
{
    if parent.len() > 0 {
        lemma_merge_keyed_unique(child, parent.drop_last());
        let m = merge_keyed(child, parent.drop_last());
        let last = parent.last();
        if !has_key(m, last.0) {
            let r = m.push(last);
            assert forall|i: int, j: int| 0 <= i < j < r.len() implies (#[trigger] r[i]).0 != (#[trigger] r[j]).0 by {
                if j < m.len() {
                    assert(r[i] == m[i] && r[j] == m[j]);
                } else {
                    assert(r[i] == m[i]);
                }
            }
        }
    }
}

/// Relies on `Rc::clone`: the new handle points to the same task.
#[verifier::external_body]
fn share(t: &Rc<Task>) -> (r: Rc<Task>)
    ensures
        r == *t,
{
    Rc::clone(t)
}

/// The position of the first task named `k`, if any.
fn task_index(tasks: &Vec<(String, Rc<Task>)>, k: &String) -> (r: Option<usize>)
    ensures
        match r {
            Some(i) => key_pos(task_views(tasks@), k@) == Some(i as int) && i < tasks@.len() && tasks@[i as int].0@ == k@,
            None => !has_key(task_views(tasks@), k@) && key_pos(task_views(tasks@), k@) is None,
        },
{
    let ghost tv = task_views(tasks@);
    let mut i: usize = 0;
    while i < tasks.len()
        invariant
            i <= tasks.len(),
            tv == task_views(tasks@),
            forall|j: int| 0 <= j < i ==> tasks@[j].0@ != k@,
        decreases tasks.len() - i,
    {
        if tasks[i].0 == *k {
            proof { lemma_first_key_pos(tv, k@, i as int); }
            return Some(i);
        }
        i = i + 1;
    }
    proof { lemma_no_key_pos(tv, k@); }
    None
}

pub(crate) proof fn lemma_no_key_pos<V>(s: Seq<(Seq<char>, V)>, k: Seq<char>)
    requires
        forall|j: int| 0 <= j < s.len() ==> s[j].0 != k,
    ensures
        !has_key(s, k),
        key_pos(s, k) is None,
    decreases s.len(),
{
    if s.len() > 0 {
        lemma_no_key_pos(s.drop_last(), k);
    }
}

pub(crate) proof fn lemma_first_key_pos<V>(s: Seq<(Seq<char>, V)>, k: Seq<char>, i: int)
    requires
        0 <= i < s.len(),
        s[i].0 == k,
        forall|j: int| 0 <= j < i ==> s[j].0 != k,
    ensures
        key_pos(s, k) == Some(i),
    decreases s.len(),
{
    if i == s.len() - 1 {
        lemma_no_key_pos(s.drop_last(), k);
    } else {
        let d = s.drop_last();
        assert(d[i] == s[i]);
        assert(has_key(d, k));
        lemma_first_key_pos(d, k, i);
    }
}

/// Binds `k` to `task`, replacing an existing task of that name.
pub fn insert_task(tasks: &mut Vec<(String, Rc<Task>)>, k: String, task: Rc<Task>)
    ensures
        task_views(final(tasks)@) == set_key(task_views(old(tasks)@), k@, *task),
{
    match task_index(tasks, &k) {
        Some(i) => {
            let ghost kv = k@;
            tasks.set(i, (k, task));
            assert(task_views(final(tasks)@) =~= task_views(old(tasks)@).update(i as int, (kv, *task)));
        },
        None => {
            let ghost kv = k@;
            tasks.push((k, task));
            assert(task_views(final(tasks)@) =~= task_views(old(tasks)@).push((kv, *task)));
        },
    }
}

/// Whether some task is named `k`.
fn has_task(tasks: &Vec<(String, Rc<Task>)>, k: &String) -> (r: bool)
    ensures
        r == has_key(task_views(tasks@), k@),
{
    match task_index(tasks, k) {
        Some(i) => {
            assert(task_views(tasks@)[i as int].0 == k@);
            true
        },
        None => false,
    }
}

/// Whether some environment entry has the key `k`.
fn has_variable(env: &Vec<(String, String)>, k: &String) -> (r: bool)
    ensures
        r == has_key(env_views(env@), k@),
{
    let mut i: usize = 0;
    while i < env.len()
        invariant
            i <= env.len(),
            forall|j: int| 0 <= j < i ==> env@[j].0@ != k@,
        decreases env.len() - i,
    {
        if env[i].0 == *k {
            assert(env_views(env@)[i as int].0 == k@);
            return true;
        }
        i = i + 1;
    }
    assert forall|j: int| 0 <= j < env_views(env@).len() implies (#[trigger] env_views(env@)[j]).0 != k@ by {
        assert(env_views(env@)[j].0 == env@[j].0@);
    }
    false
}

/// A list inherited from an optional parent list: the child's entries first,
/// then the parent's that the child lacks.
pub fn inherit_vec(inheritor: Option<Vec<String>>, host: Option<&Vec<String>>) -> (r: Option<Vec<String>>)
    ensures
        opt_views(r) == opt_merge(opt_views(inheritor), match host {
            Some(h) => Some(views(h@)),
            None => None,
        }),
{
    match inheritor {
        Some(mut data) => {
            if let Some(host_data) = host {
                let ghost child = views(data@);
                let ghost parent = views(host_data@);
                let mut i: usize = 0;
                while i < host_data.len()
                    invariant
                        i <= host_data.len(),
                        parent == views(host_data@),
                        views(data@) == merge(child, parent.subrange(0, i as int)),
                    decreases host_data.len() - i,
                {
                    let ghost before = views(data@);
                    assert(parent.subrange(0, i + 1).drop_last() =~= parent.subrange(0, i as int));
                    assert(parent.subrange(0, i + 1).last() == host_data@[i as int]@);
                    if !contains_str(&data, &host_data[i]) {
                        proof {
                            if before.contains(host_data@[i as int]@) {
                                let j = choose|j: int| 0 <= j < before.len() && before[j] == host_data@[i as int]@;
                                assert(data@[j]@ == host_data@[i as int]@);
                            }
                        }
                        data.push(host_data[i].clone());
                        assert(views(data@) =~= before.push(host_data@[i as int]@));
                    } else {
                        proof {
                            let j = choose|j: int| 0 <= j < data@.len() && data@[j]@ == host_data@[i as int]@;
                            assert(before[j] == host_data@[i as int]@);
                        }
                    }
                    i = i + 1;
                }
                assert(parent.subrange(0, host_data@.len() as int) =~= parent);
            }
            Some(data)
        },
        None => match host {
            Some(h) => Some(crate::text::copy_strings(h)),
            None => None,
        },
    }
}

/// Whether `v` holds a flag equal to `f`.
fn contains_flag(v: &Vec<CompilerFlags>, f: &CompilerFlags) -> (r: bool)
    ensures
        r == flag_models(v@).contains(flag_model(*f)),
{
    let mut i: usize = 0;
    while i < v.len()
        invariant
            i <= v.len(),
            forall|j: int| 0 <= j < i ==> flag_model(v@[j]) != flag_model(*f),
        decreases v.len() - i,
    {
        if v[i].same(f) {
            assert(flag_models(v@)[i as int] == flag_model(*f));
            return true;
        }
        i = i + 1;
    }
    proof {
        if flag_models(v@).contains(flag_model(*f)) {
            let j = choose|j: int| 0 <= j < flag_models(v@).len() && flag_models(v@)[j] == flag_model(*f);
            assert(flag_model(v@[j]) == flag_model(*f));
        }
    }
    false
}

fn copy_flags(v: &Vec<CompilerFlags>) -> (r: Vec<CompilerFlags>)
    ensures
        flag_models(r@) == flag_models(v@),
{
    let mut r: Vec<CompilerFlags> = Vec::new();
    let mut i: usize = 0;
    while i < v.len()
        invariant
            i <= v.len(),
            flag_models(r@) =~= flag_models(v@.subrange(0, i as int)),
        decreases v.len() - i,
    {
        let ghost before = r@;
        r.push(v[i].duplicate());
        assert(flag_models(r@) =~= flag_models(before).push(flag_model(v@[i as int])));
        assert(v@.subrange(0, i + 1) =~= v@.subrange(0, i as int).push(v@[i as int]));
        i = i + 1;
    }
    assert(v@.subrange(0, v@.len() as int) =~= v@);
    r
}

/// Compiler flags inherited from an optional parent list, as for `inherit_vec`.
pub fn inherit_flags(inheritor: Option<Vec<CompilerFlags>>, host: Option<&Vec<CompilerFlags>>) -> (r: Option<Vec<CompilerFlags>>)
    ensures
        opt_models(r) == opt_merge(opt_models(inheritor), match host {
            Some(h) => Some(flag_models(h@)),
            None => None,
        }),
{
    match inheritor {
        Some(mut data) => {
            if let Some(host_data) = host {
                let ghost child = flag_models(data@);
                let ghost parent = flag_models(host_data@);
                let mut i: usize = 0;
                while i < host_data.len()
                    invariant
                        i <= host_data.len(),
                        parent == flag_models(host_data@),
                        flag_models(data@) == merge(child, parent.subrange(0, i as int)),
                    decreases host_data.len() - i,
                {
                    let ghost before = flag_models(data@);
                    assert(parent.subrange(0, i + 1).drop_last() =~= parent.subrange(0, i as int));
                    assert(parent.subrange(0, i + 1).last() == flag_model(host_data@[i as int]));
                    if !contains_flag(&data, &host_data[i]) {
                        data.push(host_data[i].duplicate());
                        assert(flag_models(data@) =~= before.push(flag_model(host_data@[i as int])));
                    }
                    i = i + 1;
                }
                assert(parent.subrange(0, host_data@.len() as int) =~= parent);
            }
            Some(data)
        },
        None => match host {
            Some(h) => Some(copy_flags(h)),
            None => None,
        },
    }
}

/// The entry point after inheritance: the child's, else the parent's.
pub open spec fn inherited_entry(child: Option<String>, parent: Option<String>) -> Option<Seq<char>> {
    if child is None && parent is Some { opt_view(parent) } else { opt_view(child) }
}

/// Adds the parent's tasks under the names the child lacks.
fn inherit_tasks(child: &mut Vec<(String, Rc<Task>)>, parent: &Vec<(String, Rc<Task>)>)
    ensures
    task_views(final(child)@) == merge_keyed(task_views(old(child)@), task_views(parent@)),
{
    let ghost child_tasks = task_views(child@);
    let ghost parent_tasks = task_views(parent@);
    let mut i: usize = 0;
    while i < parent.len()
        invariant
            i <= parent.len(),
            parent_tasks == task_views(parent@),
            task_views(child@) == merge_keyed(child_tasks, parent_tasks.subrange(0, i as int)),
        decreases parent.len() - i,
    {
        let ghost before = task_views(child@);
        assert(parent_tasks.subrange(0, i + 1).drop_last() =~= parent_tasks.subrange(0, i as int));
        assert(parent_tasks.subrange(0, i + 1).last() == parent_tasks[i as int]);
        if !has_task(child, &parent[i].0) {
            let k = parent[i].0.clone();
            let t = share(&parent[i].1);
            child.push((k, t));
            assert(task_views(child@) =~= before.push(parent_tasks[i as int]));
        }
        i = i + 1;
    }
    assert(parent_tasks.subrange(0, parent@.len() as int) =~= parent_tasks);
}

/// Adds the parent's environment entries under the keys the child lacks.
fn inherit_environment(child: &mut Vec<(String, String)>, parent: &Vec<(String, String)>)
    ensures
    env_views(final(child)@) == merge_keyed(env_views(old(child)@), env_views(parent@)),
{
    let ghost child_env = env_views(child@);
    let ghost parent_env = env_views(parent@);
    let mut i: usize = 0;
    while i < parent.len()
        invariant
            i <= parent.len(),
            parent_env == env_views(parent@),
            env_views(child@) == merge_keyed(child_env, parent_env.subrange(0, i as int)),
        decreases parent.len() - i,
    {
        let ghost before = env_views(child@);
        assert(parent_env.subrange(0, i + 1).drop_last() =~= parent_env.subrange(0, i as int));
        assert(parent_env.subrange(0, i + 1).last() == parent_env[i as int]);
        if !has_variable(child, &parent[i].0) {
            let k = parent[i].0.clone();
            let v = parent[i].1.clone();
            child.push((k, v));
            assert(env_views(child@) =~= before.push(parent_env[i as int]));
        }
        i = i + 1;
    }
    assert(parent_env.subrange(0, parent@.len() as int) =~= parent_env);
}

/// The code with which `child` refuses to inherit from `parent`, if it does:
/// 40 for itself, 42 for a parent that inherits in turn.
pub open spec fn inherit_refusal(child: Configuration, parent: Configuration) -> Option<u8> {
    if parent.name@ == child.name@ {
        Some(40u8)
    } else if parent.inherit is Some {
        Some(42u8)
    } else {
        None
    }
}

/// What inheriting from `parent` makes of `child`.
pub open spec fn inherits_as(result: Configuration, child: Configuration, parent: Configuration) -> bool {
    &&& result.name == child.name
    &&& opt_views(result.sources) == opt_merge(opt_views(child.sources), opt_views(parent.sources))
    &&& opt_views(result.dependencies) == opt_merge(opt_views(child.dependencies), opt_views(parent.dependencies))
    &&& opt_views(result.includes) == opt_merge(opt_views(child.includes), opt_views(parent.includes))
    &&& opt_views(result.targets) == opt_merge(opt_views(child.targets), opt_views(parent.targets))
    &&& opt_views(result.shaded) == opt_merge(opt_views(child.shaded), opt_views(parent.shaded))
    &&& opt_view(result.entry) == inherited_entry(child.entry, parent.entry)
    &&& result.java_version == parent.java_version
    &&& task_views(result.tasks@) == merge_keyed(task_views(child.tasks@), task_views(parent.tasks@))
    &&& opt_models(result.compiler_flags) == opt_merge(opt_models(child.compiler_flags), opt_models(parent.compiler_flags))
    &&& env_views(result.environment@) == merge_keyed(env_views(child.environment@), env_views(parent.environment@))
    &&& views(result.natures@) == views(child.natures@)
    &&& opt_view(result.inherit) == opt_view(child.inherit)
}

/// What registering the implicit tasks makes of `before`: the clean task
/// when targets are declared, and the build task when sources are too.
pub open spec fn implicit_applied(after: Configuration, before: Configuration) -> bool {
    &&& after.name == before.name
    &&& after.sources == before.sources
    &&& after.dependencies == before.dependencies
    &&& after.shaded == before.shaded
    &&& after.includes == before.includes
    &&& after.targets == before.targets
    &&& after.entry == before.entry
    &&& after.java_version == before.java_version
    &&& after.compiler_flags == before.compiler_flags
    &&& after.environment == before.environment
    &&& after.natures == before.natures
    &&& after.inherit == before.inherit
    &&& before.targets is None ==> after.tasks == before.tasks
    &&& before.targets is Some && before.sources is None ==> exists|clean: ImplicitCleanTask|
        task_views(after.tasks@) == set_key(task_views(before.tasks@), "clean"@, Task::Clean(clean))
        && views(clean.order@) == seq!["target"@]
    &&& before.targets is Some && before.sources is Some ==> exists|clean: ImplicitCleanTask, build: ImplicitBuildTask|
        task_views(after.tasks@) == set_key(set_key(task_views(before.tasks@), "clean"@, Task::Clean(clean)), "build"@, Task::Build(build))
        && views(clean.order@) == seq!["target"@]
        && views(build.order@) == crate::task::build_order()
}

impl Configuration {
    pub fn sources(&self) -> (r: Option<&Vec<String>>)
        ensures
            match r { Some(v) => self.sources == Some(*v), None => self.sources is None },
    {
        self.sources.as_ref()
    }

    pub fn dependencies(&self) -> (r: Option<&Vec<String>>)
        ensures
            match r { Some(v) => self.dependencies == Some(*v), None => self.dependencies is None },
    {
        self.dependencies.as_ref()
    }

    pub fn shaded(&self) -> (r: Option<&Vec<String>>)
        ensures
            match r { Some(v) => self.shaded == Some(*v), None => self.shaded is None },
    {
        self.shaded.as_ref()
    }

    pub fn includes(&self) -> (r: Option<&Vec<String>>)
        ensures
            match r { Some(v) => self.includes == Some(*v), None => self.includes is None },
    {
        self.includes.as_ref()
    }

    pub fn targets(&self) -> (r: Option<&Vec<String>>)
        ensures
            match r { Some(v) => self.targets == Some(*v), None => self.targets is None },
    {
        self.targets.as_ref()
    }

    pub fn entry(&self) -> (r: Option<&String>)
        ensures
            match r { Some(v) => self.entry == Some(*v), None => self.entry is None },
    {
        self.entry.as_ref()
    }

    pub fn java_version(&self) -> (r: u8)
        ensures
            r == self.java_version,
    {
        self.java_version
    }

    pub fn tasks(&self) -> (r: &Vec<(String, Rc<Task>)>)
        ensures
            r == &self.tasks,
    {
        &self.tasks
    }

    pub fn inherits(&self) -> (r: Option<&String>)
        ensures
            match r { Some(v) => self.inherit == Some(*v), None => self.inherit is None },
    {
        self.inherit.as_ref()
    }

    pub fn environment(&self) -> (r: &Vec<(String, String)>)
        ensures
            r == &self.environment,
    {
        &self.environment
    }

    pub fn compiler_flags(&self) -> (r: Option<&Vec<CompilerFlags>>)
        ensures
            match r { Some(v) => self.compiler_flags == Some(*v), None => self.compiler_flags is None },
    {
        self.compiler_flags.as_ref()
    }

    /// Registers the implicit clean task when targets are declared, and the
    /// implicit build task when sources are declared as well.
    pub fn apply_implicit(&mut self)
        ensures
            implicit_applied(*final(self), *old(self)),
            old(self).wf() ==> final(self).wf(),
    {
        if self.targets.is_some() {
            let clean = ImplicitCleanTask::new();
            let ghost c = clean;
            let ghost before = task_views(self.tasks@);
            insert_task(&mut self.tasks, String::from_str("clean"), Rc::new(Task::Clean(clean)));
            proof {
                if unique_keys(before) {
                    lemma_set_key_unique(before, "clean"@, Task::Clean(c));
                }
            }
            if self.sources.is_some() {
                let build = ImplicitBuildTask::new();
                let ghost b = build;
                let ghost mid = task_views(self.tasks@);
                insert_task(&mut self.tasks, String::from_str("build"), Rc::new(Task::Build(build)));
                proof {
                    if unique_keys(mid) {
                        lemma_set_key_unique(mid, "build"@, Task::Build(b));
                    }
                }
            }
        }
    }

    /// Task names are distinct, and so are environment keys.
    pub open spec fn wf(&self) -> bool {
        unique_keys(task_views(self.tasks@)) && unique_keys(env_views(self.environment@))
    }

    /// Takes on the settings of `configuration`, in one pass: lists are
    /// merged without duplicates, the entry point is filled only if unset,
    /// the language version is always taken from the parent, and tasks and
    /// environment entries are added only under names the child lacks.
    /// Inheriting from itself (code 40) or from a configuration that itself
    /// inherits (code 42) is refused and changes nothing.
    pub fn inherit_from(&mut self, configuration: &Configuration) -> (r: Result<(), (String, u8)>)
        ensures
            match inherit_refusal(*old(self), *configuration) {
                Some(c) => fails_with(r, c) && *final(self) == *old(self),
                None => r is Ok && inherits_as(*final(self), *old(self), *configuration),
            },
            old(self).wf() ==> final(self).wf(),
    {
        if configuration.name == self.name {
            let m = join2("Configuration \"", self.name.as_str()).concat("\" cannot inherit from itself");
            return Err((m, 40));
        }
        if configuration.inherit.is_some() {
            let m = join2("Configuration \"", self.name.as_str()).concat("\" inherits from \"").concat(configuration.name.as_str());
            return Err((m.concat("\", which inherits itself; inheritance is single-level"), 42));
        }
        let sources = self.sources.take();
        self.sources = inherit_vec(sources, configuration.sources.as_ref());
        let dependencies = self.dependencies.take();
        self.dependencies = inherit_vec(dependencies, configuration.dependencies.as_ref());
        let includes = self.includes.take();
        self.includes = inherit_vec(includes, configuration.includes.as_ref());
        let targets = self.targets.take();
        self.targets = inherit_vec(targets, configuration.targets.as_ref());
        let shaded = self.shaded.take();
        self.shaded = inherit_vec(shaded, configuration.shaded.as_ref());
        if self.entry.is_none() {
            if let Some(e) = &configuration.entry {
                self.entry = Some(e.clone());
            }
        }
        self.java_version = configuration.java_version;

        inherit_tasks(&mut self.tasks, &configuration.tasks);
        let flags = self.compiler_flags.take();
        self.compiler_flags = inherit_flags(flags, configuration.compiler_flags.as_ref());

        inherit_environment(&mut self.environment, &configuration.environment);
        proof {
            if old(self).wf() {
                lemma_merge_keyed_unique(task_views(old(self).tasks@), task_views(configuration.tasks@));
                lemma_merge_keyed_unique(env_views(old(self).environment@), env_views(configuration.environment@));
            }
        }
        Ok(())
    }
}

/// Inheriting twice from the same parent gives what inheriting once gives:
/// no list, task or environment entry is duplicated.
pub proof fn lemma_inherit_twice(child: Configuration, once: Configuration, twice: Configuration, parent: Configuration)
    requires
        inherits_as(once, child, parent),
        inherits_as(twice, once, parent),
    ensures
        opt_views(twice.sources) == opt_views(once.sources),
        opt_views(twice.dependencies) == opt_views(once.dependencies),
        opt_views(twice.includes) == opt_views(once.includes),
        opt_views(twice.targets) == opt_views(once.targets),
        opt_views(twice.shaded) == opt_views(once.shaded),
        opt_models(twice.compiler_flags) == opt_models(once.compiler_flags),
        task_views(twice.tasks@) == task_views(once.tasks@),
        env_views(twice.environment@) == env_views(once.environment@),
        opt_view(twice.entry) == opt_view(once.entry),
        twice.java_version == once.java_version,
{
    lemma_opt_merge_idempotent(opt_views(child.sources), opt_views(parent.sources));
    lemma_opt_merge_idempotent(opt_views(child.dependencies), opt_views(parent.dependencies));
    lemma_opt_merge_idempotent(opt_views(child.includes), opt_views(parent.includes));
    lemma_opt_merge_idempotent(opt_views(child.targets), opt_views(parent.targets));
    lemma_opt_merge_idempotent(opt_views(child.shaded), opt_views(parent.shaded));
    lemma_opt_merge_idempotent(opt_models(child.compiler_flags), opt_models(parent.compiler_flags));
    lemma_merge_keyed_idempotent(task_views(child.tasks@), task_views(parent.tasks@));
    lemma_merge_keyed_idempotent(env_views(child.environment@), env_views(parent.environment@));
}

} // verus!

verus! {

/// The strings a list field declares, when it declares them well.
pub open spec fn array_opt(t: Table, key: Seq<char>) -> Option<Seq<Seq<char>>> {
    match t.get_spec(key) {
        Some(Value::Array(a)) => if all_strings(a@) { Some(string_items(a@)) } else { None },
        Some(Value::String(s)) => Some(seq![s@]),
        _ => None,
    }
}

/// The code of the first task declaration that cannot be loaded.
pub open spec fn tasks_error(entries: Seq<(String, Value)>) -> Option<u8>
    decreases entries.len(),
{
    if entries.len() == 0 {
        None
    } else {
        match entries[0].1 {
            Value::Table(t) => if task_error(t) is Some { task_error(t) } else { tasks_error(entries.drop_first()) },
            _ => Some(16u8),
        }
    }
}

/// Whether `tasks` holds, in order, the tasks that `entries` declare.
pub open spec fn tasks_built(entries: Seq<(String, Value)>, tasks: Seq<(String, Rc<Task>)>) -> bool {
    &&& tasks.len() == entries.len()
    &&& forall|i: int| 0 <= i < tasks.len() ==> {
        &&& (#[trigger] tasks[i]).0@ == entries[i].0@
        &&& entries[i].1 is Table
        &&& *tasks[i].1 matches Task::Defined(d)
        &&& task_built(entries[i].0@, entries[i].1->Table_0, d)
    }
}

/// Code 15 if some environment entry is not a string.
pub open spec fn env_error(entries: Seq<(String, Value)>) -> Option<u8> {
    if exists|i: int| 0 <= i < entries.len() && !((#[trigger] entries[i]).1 is String) { Some(15u8) } else { None }
}

/// `seed` with each declared variable bound in turn, a later binding
/// replacing an earlier one.
pub open spec fn overlay(seed: Seq<(Seq<char>, Seq<char>)>, entries: Seq<(String, Value)>) -> Seq<(Seq<char>, Seq<char>)>
    decreases entries.len(),
{
    if entries.len() == 0 {
        seed
    } else {
        set_key(overlay(seed, entries.drop_last()), entries.last().0@, entries.last().1->String_0@)
    }
}

/// The code of the first compiler flag declaration that cannot be read.
pub open spec fn flags_error(entries: Seq<(String, Value)>) -> Option<u8>
    decreases entries.len(),
{
    if entries.len() == 0 {
        None
    } else if flag_error(entries[0].0@, entries[0].1) is Some {
        flag_error(entries[0].0@, entries[0].1)
    } else {
        flags_error(entries.drop_first())
    }
}

pub open spec fn flags_built(entries: Seq<(String, Value)>, flags: Seq<CompilerFlags>) -> bool {
    &&& flags.len() == entries.len()
    &&& forall|i: int| 0 <= i < flags.len() ==> flag_from(entries[i].0@, entries[i].1, Ok(#[trigger] flags[i]))
}

/// The code with which loading a configuration from `t` fails, if it does:
/// tasks are checked first, then the environment, then the compiler flags.
pub open spec fn config_error(t: Table) -> Option<u8> {
    let tasks = match t.get_spec("task"@) {
        Some(Value::Table(tt)) => tasks_error(tt.entries@),
        Some(_) => Some(16u8),
        None => None,
    };
    let env = match t.get_spec("environment"@) {
        Some(Value::Table(et)) => env_error(et.entries@),
        Some(_) => Some(15u8),
        None => None,
    };
    let flags = match t.get_spec("compiler_flags"@) {
        Some(Value::Table(ft)) => flags_error(ft.entries@),
        Some(_) => Some(16u8),
        None => None,
    };
    if tasks is Some { tasks } else if env is Some { env } else { flags }
}

/// The environment every configuration starts from.
pub open spec fn seed_environment(project_name: Seq<char>, name: Seq<char>, version: Seq<char>) -> Seq<(Seq<char>, Seq<char>)> {
    seq![("project_name"@, project_name), ("configuration"@, name), ("version"@, version)]
}

/// Whether `c` is the configuration `name` that a well-formed `t` declares.
pub open spec fn configured_as(c: Configuration, name: Seq<char>, t: Table, project_name: Seq<char>, version: Seq<char>) -> bool {
    let declared = match array_opt(t, "natures"@) { Some(n) => n, None => seq![] };
    &&& c.name@ == name
    &&& opt_views(c.sources) == array_opt(t, "sources"@)
    &&& opt_views(c.dependencies) == array_opt(t, "dependencies"@)
    &&& opt_views(c.shaded) == array_opt(t, "shaded"@)
    &&& opt_views(c.includes) == array_opt(t, "includes"@)
    &&& opt_views(c.targets) == array_opt(t, "targets"@)
    &&& opt_view(c.entry) == string_opt(t, "entry"@)
    &&& opt_view(c.inherit) == string_opt(t, "inherit"@)
    &&& c.java_version == (match t.get_spec("java_version"@) {
        Some(Value::Integer(i)) => if 0 <= i <= 255 { i as u8 } else { 8u8 },
        _ => 8u8,
    })
    &&& match t.get_spec("task"@) {
        Some(Value::Table(tt)) => tasks_built(tt.entries@, c.tasks@),
        _ => c.tasks@.len() == 0,
    }
    &&& env_views(c.environment@) == match t.get_spec("environment"@) {
        Some(Value::Table(et)) => overlay(seed_environment(project_name, name, version), et.entries@),
        _ => seed_environment(project_name, name, version),
    }
    &&& views(c.natures@) == if declared.contains("wisteria"@) { declared } else { seq!["wisteria"@] + declared }
    &&& match t.get_spec("compiler_flags"@) {
        Some(Value::Table(ft)) => c.compiler_flags matches Some(f) && flags_built(ft.entries@, f@),
        _ => c.compiler_flags is None,
    }
}

fn array_or_none(key: &str, table: &Table) -> (r: Option<Vec<String>>)
    ensures
        opt_views(r) == array_opt(*table, key@),
{
    match read_string_array(key, table) {
        Ok(v) => Some(v),
        Err(_) => None,
    }
}

fn variable_index(env: &Vec<(String, String)>, k: &String) -> (r: Option<usize>)
    ensures
        match r {
            Some(i) => key_pos(env_views(env@), k@) == Some(i as int) && i < env@.len(),
            None => key_pos(env_views(env@), k@) is None,
        },
{
    let ghost ev = env_views(env@);
    let mut i: usize = 0;
    while i < env.len()
        invariant
            i <= env.len(),
            ev == env_views(env@),
            forall|j: int| 0 <= j < i ==> env@[j].0@ != k@,
        decreases env.len() - i,
    {
        if env[i].0 == *k {
            proof { lemma_first_key_pos(ev, k@, i as int); }
            return Some(i);
        }
        i = i + 1;
    }
    proof { lemma_no_key_pos(ev, k@); }
    None
}

/// Binds the variable `k` to `v`, replacing an existing binding.
pub fn set_variable(env: &mut Vec<(String, String)>, k: String, v: String)
    ensures
        env_views(final(env)@) == set_key(env_views(old(env)@), k@, v@),
{
    let ghost kv = k@;
    let ghost vv = v@;
    match variable_index(env, &k) {
        Some(i) => {
            env.set(i, (k, v));
            assert(env_views(final(env)@) =~= env_views(old(env)@).update(i as int, (kv, vv)));
        },
        None => {
            env.push((k, v));
            assert(env_views(final(env)@) =~= env_views(old(env)@).push((kv, vv)));
        },
    }
}

fn load_tasks(entries: &Vec<(String, Value)>) -> (r: Result<Vec<(String, Rc<Task>)>, (String, u8)>)
    ensures
        match tasks_error(entries@) {
            Some(c) => fails_with(r, c),
            None => r matches Ok(t) && tasks_built(entries@, t@),
        },
{
    let mut tasks: Vec<(String, Rc<Task>)> = Vec::new();
    let mut i: usize = 0;
    assert(entries@.subrange(0, entries@.len() as int) =~= entries@);
    while i < entries.len()
        invariant
            i <= entries.len(),
            tasks_error(entries@) == tasks_error(entries@.subrange(i as int, entries@.len() as int)),
            tasks_built(entries@.subrange(0, i as int), tasks@),
        decreases entries.len() - i,
    {
        let ghost rest = entries@.subrange(i as int, entries@.len() as int);
        assert(rest.drop_first() =~= entries@.subrange(i + 1, entries@.len() as int));
        assert(rest[0] == entries@[i as int]);
        match &entries[i].1 {
            Value::Table(t) => {
                let d = DefinedTask::new(entries[i].0.as_str(), t)?;
                let ghost before = tasks@;
                tasks.push((entries[i].0.clone(), Rc::new(Task::Defined(d))));
                proof {
                    let done = entries@.subrange(0, i + 1);
                    assert forall|j: int| 0 <= j < tasks@.len() implies {
                        &&& (#[trigger] tasks@[j]).0@ == done[j].0@
                        &&& done[j].1 is Table
                        &&& *tasks@[j].1 matches Task::Defined(d)
                        &&& task_built(done[j].0@, done[j].1->Table_0, d)
                    } by {
                        if j < i {
                            assert(tasks@[j] == before[j]);
                            assert(done[j] == entries@.subrange(0, i as int)[j]);
                        }
                    }
                }
            },
            v => {
                let m = join2("Mismatched type for task \"", entries[i].0.as_str()).concat("\", expected a table, found ");
                return Err((m.concat(v.type_str()), 16));
            },
        }
        i = i + 1;
    }
    Ok(tasks)
}

proof fn lemma_overlay_unique(seed: Seq<(Seq<char>, Seq<char>)>, entries: Seq<(String, Value)>)
    requires
        unique_keys(seed),
    ensures
        unique_keys(overlay(seed, entries)),
    decreases entries.len(),
{
    if entries.len() > 0 {
        lemma_overlay_unique(seed, entries.drop_last());
        lemma_set_key_unique(overlay(seed, entries.drop_last()), entries.last().0@, entries.last().1->String_0@);
    }
}

fn overlay_environment(env: &mut Vec<(String, String)>, entries: &Vec<(String, Value)>) -> (r: Result<(), (String, u8)>)
    ensures
        match env_error(entries@) {
            Some(c) => fails_with(r, c),
            None => r is Ok && env_views(final(env)@) == overlay(env_views(old(env)@), entries@),
        },
{
    let ghost seed = env_views(env@);
    let mut i: usize = 0;
    while i < entries.len()
        invariant
            i <= entries.len(),
            forall|j: int| 0 <= j < i ==> (#[trigger] entries@[j]).1 is String,
            env_views(env@) == overlay(seed, entries@.subrange(0, i as int)),
        decreases entries.len() - i,
    {
        let done = Ghost(entries@.subrange(0, i + 1));
        assert(done@.drop_last() =~= entries@.subrange(0, i as int));
        match &entries[i].1 {
            Value::String(s) => {
                set_variable(env, entries[i].0.clone(), s.clone());
            },
            v => {
                let m = join2("Mismatched type for environment variable \"", entries[i].0.as_str()).concat("\", expected a string, found ");
                return Err((m.concat(v.type_str()), 15));
            },
        }
        i = i + 1;
    }
    assert(entries@.subrange(0, entries@.len() as int) =~= entries@);
    Ok(())
}

fn load_flags(entries: &Vec<(String, Value)>) -> (r: Result<Vec<CompilerFlags>, (String, u8)>)
    ensures
        match flags_error(entries@) {
            Some(c) => fails_with(r, c),
            None => r matches Ok(f) && flags_built(entries@, f@),
        },
{
    let mut flags: Vec<CompilerFlags> = Vec::new();
    let mut i: usize = 0;
    assert(entries@.subrange(0, entries@.len() as int) =~= entries@);
    while i < entries.len()
        invariant
            i <= entries.len(),
            flags_error(entries@) == flags_error(entries@.subrange(i as int, entries@.len() as int)),
            flags_built(entries@.subrange(0, i as int), flags@),
        decreases entries.len() - i,
    {
        let ghost rest = entries@.subrange(i as int, entries@.len() as int);
        assert(rest.drop_first() =~= entries@.subrange(i + 1, entries@.len() as int));
        assert(rest[0] == entries@[i as int]);
        let f = CompilerFlags::from(entries[i].0.as_str(), &entries[i].1)?;
        let ghost before = flags@;
        flags.push(f);
        proof {
            let done = entries@.subrange(0, i + 1);
            assert forall|j: int| 0 <= j < flags@.len() implies flag_from(done[j].0@, done[j].1, Ok(#[trigger] flags@[j])) by {
                if j < i {
                    assert(flags@[j] == before[j]);
                    assert(done[j] == entries@.subrange(0, i as int)[j]);
                }
            }
        }
        i = i + 1;
    }
    Ok(flags)
}

impl Configuration {
    /// Reads the configuration `name` of the project `project_name` at
    /// `version` from its declaration. Malformed list fields count as unset;
    /// a malformed task, environment or compiler flag section is an error.
    pub fn from(name: String, table: &Table, project_name: String, version: String) -> (r: Result<Self, (String, u8)>)
        ensures
            match config_error(*table) {
                Some(c) => fails_with(r, c),
                None => r matches Ok(c) && configured_as(c, name@, *table, project_name@, version@),
            },
            r is Ok && (table.get_spec("task"@) matches Some(Value::Table(tt)) ==> distinct_keys(tt)) ==> r->Ok_0.wf(),
    {
        let ghost pv = project_name@;
        let ghost vv = version@;
        let sources = array_or_none("sources", table);
        let dependencies = array_or_none("dependencies", table);
        let shaded = array_or_none("shaded", table);
        let includes = array_or_none("includes", table);
        let targets = array_or_none("targets", table);
        let entry = match read_string("entry", table) { Ok(s) => Some(s), Err(_) => None };
        let java_version = match read_integer("java_version", table) { Ok(v) => v, Err(_) => 8u8 };
        let inherit = match read_string("inherit", table) { Ok(s) => Some(s), Err(_) => None };

        let tasks = match table.get("task") {
            Some(Value::Table(t)) => load_tasks(&t.entries)?,
            Some(v) => {
                let m = String::from_str("Mismatched type for \"task\", expected a table, found ");
                return Err((m.concat(v.type_str()), 16));
            },
            None => Vec::new(),
        };

        let ghost nv = name@;
        let mut environment: Vec<(String, String)> = Vec::new();
        environment.push((String::from_str("project_name"), project_name));
        environment.push((String::from_str("configuration"), name.clone()));
        environment.push((String::from_str("version"), version));
        assert(env_views(environment@) =~= seed_environment(project_name@, nv, version@));
        match table.get("environment") {
            Some(Value::Table(t)) => overlay_environment(&mut environment, &t.entries)?,
            Some(v) => {
                let m = String::from_str("Mismatched type for \"environment\", expected a table, found ");
                return Err((m.concat(v.type_str()), 15));
            },
            None => {},
        }

        let mut natures: Vec<String> = match read_string_array("natures", table) {
            Ok(n) => n,
            Err(_) => Vec::new(),
        };
        assert(views(natures@) == match array_opt(*table, "natures"@) { Some(n) => n, None => seq![] });
        let wisteria = String::from_str("wisteria");
        if !contains_str(&natures, &wisteria) {
            let ghost before = views(natures@);
            natures.insert(0, wisteria);
            assert(views(natures@) =~= seq!["wisteria"@] + before);
            proof {
                if before.contains("wisteria"@) {
                    let j = choose|j: int| 0 <= j < before.len() && before[j] == "wisteria"@;
                    assert(natures@[j + 1]@ == "wisteria"@);
                }
            }
        } else {
            proof {
                let j = choose|j: int| 0 <= j < natures@.len() && natures@[j]@ == wisteria@;
                assert(views(natures@)[j] == "wisteria"@);
            }
        }

        let compiler_flags = match table.get("compiler_flags") {
            Some(Value::Table(t)) => Some(load_flags(&t.entries)?),
            Some(v) => {
                let m = join2("Mismatched type for \"", name.as_str()).concat(".compiler_flags\", expected a table, found ");
                return Err((m.concat(v.type_str()), 16));
            },
            None => None,
        };

        proof {
            let seed = seed_environment(pv, nv, vv);
            reveal_strlit("project_name");
            reveal_strlit("configuration");
            reveal_strlit("version");
            assert("project_name"@.len() == 12);
            assert("configuration"@.len() == 13);
            assert("version"@.len() == 7);
            assert(unique_keys(seed));
            match table.get_spec("environment"@) {
                Some(Value::Table(et)) => lemma_overlay_unique(seed, et.entries@),
                _ => {},
            }
            match table.get_spec("task"@) {
                Some(Value::Table(tt)) => {
                    if distinct_keys(tt) {
                        let tv = task_views(tasks@);
                        assert forall|i: int, j: int| 0 <= i < j < tv.len() implies (#[trigger] tv[i]).0 != (#[trigger] tv[j]).0 by {
                            assert(tasks@[i].0@ == tt.entries@[i].0@);
                            assert(tasks@[j].0@ == tt.entries@[j].0@);
                        }
                    }
                },
                _ => {
                    assert(task_views(tasks@).len() == 0);
                },
            }
        }
        Ok(Configuration {
            name,
            sources,
            dependencies,
            shaded,
            includes,
            targets,
            entry,
            java_version,
            tasks,
            compiler_flags,
            environment,
            natures,
            inherit,
        })
    }
}

} // verus!
