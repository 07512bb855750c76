//! A project: its identity, its declared dependencies and its configurations,
//! with inheritance among configurations resolved.
use vstd::prelude::*;
use crate::configuration::{Configuration, inherit_refusal, lemma_key_pos_bound, config_error, configured_as, key_pos, implicit_applied, inherits_as, lemma_first_key_pos, lemma_no_key_pos};
use crate::dependency::{Dependency, load_spec, load_error, first_error, string_opt};
use crate::document::{Table, Value, fails_with, read_string};
use crate::text::join2;

verus! {

/// A project's identity with its dependencies and configurations, by name.
pub struct ProjectInfo {
    pub name: String,
    pub version: String,
    pub dependencies: Vec<(String, Dependency)>,
    pub configurations: Vec<(String, Configuration)>,
}

pub open spec fn config_views(cs: Seq<(String, Configuration)>) -> Seq<(Seq<char>, Configuration)> {
    cs.map_values(|e: (String, Configuration)| (e.0@, e.1))
}

/// The position of the configuration named `name`, if there is one.
pub open spec fn config_pos(cs: Seq<(String, Configuration)>, name: Seq<char>) -> Option<int> {
    key_pos(config_views(cs), name)
}

/// The code with which the inheritance of configuration `i` is refused, if it
/// is: 40 for inheriting from itself, 41 for a parent that does not exist,
/// 42 for a parent that itself inherits.
pub open spec fn inheritance_check(cs: Seq<(String, Configuration)>, i: int) -> Option<u8> {
    match cs[i].1.inherit {
        None => None,
        Some(p) => if p@ == cs[i].0@ {
            Some(40u8)
        } else {
            match config_pos(cs, p@) {
                None => Some(41u8),
                Some(j) => if cs[j].1.inherit is Some { Some(42u8) } else { None },
            }
        },
    }
}

/// The code of the first configuration, from position `i` on, whose inheritance is refused.
pub open spec fn inheritance_error_from(cs: Seq<(String, Configuration)>, i: int) -> Option<u8>
    decreases cs.len() - i,
{
    if i < 0 || i >= cs.len() {
        None
    } else if inheritance_check(cs, i) is Some {
        inheritance_check(cs, i)
    } else {
        inheritance_error_from(cs, i + 1)
    }
}

pub open spec fn inheritance_error(cs: Seq<(String, Configuration)>) -> Option<u8> {
    inheritance_error_from(cs, 0)
}

/// The parent of configuration `i`, which inherits.
pub open spec fn parent_of(cs: Seq<(String, Configuration)>, i: int) -> int {
    config_pos(cs, cs[i].1.inherit->Some_0@)->Some_0
}

/// What resolving inheritance makes of configuration `i`: implicit tasks
/// registered, then, for an inheriting configuration, one pass of
/// inheritance from its parent (with the parent's implicit tasks) and the
/// implicit tasks registered again.
pub open spec fn resolved_as(result: Configuration, cs: Seq<(String, Configuration)>, i: int) -> bool {
    if cs[i].1.inherit is None {
        implicit_applied(result, cs[i].1)
    } else {
        exists|pre: Configuration, parent: Configuration, mid: Configuration|
            #[trigger] inherits_as(mid, pre, parent)
            && implicit_applied(pre, cs[i].1)
            && implicit_applied(parent, cs[parent_of(cs, i)].1)
            && implicit_applied(result, mid)
    }
}

fn config_index(cs: &Vec<(String, Configuration)>, k: &String) -> (r: Option<usize>)
    ensures
        match r {
            Some(i) => config_pos(cs@, k@) == Some(i as int) && i < cs@.len() && cs@[i as int].0@ == k@,
            None => config_pos(cs@, k@) is None,
        },
{
    let ghost cv = config_views(cs@);
    let mut i: usize = 0;
    while i < cs.len()
        invariant
            i <= cs.len(),
            cv == config_views(cs@),
            forall|j: int| 0 <= j < i ==> cs@[j].0@ != k@,
        decreases cs.len() - i,
    {
        if cs[i].0 == *k {
            proof { lemma_first_key_pos(cv, k@, i as int); }
            return Some(i);
        }
        i = i + 1;
    }
    proof { lemma_no_key_pos(cv, k@); }
    None
}

/// Checks every inheritance relation, in order of declaration.
pub fn check_inheritance(cs: &Vec<(String, Configuration)>) -> (r: Result<(), (String, u8)>)
    ensures
        match inheritance_error(cs@) {
            Some(c) => fails_with(r, c),
            None => r is Ok,
        },
{
    let mut i: usize = 0;
    while i < cs.len()
        invariant
            i <= cs.len(),
            inheritance_error(cs@) == inheritance_error_from(cs@, i as int),
        decreases cs.len() - i,
    {
        if let Some(p) = &cs[i].1.inherit {
            if *p == cs[i].0 {
                let m = join2("Configuration \"", cs[i].0.as_str()).concat("\" cannot inherit from itself");
                return Err((m, 40));
            }
            match config_index(cs, p) {
                None => {
                    let m = join2("Configuration \"", cs[i].0.as_str()).concat("\" inherits from \"").concat(p.as_str());
                    return Err((m.concat("\", which does not exist"), 41));
                },
                Some(j) => {
                    if cs[j].1.inherit.is_some() {
                        let m = join2("Configuration \"", cs[i].0.as_str()).concat("\" inherits from \"").concat(p.as_str());
                        return Err((m.concat("\", which inherits itself; inheritance is single-level"), 42));
                    }
                },
            }
        }
        i = i + 1;
    }
    Ok(())
}

/// Resolves inheritance among `cs` in one non-transitive pass.
pub fn resolve_inheritance(cs: &mut Vec<(String, Configuration)>) -> (r: Result<(), (String, u8)>)
    requires
        forall|i: int| 0 <= i < old(cs)@.len() ==> (#[trigger] old(cs)@[i]).1.name@ == old(cs)@[i].0@,
    ensures
        match inheritance_error(old(cs)@) {
            Some(c) => fails_with(r, c) && final(cs)@ == old(cs)@,
            None => r is Ok
                && final(cs)@.len() == old(cs)@.len()
                && forall|i: int| 0 <= i < final(cs)@.len() ==>
                    (#[trigger] final(cs)@[i]).0 == old(cs)@[i].0 && resolved_as(final(cs)@[i].1, old(cs)@, i),
        },
{
    check_inheritance(cs)?;
    let ghost orig = cs@;
    let n = cs.len();
    let mut i: usize = 0;
    while i < n
        invariant
            n == orig.len(),
            i <= n,
            inheritance_error(orig) is None,
            cs@.len() == n,
            forall|k: int| 0 <= k < i ==> (#[trigger] cs@[k]).0 == orig[k].0 && implicit_applied(cs@[k].1, orig[k].1),
            forall|k: int| i <= k < n ==> #[trigger] cs@[k] == orig[k],
        decreases n - i,
    {
        let (name, mut c) = cs.remove(i);
        c.apply_implicit();
        cs.insert(i, (name, c));
        i = i + 1;
    }
    let ghost pre = cs@;
    let mut i: usize = 0;
    while i < n
        invariant
            n == orig.len(),
            i <= n,
            inheritance_error(orig) is None,
            forall|k: int| 0 <= k < n ==> (#[trigger] orig[k]).1.name@ == orig[k].0@,
            pre.len() == n,
            cs@.len() == n,
            forall|k: int| 0 <= k < n ==> (#[trigger] pre[k]).0 == orig[k].0 && implicit_applied(pre[k].1, orig[k].1),
            forall|k: int| 0 <= k < i ==> (#[trigger] cs@[k]).0 == orig[k].0 && resolved_as(cs@[k].1, orig, k),
            forall|k: int| i <= k < n ==> #[trigger] cs@[k] == pre[k],
            forall|k: int| 0 <= k < n && orig[k].1.inherit is None ==> #[trigger] cs@[k] == pre[k],
        decreases n - i,
    {
        assert(inheritance_error_from(orig, i as int) is None) by {
            lemma_no_error_after(orig, 0, i as int);
        }
        if cs[i].1.inherit.is_some() {
            let p = match &cs[i].1.inherit {
                Some(p) => p.clone(),
                None => String::new(),
            };
            assert(orig[i as int].1.inherit == pre[i as int].1.inherit);
            let ghost ji = config_pos(orig, p@)->Some_0;
            let j = match config_index(cs, &p) {
                Some(j) => j,
                None => {
                    // Every parent was found by `check_inheritance`.
                    proof {
                        lemma_same_keys_pos(orig, cs@, p@);
                        assert(false);
                    }
                    i = i + 1;
                    continue;
                },
            };
            proof {
                lemma_same_keys_pos(orig, cs@, p@);
                assert(j as int == ji);
                assert(cs@[j as int] == pre[j as int]);
            }
            let (name, mut c) = cs.remove(i);
            let ghost before = c;
            let pj = if j < i { j } else { j - 1 };
            proof {
                assert(inheritance_check(orig, i as int) is None);
                assert(pre[ji].1.name == orig[ji].1.name);
                assert(orig[ji].1.name@ == orig[ji].0@);
                assert(orig[ji].0@ == p@);
                assert(before == pre[i as int].1);
                assert(before.name == orig[i as int].1.name);
                assert(orig[i as int].1.name@ == orig[i as int].0@);
                assert(cs@[pj as int].1 == pre[ji].1);
                assert(inherit_refusal(before, pre[ji].1) is None);
            }
            match c.inherit_from(&cs[pj].1) {
                Ok(()) => {},
                Err(_) => {
                    // Refusals were found by `check_inheritance`.
                    proof { assert(false); }
                },
            }
            let ghost mid = c;
            c.apply_implicit();
            proof {
                assert(inherits_as(mid, before, pre[ji].1));
                assert(resolved_as(c, orig, i as int));
            }
            cs.insert(i, (name, c));
        }
        i = i + 1;
    }
    Ok(())
}

proof fn lemma_no_error_after(cs: Seq<(String, Configuration)>, i: int, k: int)
    requires
        0 <= i <= k,
        inheritance_error_from(cs, i) is None,
    ensures
        inheritance_error_from(cs, k) is None,
        0 <= k < cs.len() ==> inheritance_check(cs, k) is None,
    decreases k - i,
{
    if i < k {
        if i < cs.len() {
            lemma_no_error_after(cs, i + 1, k);
        }
    }
}

proof fn lemma_same_keys_pos(a: Seq<(String, Configuration)>, b: Seq<(String, Configuration)>, k: Seq<char>)
    requires
        a.len() == b.len(),
        forall|i: int| 0 <= i < a.len() ==> (#[trigger] a[i]).0 == b[i].0,
    ensures
        config_pos(a, k) == config_pos(b, k),
    decreases a.len(),
{
    let av = config_views(a);
    let bv = config_views(b);
    if a.len() > 0 {
        lemma_same_keys_pos(a.drop_last(), b.drop_last(), k);
        assert(config_views(a.drop_last()) =~= av.drop_last());
        assert(config_views(b.drop_last()) =~= bv.drop_last());
        assert(av.last().0 == bv.last().0);
        assert(crate::merge::has_key(av.drop_last(), k) == crate::merge::has_key(bv.drop_last(), k)) by {
            if crate::merge::has_key(av.drop_last(), k) {
                let j = choose|j: int| 0 <= j < av.drop_last().len() && (#[trigger] av.drop_last()[j]).0 == k;
                assert(bv.drop_last()[j].0 == k);
            }
            if crate::merge::has_key(bv.drop_last(), k) {
                let j = choose|j: int| 0 <= j < bv.drop_last().len() && (#[trigger] bv.drop_last()[j]).0 == k;
                assert(av.drop_last()[j].0 == k);
            }
        }
    }
}

/// A configuration that inherits from itself is always refused.
pub proof fn lemma_self_inheritance_refused(cs: Seq<(String, Configuration)>, i: int)
    requires
        0 <= i < cs.len(),
        cs[i].1.inherit matches Some(p) && p@ == cs[i].0@,
    ensures
        inheritance_error(cs) is Some,
        cs.len() == 1 ==> inheritance_error(cs) == Some(40u8),
{
    lemma_error_if_check(cs, 0, i);
}

proof fn lemma_error_if_check(cs: Seq<(String, Configuration)>, s: int, i: int)
    requires
        0 <= s <= i < cs.len(),
        inheritance_check(cs, i) is Some,
    ensures
        inheritance_error_from(cs, s) is Some,
    decreases i - s,
{
    if s < i && inheritance_check(cs, s) is None {
        lemma_error_if_check(cs, s + 1, i);
    }
}

} // verus!

verus! {

/// The code of the first dependency declaration that cannot be loaded.
pub open spec fn dependencies_error(entries: Seq<(String, Value)>) -> Option<u8>
    decreases entries.len(),
{
    if entries.len() == 0 {
        None
    } else {
        match entries[0].1 {
            Value::Table(t) => if load_error(t) is Some { load_error(t) } else { dependencies_error(entries.drop_first()) },
            _ => Some(33u8),
        }
    }
}

/// The code of the first configuration declaration that cannot be loaded.
pub open spec fn configurations_error(entries: Seq<(String, Value)>) -> Option<u8>
    decreases entries.len(),
{
    if entries.len() == 0 {
        None
    } else {
        match entries[0].1 {
            Value::Table(t) => if config_error(t) is Some { config_error(t) } else { configurations_error(entries.drop_first()) },
            _ => Some(16u8),
        }
    }
}

pub open spec fn entry_views(entries: Seq<(String, Value)>) -> Seq<(Seq<char>, Value)> {
    entries.map_values(|e: (String, Value)| (e.0@, e.1))
}

/// The configuration that a declaration names as its parent, if any.
pub open spec fn declared_parent(v: Value) -> Option<Seq<char>> {
    match v {
        Value::Table(t) => string_opt(t, "inherit"@),
        _ => None,
    }
}

/// `inheritance_check`, read off the declarations.
pub open spec fn declared_check(entries: Seq<(String, Value)>, i: int) -> Option<u8> {
    match declared_parent(entries[i].1) {
        None => None,
        Some(p) => if p == entries[i].0@ {
            Some(40u8)
        } else {
            match key_pos(entry_views(entries), p) {
                None => Some(41u8),
                Some(j) => if declared_parent(entries[j].1) is Some { Some(42u8) } else { None },
            }
        },
    }
}

/// The code of the first declared configuration, from `i` on, whose inheritance is refused.
pub open spec fn declared_error_from(entries: Seq<(String, Value)>, i: int) -> Option<u8>
    decreases entries.len() - i,
{
    if i < 0 || i >= entries.len() {
        None
    } else if declared_check(entries, i) is Some {
        declared_check(entries, i)
    } else {
        declared_error_from(entries, i + 1)
    }
}

/// The code with which loading a project fails, if it does: the header is
/// read first, then the dependencies, then the configurations, then their
/// inheritance.
pub open spec fn project_error(project: Table, configurations: Option<Value>, dependencies: Option<Value>) -> Option<u8> {
    let header = first_error(project, seq!["name"@, "version"@]);
    let deps = match dependencies {
        Some(Value::Table(dt)) => dependencies_error(dt.entries@),
        Some(_) => Some(33u8),
        None => None,
    };
    let configs = match configurations {
        Some(Value::Table(ct)) => if configurations_error(ct.entries@) is Some {
            configurations_error(ct.entries@)
        } else {
            declared_error_from(ct.entries@, 0)
        },
        Some(_) => Some(16u8),
        None => None,
    };
    if header is Some { header } else if deps is Some { deps } else { configs }
}

proof fn lemma_key_pos_same_keys<A, B>(a: Seq<(Seq<char>, A)>, b: Seq<(Seq<char>, B)>, k: Seq<char>)
    requires
        a.len() == b.len(),
        forall|i: int| 0 <= i < a.len() ==> (#[trigger] a[i]).0 == b[i].0,
    ensures
        key_pos(a, k) == key_pos(b, k),
        crate::merge::has_key(a, k) == crate::merge::has_key(b, k),
    decreases a.len(),
{
    if crate::merge::has_key(a, k) {
        let j = choose|j: int| 0 <= j < a.len() && (#[trigger] a[j]).0 == k;
        assert(b[j].0 == k);
    }
    if crate::merge::has_key(b, k) {
        let j = choose|j: int| 0 <= j < b.len() && (#[trigger] b[j]).0 == k;
        assert(a[j].0 == k);
    }
    if a.len() > 0 {
        lemma_key_pos_same_keys(a.drop_last(), b.drop_last(), k);
        assert(a.last().0 == b.last().0);
    }
}

/// The loaded configurations refuse inheritance exactly as their
/// declarations do.
proof fn lemma_declared_inheritance(entries: Seq<(String, Value)>, raw: Seq<(String, Configuration)>, name: Seq<char>, version: Seq<char>, i: int)
    requires
        loaded_configurations(entries, raw, name, version),
        0 <= i,
    ensures
        inheritance_error_from(raw, i) == declared_error_from(entries, i),
    decreases entries.len() - i,
{
    if i < entries.len() {
        lemma_declared_inheritance(entries, raw, name, version, i + 1);
        let cv = config_views(raw);
        let ev = entry_views(entries);
        assert forall|k: int| 0 <= k < cv.len() implies (#[trigger] cv[k]).0 == ev[k].0 by {
            assert(raw[k].0@ == entries[k].0@);
        }
        assert(raw[i].0@ == entries[i].0@);
        match raw[i].1.inherit {
            Some(p) => {
                lemma_key_pos_same_keys(cv, ev, p@);
                lemma_key_pos_bound(ev, p@);
                if key_pos(ev, p@) is Some {
                    let j = key_pos(ev, p@)->Some_0;
                    assert(raw[j].0@ == entries[j].0@);
                    assert(entries[j].1 is Table);
                }
            },
            None => {},
        }
    }
}

/// Whether `deps` holds, in order, the dependencies that `entries` declare.
pub open spec fn dependencies_built(entries: Seq<(String, Value)>, deps: Seq<(String, Dependency)>) -> bool {
    &&& deps.len() == entries.len()
    &&& forall|i: int| 0 <= i < deps.len() ==> {
        &&& (#[trigger] deps[i]).0@ == entries[i].0@
        &&& entries[i].1 is Table
        &&& load_spec(entries[i].1->Table_0, Ok(deps[i].1))
    }
}

fn load_dependencies(entries: &Vec<(String, Value)>) -> (r: Result<Vec<(String, Dependency)>, (String, u8)>)
    ensures
        match dependencies_error(entries@) {
            Some(c) => fails_with(r, c),
            None => r matches Ok(d) && dependencies_built(entries@, d@),
        },
{
    let mut deps: Vec<(String, Dependency)> = Vec::new();
    let mut i: usize = 0;
    assert(entries@.subrange(0, entries@.len() as int) =~= entries@);
    while i < entries.len()
        invariant
            i <= entries.len(),
            dependencies_error(entries@) == dependencies_error(entries@.subrange(i as int, entries@.len() as int)),
            dependencies_built(entries@.subrange(0, i as int), deps@),
        decreases entries.len() - i,
    {
        let ghost rest = entries@.subrange(i as int, entries@.len() as int);
        assert(rest.drop_first() =~= entries@.subrange(i + 1, entries@.len() as int));
        assert(rest[0] == entries@[i as int]);
        match &entries[i].1 {
            Value::Table(t) => {
                let loaded = Dependency::load(t);
                let ghost lv = loaded;
                match loaded {
                    Ok(d) => {
                        let ghost before = deps@;
                        let ghost dv = d;
                        deps.push((entries[i].0.clone(), d));
                        proof {
                            let done = entries@.subrange(0, i + 1);
                            assert forall|j: int| 0 <= j < deps@.len() implies {
                                &&& (#[trigger] deps@[j]).0@ == done[j].0@
                                &&& done[j].1 is Table
                                &&& load_spec(done[j].1->Table_0, Ok(deps@[j].1))
                            } by {
                                if j < i {
                                    assert(deps@[j] == before[j]);
                                    assert(done[j] == entries@.subrange(0, i as int)[j]);
                                } else {
                                    assert(done[j] == entries@[i as int]);
                                    assert(deps@[j].1 == dv);
                                    assert(lv == Ok::<Dependency, (String, u8)>(dv));
                                }
                            }
                            assert(deps@.len() == done.len());
                            assert(dependencies_built(done, deps@));
                        }
                    },
                    Err(e) => {
                        return Err(e);
                    },
                }
            },
            v => {
                let m = join2("Mismatched type for dependency \"", entries[i].0.as_str()).concat("\", expected a table, found ");
                return Err((m.concat(v.type_str()), 33));
            },
        }
        i = i + 1;
    }
    assert(entries@.subrange(0, entries@.len() as int) =~= entries@);
    Ok(deps)
}

/// Whether `cs` holds, in order, the configurations that `entries` declare
/// for the project `name` at `version`, before inheritance.
pub open spec fn loaded_configurations(entries: Seq<(String, Value)>, cs: Seq<(String, Configuration)>, name: Seq<char>, version: Seq<char>) -> bool {
    &&& cs.len() == entries.len()
    &&& forall|i: int| 0 <= i < cs.len() ==> {
        &&& (#[trigger] cs[i]).0@ == entries[i].0@
        &&& entries[i].1 matches Value::Table(t)
        &&& config_error(t) is None
        &&& configured_as(cs[i].1, entries[i].0@, t, name, version)
    }
}

/// Whether each of `result` is what resolving inheritance made of `raw`.
pub open spec fn resolved_all(result: Seq<(String, Configuration)>, raw: Seq<(String, Configuration)>) -> bool {
    &&& result.len() == raw.len()
    &&& forall|i: int| 0 <= i < result.len() ==> (#[trigger] result[i]).0 == raw[i].0 && resolved_as(result[i].1, raw, i)
}

/// Whether the configurations of `p` are those that `entries` declare, each
/// loaded and then resolved through inheritance.
pub open spec fn resolved_from(entries: Seq<(String, Value)>, p: ProjectInfo) -> bool {
    exists|raw: Seq<(String, Configuration)>|
        #[trigger] loaded_configurations(entries, raw, p.name@, p.version@)
        && inheritance_error(raw) is None
        && resolved_all(p.configurations@, raw)
}

fn load_configurations(entries: &Vec<(String, Value)>, project_name: &String, version: &String) -> (r: Result<Vec<(String, Configuration)>, (String, u8)>)
    ensures
        match configurations_error(entries@) {
            Some(c) => fails_with(r, c),
            None => r matches Ok(cs) && loaded_configurations(entries@, cs@, project_name@, version@),
        },
{
    let mut cs: Vec<(String, Configuration)> = Vec::new();
    let mut i: usize = 0;
    assert(entries@.subrange(0, entries@.len() as int) =~= entries@);
    while i < entries.len()
        invariant
            i <= entries.len(),
            configurations_error(entries@) == configurations_error(entries@.subrange(i as int, entries@.len() as int)),
            cs@.len() == i,
            forall|k: int| 0 <= k < i ==> {
                &&& (#[trigger] cs@[k]).0@ == entries@[k].0@
                &&& entries@[k].1 matches Value::Table(t)
                &&& config_error(t) is None
                &&& configured_as(cs@[k].1, entries@[k].0@, t, project_name@, version@)
            },
        decreases entries.len() - i,
    {
        let ghost rest = entries@.subrange(i as int, entries@.len() as int);
        assert(rest.drop_first() =~= entries@.subrange(i + 1, entries@.len() as int));
        assert(rest[0] == entries@[i as int]);
        match &entries[i].1 {
            Value::Table(t) => {
                let c = Configuration::from(entries[i].0.clone(), t, project_name.clone(), version.clone())?;
                cs.push((entries[i].0.clone(), c));
            },
            v => {
                let m = join2("Mismatched type for configuration \"", entries[i].0.as_str()).concat("\", expected a table, found ");
                return Err((m.concat(v.type_str()), 16));
            },
        }
        i = i + 1;
    }
    Ok(cs)
}

impl ProjectInfo {
    /// Reads a project from its header table, its configuration section and
    /// its dependency section, then resolves inheritance among its
    /// configurations. The header must name the project and its version.
    pub fn from(project: &Table, configurations: Option<&Value>, dependencies: Option<&Value>) -> (r: Result<Self, (String, u8)>)
        ensures
            match project_error(*project, match configurations { Some(v) => Some(*v), None => None }, match dependencies { Some(v) => Some(*v), None => None }) {
                Some(c) => fails_with(r, c),
                None => r is Ok,
            },
            r matches Ok(p) ==> {
                &&& Some(p.name@) == string_opt(*project, "name"@)
                &&& Some(p.version@) == string_opt(*project, "version"@)
                &&& match dependencies {
                    Some(Value::Table(dt)) => dependencies_built(dt.entries@, p.dependencies@),
                    _ => p.dependencies@.len() == 0,
                }
                &&& match configurations {
                    Some(Value::Table(ct)) => resolved_from(ct.entries@, p),
                    _ => p.configurations@.len() == 0,
                }
            },
    {
        proof {
            reveal_with_fuel(first_error, 3);
            assert(seq!["name"@, "version"@].drop_first() =~= seq!["version"@]);
            assert(seq!["version"@].drop_first() =~= Seq::<Seq<char>>::empty());
        }
        let name = read_string("name", project)?;
        let version = read_string("version", project)?;
        let deps = match dependencies {
            Some(Value::Table(t)) => load_dependencies(&t.entries)?,
            Some(v) => {
                let m = String::from_str("Mismatched type for \"dependencies\", expected a table, found ");
                return Err((m.concat(v.type_str()), 33));
            },
            None => Vec::new(),
        };
        let mut cs = match configurations {
            Some(Value::Table(t)) => load_configurations(&t.entries, &name, &version)?,
            Some(v) => {
                let m = String::from_str("Mismatched type for \"configuration\", expected a table, found ");
                return Err((m.concat(v.type_str()), 16));
            },
            None => Vec::new(),
        };
        let ghost raw = cs@;
        proof {
            match configurations {
                Some(Value::Table(ct)) => {
                    lemma_declared_inheritance(ct.entries@, raw, name@, version@, 0);
                    assert forall|i: int| 0 <= i < raw.len() implies (#[trigger] raw[i]).1.name@ == raw[i].0@ by {
                        assert(raw[i].0@ == ct.entries@[i].0@);
                    }
                },
                _ => {
                    assert(raw.len() == 0);
                },
            }
        }
        resolve_inheritance(&mut cs)?;
        proof {
            assert(inheritance_error(raw) is None);
            assert(resolved_all(cs@, raw));
        }
        let p = ProjectInfo { name, version, dependencies: deps, configurations: cs };
        proof {
            match configurations {
                Some(Value::Table(ct)) => {
                    assert(loaded_configurations(ct.entries@, raw, p.name@, p.version@));
                    assert(resolved_from(ct.entries@, p));
                },
                _ => {},
            }
        }
        Ok(p)
    }

    /// The dependency declared under `name`, if any.
    pub fn dependency(&self, name: &String) -> (r: Option<&Dependency>)
        ensures
            match r {
                Some(d) => exists|i: int| 0 <= i < self.dependencies@.len()
                    && (#[trigger] self.dependencies@[i]).0@ == name@ && self.dependencies@[i].1 == *d,
                None => forall|i: int| 0 <= i < self.dependencies@.len() ==> (#[trigger] self.dependencies@[i]).0@ != name@,
            },
    {
        let mut i: usize = 0;
        while i < self.dependencies.len()
            invariant
                i <= self.dependencies.len(),
                forall|k: int| 0 <= k < i ==> (#[trigger] self.dependencies@[k]).0@ != name@,
            decreases self.dependencies.len() - i,
        {
            if self.dependencies[i].0 == *name {
                return Some(&self.dependencies[i].1);
            }
            i = i + 1;
        }
        None
    }

    /// The configuration named `name`, if any.
    pub fn configuration(&self, name: &String) -> (r: Option<&Configuration>)
        ensures
            match r {
                Some(c) => exists|i: int| 0 <= i < self.configurations@.len()
                    && (#[trigger] self.configurations@[i]).0@ == name@ && self.configurations@[i].1 == *c,
                None => forall|i: int| 0 <= i < self.configurations@.len() ==> (#[trigger] self.configurations@[i]).0@ != name@,
            },
    {
        let mut i: usize = 0;
        while i < self.configurations.len()
            invariant
                i <= self.configurations.len(),
                forall|k: int| 0 <= k < i ==> (#[trigger] self.configurations@[k]).0@ != name@,
            decreases self.configurations.len() - i,
        {
            if self.configurations[i].0 == *name {
                return Some(&self.configurations[i].1);
            }
            i = i + 1;
        }
        None
    }
}

} // verus!
