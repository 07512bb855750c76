//! Tasks: user-defined phase sequences and the implicit build and clean tasks.
use vstd::prelude::*;
use crate::configuration::unique_keys;
use crate::document::{Table, Value, distinct_keys, fails_with, all_strings, string_items, views, strings_of};
use crate::text::join2;

verus! {

/// A task declared by a configuration: named phases, each a list of actions,
/// run in the declared order.
pub struct DefinedTask {
    pub name: String,
    pub phases: Vec<(String, Vec<String>)>,
    pub phase_order: Vec<String>,
    pub on_fail: Option<String>,
    pub chain_task: Option<Vec<String>>,
}

/// The implicit task that compiles and packages a configuration.
pub struct ImplicitBuildTask {
    pub order: Vec<String>,
}

/// The implicit task that removes a configuration's output.
pub struct ImplicitCleanTask {
    pub order: Vec<String>,
}

/// Any task a configuration can run.
pub enum Task {
    Defined(DefinedTask),
    Build(ImplicitBuildTask),
    Clean(ImplicitCleanTask),
}

/// What every kind of task offers: the order of its phases.
pub trait TaskRunner {
    /// The names of the phases, in the order they run.
    spec fn phases_view(&self) -> Seq<Seq<char>>;

    fn phase_order(&self) -> (r: &[String])
        ensures
            views(r@) == self.phases_view();
}

pub open spec fn phase_views(p: Seq<(String, Vec<String>)>) -> Seq<(Seq<char>, Seq<Seq<char>>)> {
    p.map_values(|e: (String, Vec<String>)| (e.0@, views(e.1@)))
}

/// The list of actions of the phase named `key`, if there is one.
pub open spec fn phase_get(p: Seq<(String, Vec<String>)>, key: Seq<char>) -> Option<Seq<Seq<char>>>
    decreases p.len(),
{
    if p.len() == 0 {
        None
    } else if p[0].0@ == key {
        Some(views(p[0].1@))
    } else {
        phase_get(p.drop_first(), key)
    }
}

/// The code of the first phase entry that is not an array of strings.
pub open spec fn phase_error(entries: Seq<(String, Value)>) -> Option<u8>
    decreases entries.len(),
{
    if entries.len() == 0 {
        None
    } else {
        match entries[0].1 {
            Value::Array(a) => if all_strings(a@) { phase_error(entries.drop_first()) } else { Some(15u8) },
            _ => Some(13u8),
        }
    }
}

pub open spec fn phase_entries(entries: Seq<(String, Value)>) -> Seq<(Seq<char>, Seq<Seq<char>>)> {
    entries.map_values(|e: (String, Value)| (e.0@, string_items(e.1->Array_0@)))
}

/// The code with which a strict string array (no single string) fails.
pub open spec fn strict_array_error(v: Value) -> Option<u8> {
    match v {
        Value::Array(a) => if all_strings(a@) { None } else { Some(15u8) },
        _ => Some(13u8),
    }
}

/// The code with which loading a task declaration from `t` fails, if it does.
pub open spec fn task_error(t: Table) -> Option<u8> {
    match t.get_spec("phase"@) {
        None => Some(10u8),
        Some(Value::Table(pt)) => match phase_error(pt.entries@) {
            Some(c) => Some(c),
            None => match t.get_spec("phases"@) {
                None => Some(10u8),
                Some(order) => match strict_array_error(order) {
                    Some(c) => Some(c),
                    None => match t.get_spec("on_fail"@) {
                        Some(v) if !(v is String) => Some(11u8),
                        _ => match t.get_spec("chain_task"@) {
                            Some(c) => strict_array_error(c),
                            None => None,
                        },
                    },
                },
            },
        },
        Some(_) => Some(16u8),
    }
}

/// Whether `task` is what a well-formed declaration `t` of the task `name` describes.
pub open spec fn task_built(name: Seq<char>, t: Table, task: DefinedTask) -> bool {
    &&& task.name@ == name
    &&& t.get_spec("phase"@) matches Some(Value::Table(pt)) && phase_views(task.phases@) == phase_entries(pt.entries@)
    &&& t.get_spec("phases"@) matches Some(order) && views(task.phase_order@) == string_items(order->Array_0@)
    &&& match t.get_spec("on_fail"@) {
        Some(Value::String(s)) => task.on_fail matches Some(o) && o@ == s@,
        _ => task.on_fail is None,
    }
    &&& match t.get_spec("chain_task"@) {
        Some(Value::Array(a)) => task.chain_task matches Some(c) && views(c@) == string_items(a@),
        _ => task.chain_task is None,
    }
}

/// What loading a task declaration from `t` yields.
pub open spec fn task_loaded(name: Seq<char>, t: Table, r: Result<DefinedTask, (String, u8)>) -> bool {
    match task_error(t) {
        Some(c) => fails_with(r, c),
        None => r matches Ok(task) && task_built(name, t, task),
    }
}

/// The first phase of `order` that `phases` does not define, if any.
pub open spec fn first_missing(order: Seq<Seq<char>>, phases: Seq<(String, Vec<String>)>) -> Option<Seq<char>>
    decreases order.len(),
{
    if order.len() == 0 {
        None
    } else if phase_get(phases, order[0]) is None {
        Some(order[0])
    } else {
        first_missing(order.drop_first(), phases)
    }
}

fn mismatch(what: &str, expected: &str, found: &Value, code: u8) -> (r: (String, u8))
    ensures
        r.1 == code,
{
    let m = join2("Mismatched type for ", what).concat(", expected ").concat(expected).concat(", found ");
    (m.concat(found.type_str()), code)
}

/// The strings of an array value, strictly: a single string is refused.
fn strict_strings(what: &str, v: &Value) -> (r: Result<Vec<String>, (String, u8)>)
    ensures
        match strict_array_error(*v) {
            Some(c) => fails_with(r, c),
            None => r matches Ok(x) && views(x@) == string_items(v->Array_0@),
        },
{
    match v {
        Value::Array(a) => strings_of(what, a),
        _ => Err(mismatch(what, "an array of strings", v, 13)),
    }
}

fn read_phases(entries: &Vec<(String, Value)>) -> (r: Result<Vec<(String, Vec<String>)>, (String, u8)>)
    ensures
        match phase_error(entries@) {
            Some(c) => fails_with(r, c),
            None => r matches Ok(p) && phase_views(p@) == phase_entries(entries@),
        },
{
    let mut phases: Vec<(String, Vec<String>)> = Vec::new();
    let mut i: usize = 0;
    assert(entries@.subrange(0, entries@.len() as int) =~= entries@);
    while i < entries.len()
        invariant
            i <= entries.len(),
            phase_error(entries@) == phase_error(entries@.subrange(i as int, entries@.len() as int)),
            phase_views(phases@) =~= phase_entries(entries@.subrange(0, i as int)),
        decreases entries.len() - i,
    {
        let ghost rest = entries@.subrange(i as int, entries@.len() as int);
        assert(rest.drop_first() =~= entries@.subrange(i + 1, entries@.len() as int));
        assert(rest[0] == entries@[i as int]);
        let actions = strict_strings(entries[i].0.as_str(), &entries[i].1)?;
        let ghost before = phases@;
        phases.push((entries[i].0.clone(), actions));
        assert(phase_views(phases@) =~= phase_views(before).push((entries@[i as int].0@, string_items(entries@[i as int].1->Array_0@))));
        assert(entries@.subrange(0, i + 1) =~= entries@.subrange(0, i as int).push(entries@[i as int]));
        i = i + 1;
    }
    Ok(phases)
}

impl DefinedTask {
    /// Reads the task named `name` from its declaration.
    pub fn new(name: &str, table: &Table) -> (r: Result<Self, (String, u8)>)
        ensures
            task_loaded(name@, *table, r),
            r is Ok && (table.get_spec("phase"@) matches Some(Value::Table(pt)) ==> distinct_keys(pt))
                ==> unique_keys(phase_views(r->Ok_0.phases@)),
    {
        let phases = match table.get("phase") {
            Some(Value::Table(t)) => read_phases(&t.entries)?,
            Some(v) => return Err(mismatch("phase", "a table", v, 16)),
            None => return Err((String::from_str("Missing key \"phase\" which should be a table"), 10)),
        };
        let phase_order = match table.get("phases") {
            Some(v) => strict_strings("phase order", v)?,
            None => return Err((String::from_str("Missing key \"phases\", which should be an array of strings"), 10)),
        };
        let on_fail = match table.get("on_fail") {
            Some(Value::String(s)) => Some(s.clone()),
            Some(v) => return Err(mismatch("on_fail", "a string", v, 11)),
            None => None,
        };
        let chain_task = match table.get("chain_task") {
            Some(v) => Some(strict_strings("chain_task", v)?),
            None => None,
        };
        proof {
            match table.get_spec("phase"@) {
                Some(Value::Table(pt)) => {
                    if distinct_keys(pt) {
                        let pv = phase_views(phases@);
                        assert forall|i: int, j: int| 0 <= i < j < pv.len() implies (#[trigger] pv[i]).0 != (#[trigger] pv[j]).0 by {
                            assert(pv[i].0 == phase_entries(pt.entries@)[i].0);
                            assert(pv[j].0 == phase_entries(pt.entries@)[j].0);
                        }
                    }
                },
                _ => {},
            }
        }
        Ok(DefinedTask { name: String::from_str(name), phases, phase_order, on_fail, chain_task })
    }

    pub fn phases(&self) -> (r: &Vec<(String, Vec<String>)>)
        ensures
            r == &self.phases,
    {
        &self.phases
    }

    pub fn on_fail(&self) -> (r: Option<&String>)
        ensures
            match r {
                Some(s) => self.on_fail == Some(*s),
                None => self.on_fail is None,
            },
    {
        self.on_fail.as_ref()
    }

    pub fn chain_task(&self) -> (r: Option<&Vec<String>>)
        ensures
            match r {
                Some(s) => self.chain_task == Some(*s),
                None => self.chain_task is None,
            },
    {
        self.chain_task.as_ref()
    }

    /// The actions of the phase named `phase`, if it is defined.
    pub fn phase(&self, phase: &String) -> (r: Option<&Vec<String>>)
        ensures
            match r {
                Some(a) => phase_get(self.phases@, phase@) == Some(views(a@)),
                None => phase_get(self.phases@, phase@) is None,
            },
    {
        let mut i: usize = 0;
        assert(self.phases@.subrange(0, self.phases@.len() as int) =~= self.phases@);
        while i < self.phases.len()
            invariant
                i <= self.phases.len(),
                phase_get(self.phases@, phase@) == phase_get(self.phases@.subrange(i as int, self.phases@.len() as int), phase@),
            decreases self.phases.len() - i,
        {
            let ghost rest = self.phases@.subrange(i as int, self.phases@.len() as int);
            assert(rest.drop_first() =~= self.phases@.subrange(i + 1, self.phases@.len() as int));
            if self.phases[i].0 == *phase {
                assert(rest[0] == self.phases@[i as int]);
                return Some(&self.phases[i].1);
            }
            i = i + 1;
        }
        None
    }

    /// Runs the phases in their declared order. A phase that the order names
    /// but the task does not define stops the run with code 1.
    pub fn invoke(&self) -> (r: Result<(), (String, u8)>)
        ensures
            match first_missing(views(self.phase_order@), self.phases@) {
                Some(p) => r matches Err(e) && e.1 == 1 && e.0@ == "No phase \""@ + p + "\" has been defined"@,
                None => r is Ok,
            },
    {
        let mut i: usize = 0;
        assert(views(self.phase_order@).subrange(0, self.phase_order@.len() as int) =~= views(self.phase_order@));
        while i < self.phase_order.len()
            invariant
                i <= self.phase_order.len(),
                first_missing(views(self.phase_order@), self.phases@)
                    == first_missing(views(self.phase_order@).subrange(i as int, self.phase_order@.len() as int), self.phases@),
            decreases self.phase_order.len() - i,
        {
            let ghost rest = views(self.phase_order@).subrange(i as int, self.phase_order@.len() as int);
            assert(rest.drop_first() =~= views(self.phase_order@).subrange(i + 1, self.phase_order@.len() as int));
            assert(rest[0] == self.phase_order@[i as int]@);
            match self.phase(&self.phase_order[i]) {
                Some(_actions) => {},
                None => {
                    let m = join2("No phase \"", self.phase_order[i].as_str()).concat("\" has been defined");
                    return Err((m, 1));
                },
            }
            i = i + 1;
        }
        Ok(())
    }
}

impl TaskRunner for DefinedTask {
    open spec fn phases_view(&self) -> Seq<Seq<char>> {
        views(self.phase_order@)
    }

    fn phase_order(&self) -> (r: &[String]) {
        self.phase_order.as_slice()
    }
}

/// The phases of the implicit build task.
pub open spec fn build_order() -> Seq<Seq<char>> {
    seq!["collect"@, "compile"@, "shade"@, "package"@]
}

impl ImplicitBuildTask {
    pub fn new() -> (r: Self)
        ensures
            views(r.order@) == build_order(),
    {
        let mut order: Vec<String> = Vec::new();
        order.push(String::from_str("collect"));
        order.push(String::from_str("compile"));
        order.push(String::from_str("shade"));
        order.push(String::from_str("package"));
        assert(views(order@) =~= build_order());
        ImplicitBuildTask { order }
    }
}

impl TaskRunner for ImplicitBuildTask {
    open spec fn phases_view(&self) -> Seq<Seq<char>> {
        views(self.order@)
    }

    fn phase_order(&self) -> (r: &[String]) {
        self.order.as_slice()
    }
}

impl ImplicitCleanTask {
    pub fn new() -> (r: Self)
        ensures
            views(r.order@) == seq!["target"@],
    {
        let mut order: Vec<String> = Vec::new();
        order.push(String::from_str("target"));
        assert(views(order@) =~= seq!["target"@]);
        ImplicitCleanTask { order }
    }
}

impl TaskRunner for ImplicitCleanTask {
    open spec fn phases_view(&self) -> Seq<Seq<char>> {
        views(self.order@)
    }

    fn phase_order(&self) -> (r: &[String]) {
        self.order.as_slice()
    }
}

impl TaskRunner for Task {
    open spec fn phases_view(&self) -> Seq<Seq<char>> {
        match self {
            Task::Defined(t) => views(t.phase_order@),
            Task::Build(t) => views(t.order@),
            Task::Clean(t) => views(t.order@),
        }
    }

    fn phase_order(&self) -> (r: &[String]) {
        match self {
            Task::Defined(t) => t.phase_order.as_slice(),
            Task::Build(t) => t.order.as_slice(),
            Task::Clean(t) => t.order.as_slice(),
        }
    }
}

} // verus!
