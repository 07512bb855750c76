//! What is kept between builds: the last task built, when, and how long the
//! most recent compilations took.
use vstd::prelude::*;
use crate::document::{Table, Value};

verus! {

/// The most compile durations kept.
pub const HISTORY: usize = 30;

pub struct Metadata {
    pub last_compiled_task: Option<String>,
    pub last_compilation_time: u128,
    pub compilation_times: Vec<u32>,
}

/// The newest `HISTORY` entries of `s`, oldest first.
pub open spec fn window(s: Seq<u32>) -> Seq<u32> {
    if s.len() <= HISTORY { s } else { s.subrange(s.len() - HISTORY, s.len() as int) }
}

pub open spec fn sum(s: Seq<u32>) -> int
    decreases s.len(),
{
    if s.len() == 0 { 0 } else { sum(s.drop_last()) + s.last() }
}

/// The mean of `s` rounded down, zero for no samples.
pub open spec fn mean(s: Seq<u32>) -> int {
    if s.len() == 0 { 0 } else { sum(s) / (s.len() as int) }
}

proof fn lemma_sum_bound(s: Seq<u32>)
    ensures
        0 <= sum(s) <= s.len() * 0xffff_ffff,
    decreases s.len(),
{
    if s.len() > 0 {
        lemma_sum_bound(s.drop_last());
    }
}

/// The newest `HISTORY` entries of `v`.
fn keep_newest(v: &Vec<u32>) -> (r: Vec<u32>)
    ensures
        r@ == window(v@),
{
    let start: usize = if v.len() > HISTORY { v.len() - HISTORY } else { 0 };
    let mut r: Vec<u32> = Vec::new();
    let mut i: usize = start;
    while i < v.len()
        invariant
            start <= i <= v.len(),
            start == (if v.len() > HISTORY { v.len() - HISTORY } else { 0 }),
            r@ == v@.subrange(start as int, i as int),
        decreases v.len() - i,
    {
        r.push(v[i]);
        assert(v@.subrange(start as int, i + 1) =~= v@.subrange(start as int, i as int).push(v@[i as int]));
        i = i + 1;
    }
    assert(v@.subrange(0, v@.len() as int) =~= v@);
    r
}

impl Metadata {
    pub open spec fn wf(&self) -> bool {
        self.compilation_times@.len() <= HISTORY
    }

    /// Metadata with nothing recorded yet.
    pub fn empty() -> (r: Self)
        ensures
            r.wf(),
            r.last_compiled_task is None,
            r.last_compilation_time == 0,
            r.compilation_times@.len() == 0,
    {
        Metadata { last_compiled_task: None, last_compilation_time: 0, compilation_times: Vec::new() }
    }

    /// Metadata as stored: the newest `HISTORY` durations are kept.
    pub fn from(last_compiled_task: String, last_compilation_time: u64, compilation_times: Vec<u32>) -> (r: Self)
        ensures
            r.wf(),
            r.last_compiled_task matches Some(t) && t@ == last_compiled_task@,
            r.last_compilation_time == last_compilation_time as u128,
            r.compilation_times@ == window(compilation_times@),
    {
        let times = keep_newest(&compilation_times);
        Metadata { last_compiled_task: Some(last_compiled_task), last_compilation_time: last_compilation_time as u128, compilation_times: times }
    }

    pub fn last_compiled_task(&self) -> (r: Option<&String>)
        ensures
            match r { Some(t) => self.last_compiled_task == Some(*t), None => self.last_compiled_task is None },
    {
        self.last_compiled_task.as_ref()
    }

    pub fn last_compilation_time(&self) -> (r: u128)
        ensures
            r == self.last_compilation_time,
    {
        self.last_compilation_time
    }

    pub fn compilation_times(&self) -> (r: &[u32])
        ensures
            r@ == self.compilation_times@,
    {
        self.compilation_times.as_slice()
    }

    /// Adds a compile duration, evicting the oldest beyond `HISTORY`.
    pub fn push_duration(&mut self, duration: u32)
        requires
            old(self).wf(),
        ensures
            final(self).wf(),
            final(self).compilation_times@ == window(old(self).compilation_times@.push(duration)),
            final(self).last_compiled_task == old(self).last_compiled_task,
            final(self).last_compilation_time == old(self).last_compilation_time,
    {
        if self.compilation_times.len() >= HISTORY {
            let ghost before = self.compilation_times@;
            self.compilation_times.remove(0);
            self.compilation_times.push(duration);
            assert(self.compilation_times@ =~= window(before.push(duration)));
        } else {
            self.compilation_times.push(duration);
        }
    }

    /// Records a finished build of `task` at time `now`; `duration` is the
    /// compile time, absent when nothing needed compiling.
    pub fn record_build(&mut self, task: String, now: u128, duration: Option<u32>)
        requires
            old(self).wf(),
        ensures
            final(self).wf(),
            final(self).last_compiled_task matches Some(t) && t@ == task@,
            final(self).last_compilation_time == now,
            final(self).compilation_times@ == match duration {
                Some(d) => window(old(self).compilation_times@.push(d)),
                None => old(self).compilation_times@,
            },
    {
        if let Some(d) = duration {
            self.push_duration(d);
        }
        self.last_compiled_task = Some(task);
        self.last_compilation_time = now;
    }

    /// The mean compile duration, rounded down; zero with no samples.
    pub fn mean_duration(&self) -> (r: u32)
        requires
            self.wf(),
        ensures
            r == mean(self.compilation_times@),
    {
        let n = self.compilation_times.len();
        if n == 0 {
            return 0;
        }
        let mut total: u64 = 0;
        let mut i: usize = 0;
        while i < n
            invariant
                n == self.compilation_times@.len(),
                n <= HISTORY,
                i <= n,
                total == sum(self.compilation_times@.subrange(0, i as int)),
            decreases n - i,
        {
            let ghost part = self.compilation_times@.subrange(0, i + 1);
            assert(part.drop_last() =~= self.compilation_times@.subrange(0, i as int));
            proof {
                lemma_sum_bound(self.compilation_times@.subrange(0, i as int));
                assert(i * 0xffff_ffff <= 30 * 0xffff_ffff) by (nonlinear_arith) requires i <= 30;
            }
            total = total + self.compilation_times[i] as u64;
            i = i + 1;
        }
        assert(self.compilation_times@.subrange(0, n as int) =~= self.compilation_times@);
        proof {
            lemma_sum_bound(self.compilation_times@);
            let t: int = total as int;
            let k: int = n as int;
            assert(k * 0xffff_ffff <= 30 * 0xffff_ffff) by (nonlinear_arith) requires k <= 30;
            assert(t / k <= 0xffff_ffff) by (nonlinear_arith)
                requires k >= 1, t >= 0, t <= k * 0xffff_ffff;
        }
        (total / n as u64) as u32
    }
}

/// With a full history, a new sample evicts exactly the oldest, and the
/// reported mean is the rounded-down average of the thirty kept.
pub proof fn lemma_full_history_evicts_oldest(times: Seq<u32>, sample: u32)
    requires
        times.len() == HISTORY as nat,
    ensures
        window(times.push(sample)) == times.drop_first().push(sample),
        window(times.push(sample)).len() == HISTORY,
        mean(window(times.push(sample))) == sum(times.drop_first().push(sample)) / 30,
{
    assert(times.push(sample).subrange(1, 31) =~= times.drop_first().push(sample));
}

/// Whether a source file must be compiled again: always when recompilation is
/// forced or another task was built last; otherwise only when the file was
/// modified no earlier than the last compilation.
pub open spec fn must_compile(force: bool, last_task: Option<Seq<char>>, task: Seq<char>, last_time: u128, modified: u128) -> bool {
    !(!force && last_task == Some(task) && modified < last_time)
}

impl Metadata {
    /// Whether a file modified at `modified` is compiled by a build of `task`.
    pub fn needs_compile(&self, task: &String, force: bool, modified: u128) -> (r: bool)
        ensures
            r == must_compile(force, match self.last_compiled_task { Some(t) => Some(t@), None => None }, task@, self.last_compilation_time, modified),
    {
        let same_task = match &self.last_compiled_task {
            Some(t) => *t == *task,
            None => false,
        };
        !(!force && same_task && modified < self.last_compilation_time)
    }
}

impl Metadata {
    /// Whether building `task` must first remove the output of another task
    /// built last.
    pub fn must_purge(&self, task: &String) -> (r: bool)
        ensures
            r == (self.last_compiled_task matches Some(t) && t@ != task@),
    {
        match &self.last_compiled_task {
            Some(t) => *t != *task,
            None => false,
        }
    }
}

/// The durations an array of the stored state holds: each integer that
/// fits, in order; other elements are skipped.
pub open spec fn stored_times(items: Seq<Value>) -> Seq<u32>
    decreases items.len(),
{
    if items.len() == 0 {
        Seq::empty()
    } else {
        let rest = stored_times(items.drop_last());
        match items.last() {
            Value::Integer(i) => if 0 <= i <= 0xffff_ffff { rest.push(i as u32) } else { rest },
            _ => rest,
        }
    }
}

fn read_times(items: &Vec<Value>) -> (r: Vec<u32>)
    ensures
        r@ == stored_times(items@),
{
    let mut r: Vec<u32> = Vec::new();
    let mut i: usize = 0;
    while i < items.len()
        invariant
            i <= items.len(),
            r@ == stored_times(items@.subrange(0, i as int)),
        decreases items.len() - i,
    {
        assert(items@.subrange(0, i + 1).drop_last() =~= items@.subrange(0, i as int));
        match &items[i] {
            Value::Integer(n) => {
                if 0 <= *n && *n <= 0xffff_ffff {
                    r.push(*n as u32);
                }
            },
            _ => {},
        }
        i = i + 1;
    }
    assert(items@.subrange(0, items@.len() as int) =~= items@);
    r
}

impl Metadata {
    /// The metadata a stored state table records. A missing or malformed
    /// entry counts as unset: no task, time zero, no durations.
    pub fn from_table(t: &Table) -> (r: Self)
        ensures
            r.wf(),
            match t.get_spec("last_compiled_task"@) {
                Some(Value::String(s)) => r.last_compiled_task matches Some(x) && x@ == s@,
                _ => r.last_compiled_task is None,
            },
            r.last_compilation_time == match t.get_spec("last_compilation_time"@) {
                Some(Value::Integer(i)) => if i >= 0 { i as u128 } else { 0u128 },
                _ => 0u128,
            },
            r.compilation_times@ == window(match t.get_spec("compilation_times"@) {
                Some(Value::Array(a)) => stored_times(a@),
                _ => Seq::empty(),
            }),
    {
        let last_compiled_task = match t.get("last_compiled_task") {
            Some(Value::String(s)) => Some(s.clone()),
            _ => None,
        };
        let last_compilation_time: u128 = match t.get("last_compilation_time") {
            Some(Value::Integer(i)) => if *i >= 0 { *i as u128 } else { 0 },
            _ => 0,
        };
        let times = match t.get("compilation_times") {
            Some(Value::Array(a)) => read_times(a),
            _ => Vec::new(),
        };
        Metadata { last_compiled_task, last_compilation_time, compilation_times: keep_newest(&times) }
    }

    /// The state table that records this metadata; the time is stored only
    /// when it fits a signed 64-bit integer.
    pub fn to_table(&self) -> (r: Table)
        ensures
            match self.last_compiled_task {
                Some(task) => r.get_spec("last_compiled_task"@) matches Some(Value::String(s)) && s@ == task@,
                None => r.get_spec("last_compiled_task"@) is None,
            },
            self.last_compilation_time <= 0x7fff_ffff_ffff_ffff ==>
                r.get_spec("last_compilation_time"@) == Some(Value::Integer(self.last_compilation_time as i64)),
            r.get_spec("compilation_times"@) matches Some(Value::Array(a)) && stored_times(a@) == self.compilation_times@,
    {
        let mut times: Vec<Value> = Vec::new();
        let mut i: usize = 0;
        while i < self.compilation_times.len()
            invariant
                i <= self.compilation_times.len(),
                times@.len() == i,
                stored_times(times@) == self.compilation_times@.subrange(0, i as int),
            decreases self.compilation_times.len() - i,
        {
            let ghost before = times@;
            times.push(Value::Integer(self.compilation_times[i] as i64));
            assert(times@.drop_last() =~= before);
            assert(self.compilation_times@.subrange(0, i + 1) =~= self.compilation_times@.subrange(0, i as int).push(self.compilation_times@[i as int]));
            i = i + 1;
        }
        assert(self.compilation_times@.subrange(0, self.compilation_times@.len() as int) =~= self.compilation_times@);
        let mut entries: Vec<(String, Value)> = Vec::new();
        let time = if self.last_compilation_time <= 0x7fff_ffff_ffff_ffff { self.last_compilation_time as i64 } else { 0 };
        entries.push((String::from_str("last_compilation_time"), Value::Integer(time)));
        entries.push((String::from_str("compilation_times"), Value::Array(times)));
        if let Some(task) = &self.last_compiled_task {
            entries.push((String::from_str("last_compiled_task"), Value::String(task.clone())));
        }
        let ghost e = entries@;
        proof {
            reveal_with_fuel(crate::document::lookup, 4);
            reveal_strlit("last_compilation_time");
            reveal_strlit("compilation_times");
            reveal_strlit("last_compiled_task");
            assert("last_compilation_time"@.len() == 21);
            assert("last_compiled_task"@.len() == 18);
            assert("compilation_times"@.len() == 17);
            assert(e[0].0@ == "last_compilation_time"@);
            assert(e[1].0@ == "compilation_times"@);
            assert(e[0].0@ != "last_compiled_task"@);
            assert(e[1].0@ != "last_compiled_task"@);
            assert(e[1].0@ != "last_compilation_time"@);
            assert(e.drop_first().drop_first() =~= e.subrange(2, e.len() as int));
            assert(e.drop_first() =~= e.subrange(1, e.len() as int));
            if e.len() == 2 {
                assert(e.subrange(2, 2) =~= Seq::<(String, Value)>::empty());
            } else {
                assert(e.subrange(2, 3)[0] == e[2]);
            }
        }
        Table { entries }
    }
}

} // verus!
